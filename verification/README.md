# lego-radio

The core of a single-button internet radio, with its behaviour stated in contracts and proved
by Verus.

`src/` is the verified library. It decides; it does not touch sockets, files, clocks or sound
cards. Where something outside has to be done in between, a machine says what to do next and is
told what came of it.

| Module      | What it holds                                                            |
|-------------|--------------------------------------------------------------------------|
| `radio`     | the states of the radio and what a press, a commit or a lost stream does |
| `listen`    | waiting for the button, an announcement or the end of a stream           |
| `reconnect` | attempts to get a stream back, with growing pauses                       |
| `welcome`   | the greeting and the update that may come with it                        |
| `button`    | telling short presses from long ones                                     |
| `gui`       | a button on the screen, drawn and clicked                                |
| `channels`  | the configured channels and the bank of recorded phrases                 |
| `tts`       | samples of recordings and how an announcement is played                  |
| `audio`     | the three sinks, the epochs of streams and the beeps                     |
| `stream`    | one stream, from its address to its samples                              |
| `hls`       | following a playlist and reading its segments as one stream              |
| `mpegts`    | the audio in a transport stream                                          |
| `updater`   | how a later release is found and installed                               |
| `version`   | semantic versions and their precedence                                   |
| `metrics`   | processor times, temperature and memory                                  |
| `cli`       | the command line                                                         |
| `system`    | volume, service and configuration file                                   |
| `text`      | splitting, trimming, searching and numbers                               |

Two things are taken on trust: `m3u8_rs` parses playlists, and `sha2` computes digests. The
functions that call them say what is assumed.

`app/` is the program around the library. It reads `radio.toml` and the recordings that it names
from the configuration directory: `/etc/lego-radio` on Linux, and else the working directory.
`tests/` runs the library from outside.
