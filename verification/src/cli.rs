//! The command line.
use crate::text::{parse_u8, same_text};
use vstd::prelude::*;

verus! {

broadcast use vstd::string::group_string_axioms;

/// The volume that is set where none is given, in percent.
pub const DEFAULT_SYSTEM_VOLUME: u8 = 80;

/// What the program is asked to do.
#[derive(Debug)]
pub enum CliCommand {
    /// Print the version.
    Version,
    /// Print the help.
    Help,
    /// Install as a service.
    Install,
    /// Remove the service.
    Uninstall,
    /// Install the latest release.
    Update,
    /// Speak every announcement.
    TestTts,
    /// Play a stream: the one at this address, or else that of the first channel.
    TestStream(Option<String>),
    /// Set the system's volume.
    SetVolume(u8),
    /// Run the radio.
    Run,
}

/// The contents of a [`CliCommand`].
pub enum CliView {
    Version,
    Help,
    Install,
    Uninstall,
    Update,
    TestTts,
    TestStream(Option<Seq<char>>),
    SetVolume(u8),
    Run,
}

impl View for CliCommand {
    type V = CliView;

    open spec fn view(&self) -> CliView {
        match *self {
            CliCommand::Version => CliView::Version,
            CliCommand::Help => CliView::Help,
            CliCommand::Install => CliView::Install,
            CliCommand::Uninstall => CliView::Uninstall,
            CliCommand::Update => CliView::Update,
            CliCommand::TestTts => CliView::TestTts,
            CliCommand::TestStream(Some(url)) => CliView::TestStream(Some(url@)),
            CliCommand::TestStream(None) => CliView::TestStream(None),
            CliCommand::SetVolume(volume) => CliView::SetVolume(volume),
            CliCommand::Run => CliView::Run,
        }
    }
}

/// The volume that an argument gives, or the default where it gives none.
pub open spec fn volume_argument(argument: Option<Seq<char>>) -> u8 {
    match argument {
        Some(text) => match crate::text::unsigned_value(text, u8::MAX as nat) {
            Some(volume) => volume as u8,
            None => DEFAULT_SYSTEM_VOLUME,
        },
        None => DEFAULT_SYSTEM_VOLUME,
    }
}

/// What the arguments ask for, of which the first is the program's name. Whatever is not known
/// runs the radio.
pub open spec fn asked_for(args: Seq<Seq<char>>) -> CliView {
    if args.len() < 2 {
        CliView::Run
    } else {
        let option = args[1];
        let argument = if args.len() > 2 {
            Some(args[2])
        } else {
            None
        };
        if option == "--version"@ || option == "-v"@ {
            CliView::Version
        } else if option == "--help"@ || option == "-h"@ {
            CliView::Help
        } else if option == "--install"@ {
            CliView::Install
        } else if option == "--uninstall"@ {
            CliView::Uninstall
        } else if option == "--update"@ {
            CliView::Update
        } else if option == "--test-tts"@ {
            CliView::TestTts
        } else if option == "--test-stream"@ {
            CliView::TestStream(argument)
        } else if option == "--set-volume"@ {
            CliView::SetVolume(volume_argument(argument))
        } else {
            CliView::Run
        }
    }
}

/// Reads the arguments, of which the first is the program's name.
pub fn parse_args(args: &[String]) -> (command: CliCommand)
    ensures
        command@ == asked_for(crate::text::string_views(args@)),
{
    let ghost all = crate::text::string_views(args@);
    if args.len() < 2 {
        return CliCommand::Run;
    }
    assert(all[1] == args@[1]@);
    let option = args[1].as_str();
    if same_text(option, "--version") || same_text(option, "-v") {
        CliCommand::Version
    } else if same_text(option, "--help") || same_text(option, "-h") {
        CliCommand::Help
    } else if same_text(option, "--install") {
        CliCommand::Install
    } else if same_text(option, "--uninstall") {
        CliCommand::Uninstall
    } else if same_text(option, "--update") {
        CliCommand::Update
    } else if same_text(option, "--test-tts") {
        CliCommand::TestTts
    } else if same_text(option, "--test-stream") {
        if args.len() > 2 {
            assert(all[2] == args@[2]@);
            CliCommand::TestStream(Some(args[2].clone()))
        } else {
            CliCommand::TestStream(None)
        }
    } else if same_text(option, "--set-volume") {
        if args.len() > 2 {
            assert(all[2] == args@[2]@);
            match parse_u8(args[2].as_str()) {
                Some(volume) => CliCommand::SetVolume(volume),
                None => CliCommand::SetVolume(DEFAULT_SYSTEM_VOLUME),
            }
        } else {
            CliCommand::SetVolume(DEFAULT_SYSTEM_VOLUME)
        }
    } else {
        CliCommand::Run
    }
}

// ---------------------------------------------------------------------------
// Laws
// ---------------------------------------------------------------------------

proof fn options_differ()
    ensures
        "--version"@.len() == 9 && "-v"@.len() == 2 && "--help"@.len() == 6 && "-h"@.len() == 2,
        "--install"@.len() == 9 && "--uninstall"@.len() == 11 && "--update"@.len() == 8,
        "--test-tts"@.len() == 10 && "--test-stream"@.len() == 13 && "--set-volume"@.len() == 12,
        "-v"@ != "-h"@,
        "--version"@ != "--install"@,
{
    reveal_strlit("--version");
    reveal_strlit("-v");
    reveal_strlit("--help");
    reveal_strlit("-h");
    reveal_strlit("--install");
    reveal_strlit("--uninstall");
    reveal_strlit("--update");
    reveal_strlit("--test-tts");
    reveal_strlit("--test-stream");
    reveal_strlit("--set-volume");
    assert("-v"@[1] != "-h"@[1]);
    assert("--version"@[2] != "--install"@[2]);
}

/// The first argument behind the program's name decides what is asked for, whatever follows it;
/// without one, and with one that is not known, the radio runs.
pub proof fn first_argument_decides(args: Seq<Seq<char>>)
    ensures
        args.len() < 2 ==> asked_for(args) == CliView::Run,
        args.len() >= 2 ==> {
            &&& args[1] == "--version"@ ==> asked_for(args) == CliView::Version
            &&& args[1] == "-v"@ ==> asked_for(args) == CliView::Version
            &&& args[1] == "--help"@ ==> asked_for(args) == CliView::Help
            &&& args[1] == "-h"@ ==> asked_for(args) == CliView::Help
            &&& args[1] == "--install"@ ==> asked_for(args) == CliView::Install
            &&& args[1] == "--uninstall"@ ==> asked_for(args) == CliView::Uninstall
            &&& args[1] == "--update"@ ==> asked_for(args) == CliView::Update
            &&& args[1] == "--test-tts"@ ==> asked_for(args) == CliView::TestTts
            &&& args[1] == "--test-stream"@ ==> asked_for(args) == CliView::TestStream(
                if args.len() > 2 {
                    Some(args[2])
                } else {
                    None
                },
            )
            &&& args[1] == "--set-volume"@ ==> asked_for(args) == CliView::SetVolume(
                volume_argument(
                    if args.len() > 2 {
                        Some(args[2])
                    } else {
                        None
                    },
                ),
            )
        },
        args.len() >= 2 && args[1] != "--version"@ && args[1] != "-v"@ && args[1] != "--help"@
            && args[1] != "-h"@ && args[1] != "--install"@ && args[1] != "--uninstall"@ && args[1]
            != "--update"@ && args[1] != "--test-tts"@ && args[1] != "--test-stream"@ && args[1]
            != "--set-volume"@ ==> asked_for(args) == CliView::Run,
{
    options_differ();
}

/// A volume from 0 to 255 is taken as it is written; where none is given, or what is given is
/// none, it is 80.
pub proof fn volume_is_taken_as_written(n: nat, text: Seq<char>)
    requires
        crate::text::unsigned_value(text, 255) is None,
    ensures
        n <= 255 ==> volume_argument(Some(crate::text::decimal_text(n))) == n,
        volume_argument(Some(text)) == 80,
        volume_argument(None) == 80,
{
    if n <= 255 {
        crate::text::decimal_text_reads_back(n, 255);
    }
}

/// Any text that is read as a number of at most 255 gives that volume.
pub proof fn readable_volume_is_taken(text: Seq<char>)
    ensures
        crate::text::unsigned_value(text, 255) matches Some(n) ==> volume_argument(Some(text)) == n,
{
}

/// A command is taken as what it is.
pub proof fn commands_are_taken_as_they_are(command: CliCommand)
    ensures
        command is Version <==> command@ is Version,
        command is Help <==> command@ is Help,
        command is Install <==> command@ is Install,
        command is Uninstall <==> command@ is Uninstall,
        command is Update <==> command@ is Update,
        command is TestTts <==> command@ is TestTts,
        command is Run <==> command@ is Run,
        command matches CliCommand::TestStream(Some(url)) ==> command@ == CliView::TestStream(
            Some(url@),
        ),
        command matches CliCommand::TestStream(None) ==> command@ == CliView::TestStream(None),
        command matches CliCommand::SetVolume(volume) ==> command@ == CliView::SetVolume(volume),
{
}

} // verus!
