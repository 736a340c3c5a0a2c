//! Recorded announcements: their samples and how they are played.
use crate::button::ButtonEvent;
use vstd::prelude::*;

verus! {

/// Recordings are 16-bit signed little-endian, mono, at this rate.
pub const SAMPLE_RATE: u32 = 22050;

/// The signed number in two bytes, low byte first.
pub open spec fn sample_value(lo: u8, hi: u8) -> int {
    let unsigned = lo as int + 256 * hi as int;
    if unsigned >= 0x8000 {
        unsigned - 0x10000
    } else {
        unsigned
    }
}

/// The samples of a recording. A last odd byte does not count.
pub fn pcm_samples(raw: &[u8]) -> (samples: Vec<i16>)
    ensures
        samples@.len() == raw@.len() / 2,
        forall|i: int|
            0 <= i < samples@.len() ==> #[trigger] samples@[i] == sample_value(
                raw@[2 * i],
                raw@[2 * i + 1],
            ),
{
    let mut samples: Vec<i16> = Vec::new();
    let len: usize = raw.len();
    let mut i: usize = 0;
    while i < len / 2
        invariant
            len == raw@.len(),
            i <= len / 2,
            samples@.len() == i,
            forall|j: int|
                0 <= j < i ==> #[trigger] samples@[j] == sample_value(
                    raw@[2 * j],
                    raw@[2 * j + 1],
                ),
        decreases len / 2 - i,
    {
        let unsigned: i32 = raw[2 * i] as i32 + 256 * (raw[2 * i + 1] as i32);
        let value: i32 = if unsigned >= 0x8000 {
            unsigned - 0x10000
        } else {
            unsigned
        };
        samples.push(value as i16);
        i += 1;
    }
    samples
}

/// An announcement ready to be played on the voice sink: silence, then the recording.
pub struct Announcement {
    /// Length of the silence in samples.
    pub gap: usize,
    pub samples: Vec<i16>,
}

/// Whether this is what is played for a recording: nothing where there is none or where it is
/// empty, and else the recording behind half a second of silence.
pub open spec fn is_plan(recording: Option<Seq<u8>>, plan: Option<Announcement>) -> bool {
    match recording {
        Some(raw) => if raw.len() < 2 {
            plan is None
        } else {
            &&& plan is Some
            &&& plan->0.gap == SAMPLE_RATE / 2
            &&& plan->0.samples@.len() == raw.len() / 2
            &&& forall|i: int|
                0 <= i < plan->0.samples@.len() ==> #[trigger] plan->0.samples@[i] == sample_value(
                    raw[2 * i],
                    raw[2 * i + 1],
                )
        },
        None => plan is None,
    }
}

/// What is played for a phrase, given its recording.
pub fn plan_announcement(audio: Option<&[u8]>) -> (plan: Option<Announcement>)
    ensures
        match audio {
            Some(raw) => is_plan(Some(raw@), plan),
            None => is_plan(None, plan),
        },
{
    match audio {
        Some(raw) => {
            let samples = pcm_samples(raw);
            if samples.len() == 0 {
                None
            } else {
                Some(Announcement { gap: (SAMPLE_RATE / 2) as usize, samples })
            }
        },
        None => None,
    }
}

/// The next step while an announcement is being played.
#[derive(Debug, Clone, Copy, PartialEq, Eq, Structural)]
pub enum AnnounceStep {
    /// It has been played to its end.
    Finished,
    /// The button was used: the rest is dropped.
    Interrupted(ButtonEvent),
    /// Look again after so many milliseconds.
    Wait(u64),
}

/// Decides how an announcement goes on, from whether its samples have all been played and
/// from what the button has sent.
pub fn announce_step(played: bool, received: Option<ButtonEvent>) -> (step: AnnounceStep)
    ensures
        step == if played {
            AnnounceStep::Finished
        } else {
            match received {
                Some(event) => AnnounceStep::Interrupted(event),
                None => AnnounceStep::Wait(50),
            }
        },
{
    if played {
        return AnnounceStep::Finished;
    }
    match received {
        Some(event) => AnnounceStep::Interrupted(event),
        None => AnnounceStep::Wait(50),
    }
}

// ---------------------------------------------------------------------------
// Laws
// ---------------------------------------------------------------------------

/// Two bytes give the number that was written in them, its low byte first, negative or not.
pub proof fn samples_are_read_as_written(n: int, lo: u8, hi: u8)
    requires
        -0x8000 <= n < 0x8000,
        lo as int == n % 256,
        hi as int == (n / 256) % 256,
    ensures
        sample_value(lo, hi) == n,
{
}

/// What is played for a recording is half a second of silence and then all its samples, in
/// order; for a recording without samples, or for none, nothing is played.
pub proof fn recording_is_played_behind_silence(
    recording: Option<Seq<u8>>,
    plan: Option<Announcement>,
    i: int,
)
    requires
        is_plan(recording, plan),
    ensures
        plan is None <==> recording is None || recording->0.len() < 2,
        plan matches Some(announcement) ==> {
            &&& announcement.gap * 2 == 22050
            &&& announcement.samples@.len() == recording->0.len() / 2
            &&& 0 <= i < announcement.samples@.len() ==> announcement.samples@[i] == sample_value(
                recording->0[2 * i],
                recording->0[2 * i + 1],
            )
        },
{
}

} // verus!
