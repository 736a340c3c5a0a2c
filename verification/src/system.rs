//! The system around the radio: its volume, its service and its configuration file.
use crate::text::{join, to_decimal};
use vstd::prelude::*;

verus! {

broadcast use vstd::string::group_string_axioms;

// ---------------------------------------------------------------------------
// Volume
// ---------------------------------------------------------------------------

/// What can set the system's volume, in the order in which it is tried.
#[derive(Debug, Clone, Copy, PartialEq, Eq, Structural)]
pub enum VolumeControl {
    AlsaMaster,
    /// The control of some sound cards that have no master.
    AlsaDigital,
    Pulse,
}

/// What came of setting the volume.
#[derive(Debug, Clone, Copy, PartialEq, Eq, Structural)]
pub enum VolumeStep {
    /// Run the command of this control.
    Try(VolumeControl),
    /// It was set by this control.
    Done(VolumeControl),
    /// No control worked.
    Failed,
}

/// Shown where no control worked.
pub const VOLUME_FAILED: &'static str = "Failed to set volume. No working audio control found.";

pub open spec fn level(volume: u8) -> u8 {
    if volume < 100 {
        volume
    } else {
        100
    }
}

/// The volume that is set in place of a volume: at most full.
pub fn capped_volume(volume: u8) -> (capped: u8)
    ensures
        capped == level(volume),
{
    if volume < 100 {
        volume
    } else {
        100
    }
}

/// A volume in percent, in words.
pub open spec fn percent_text(volume: u8) -> Seq<char> {
    crate::text::decimal_text(level(volume) as nat) + "%"@
}

/// A program and its arguments.
pub open spec fn volume_words(control: VolumeControl, volume: u8) -> Seq<Seq<char>> {
    match control {
        VolumeControl::AlsaMaster => seq!["amixer"@, "sset"@, "Master"@, percent_text(volume)],
        VolumeControl::AlsaDigital => seq!["amixer"@, "sset"@, "Digital"@, percent_text(volume)],
        VolumeControl::Pulse => seq![
            "pactl"@,
            "set-sink-volume"@,
            "@DEFAULT_SINK@"@,
            percent_text(volume),
        ],
    }
}

/// The program that sets the volume through a control, and its arguments.
pub fn volume_command(control: VolumeControl, volume: u8) -> (words: Vec<String>)
    ensures
        crate::text::string_views(words@) == volume_words(control, volume),
{
    let percent = join(to_decimal(capped_volume(volume) as u64).as_str(), "%");
    let (program, verb, target) = match control {
        VolumeControl::AlsaMaster => ("amixer", "sset", "Master"),
        VolumeControl::AlsaDigital => ("amixer", "sset", "Digital"),
        VolumeControl::Pulse => ("pactl", "set-sink-volume", "@DEFAULT_SINK@"),
    };
    let mut words: Vec<String> = Vec::new();
    words.push(program.to_string());
    words.push(verb.to_string());
    words.push(target.to_string());
    words.push(percent);
    assert(crate::text::string_views(words@) =~= volume_words(control, volume));
    words
}

/// How setting the volume begins.
pub fn begin_system_volume() -> (step: VolumeStep)
    ensures
        step == VolumeStep::Try(VolumeControl::AlsaMaster),
{
    VolumeStep::Try(VolumeControl::AlsaMaster)
}

/// How setting the volume goes on, from the control that was tried and whether its command
/// succeeded.
pub fn set_system_volume(tried: VolumeControl, succeeded: bool) -> (step: VolumeStep)
    ensures
        step == if succeeded {
            VolumeStep::Done(tried)
        } else {
            match tried {
                VolumeControl::AlsaMaster => VolumeStep::Try(VolumeControl::AlsaDigital),
                VolumeControl::AlsaDigital => VolumeStep::Try(VolumeControl::Pulse),
                VolumeControl::Pulse => VolumeStep::Failed,
            }
        },
{
    if succeeded {
        return VolumeStep::Done(tried);
    }
    match tried {
        VolumeControl::AlsaMaster => VolumeStep::Try(VolumeControl::AlsaDigital),
        VolumeControl::AlsaDigital => VolumeStep::Try(VolumeControl::Pulse),
        VolumeControl::Pulse => VolumeStep::Failed,
    }
}

/// The name by which a control is reported.
pub fn control_name(control: VolumeControl) -> (name: &'static str)
    ensures
        name@ == match control {
            VolumeControl::AlsaMaster => "ALSA Master"@,
            VolumeControl::AlsaDigital => "ALSA Digital"@,
            VolumeControl::Pulse => "PipeWire/PulseAudio"@,
        },
{
    match control {
        VolumeControl::AlsaMaster => "ALSA Master",
        VolumeControl::AlsaDigital => "ALSA Digital",
        VolumeControl::Pulse => "PipeWire/PulseAudio",
    }
}

// ---------------------------------------------------------------------------
// Service
// ---------------------------------------------------------------------------

/// Where the unit file of the service lies.
pub const SERVICE_PATH: &'static str = "/etc/systemd/system/lego-radio.service";

/// A step of installing or removing the service.
#[derive(Debug, Clone, Copy, PartialEq, Eq, Structural)]
pub enum ServiceStep {
    /// Write the unit file.
    WriteUnit,
    /// Remove the unit file.
    RemoveUnit,
    /// Have the unit files read again.
    DaemonReload,
    Enable,
    Start,
    Stop,
    Disable,
}

/// The steps that install and start the service. The first that cannot be taken ends it.
pub fn install_service() -> (steps: Vec<ServiceStep>)
    ensures
        steps@ == seq![
            ServiceStep::WriteUnit,
            ServiceStep::DaemonReload,
            ServiceStep::Enable,
            ServiceStep::Start,
        ],
{
    let steps = vec![
        ServiceStep::WriteUnit,
        ServiceStep::DaemonReload,
        ServiceStep::Enable,
        ServiceStep::Start,
    ];
    assert(steps@ =~= seq![
        ServiceStep::WriteUnit,
        ServiceStep::DaemonReload,
        ServiceStep::Enable,
        ServiceStep::Start,
    ]);
    steps
}

/// The steps that stop and remove the service, given whether its unit file exists.
pub fn uninstall_service(unit_exists: bool) -> (steps: Vec<ServiceStep>)
    ensures
        steps@ == if unit_exists {
            seq![
                ServiceStep::Stop,
                ServiceStep::Disable,
                ServiceStep::RemoveUnit,
                ServiceStep::DaemonReload,
            ]
        } else {
            seq![ServiceStep::Stop, ServiceStep::Disable, ServiceStep::DaemonReload]
        },
{
    let mut steps: Vec<ServiceStep> = Vec::new();
    steps.push(ServiceStep::Stop);
    steps.push(ServiceStep::Disable);
    if unit_exists {
        steps.push(ServiceStep::RemoveUnit);
    }
    steps.push(ServiceStep::DaemonReload);
    assert(steps@ =~= if unit_exists {
        seq![
            ServiceStep::Stop,
            ServiceStep::Disable,
            ServiceStep::RemoveUnit,
            ServiceStep::DaemonReload,
        ]
    } else {
        seq![ServiceStep::Stop, ServiceStep::Disable, ServiceStep::DaemonReload]
    });
    steps
}

/// The name of the service.
pub const SERVICE_NAME: &'static str = "lego-radio";

/// What a step has the service manager do.
pub open spec fn systemctl_words(step: ServiceStep) -> Option<Seq<Seq<char>>> {
    match step {
        ServiceStep::WriteUnit => None,
        ServiceStep::RemoveUnit => None,
        ServiceStep::DaemonReload => Some(seq!["daemon-reload"@]),
        ServiceStep::Enable => Some(seq!["enable"@, SERVICE_NAME@]),
        ServiceStep::Start => Some(seq!["start"@, SERVICE_NAME@]),
        ServiceStep::Stop => Some(seq!["stop"@, SERVICE_NAME@]),
        ServiceStep::Disable => Some(seq!["disable"@, SERVICE_NAME@]),
    }
}

/// The arguments of `systemctl` for a step; `None` where the step is about the unit file.
pub fn systemctl_args(step: ServiceStep) -> (args: Option<Vec<&'static str>>)
    ensures
        systemctl_words(step) == match args {
            Some(words) => Some(crate::text::views(words@)),
            None => None,
        },
{
    let verb = match step {
        ServiceStep::WriteUnit => return None,
        ServiceStep::RemoveUnit => return None,
        ServiceStep::DaemonReload => "daemon-reload",
        ServiceStep::Enable => "enable",
        ServiceStep::Start => "start",
        ServiceStep::Stop => "stop",
        ServiceStep::Disable => "disable",
    };
    let mut words: Vec<&'static str> = Vec::new();
    words.push(verb);
    match step {
        ServiceStep::DaemonReload => {},
        _ => words.push(SERVICE_NAME),
    }
    assert(crate::text::views(words@) =~= systemctl_words(step)->0);
    Some(words)
}

// ---------------------------------------------------------------------------
// Configuration file
// ---------------------------------------------------------------------------

/// The directory of the configuration file, given whether the system is Linux.
pub fn config_dir(linux: bool) -> (dir: &'static str)
    ensures
        dir@ == if linux {
            "/etc/lego-radio"@
        } else {
            "."@
        },
{
    if linux {
        "/etc/lego-radio"
    } else {
        "."
    }
}

/// The path of the configuration file, given whether the system is Linux.
pub fn config_path(linux: bool) -> (path: String)
    ensures
        path@ == if linux {
            "/etc/lego-radio"@ + "/config.json"@
        } else {
            "."@ + "/config.json"@
        },
{
    join(config_dir(linux), "/config.json")
}

// ---------------------------------------------------------------------------
// Laws
// ---------------------------------------------------------------------------

/// A volume is set as it is given, up to full volume, in percent.
pub proof fn volume_is_set_in_percent(volume: u8)
    ensures
        volume <= 100 ==> level(volume) == volume && percent_text(volume)
            == crate::text::decimal_text(volume as nat).push('%'),
        volume > 100 ==> level(volume) == 100 && percent_text(volume)
            == crate::text::decimal_text(100).push('%'),
{
    reveal_strlit("%");
    let text = crate::text::decimal_text(level(volume) as nat);
    assert(text + "%"@ =~= text.push('%'));
}

/// Each control is set by its own command, and the volume is the last word of each.
pub proof fn controls_have_their_commands(volume: u8)
    ensures
        volume_words(VolumeControl::AlsaMaster, volume) == seq![
            "amixer"@,
            "sset"@,
            "Master"@,
            percent_text(volume),
        ],
        volume_words(VolumeControl::AlsaDigital, volume) == seq![
            "amixer"@,
            "sset"@,
            "Digital"@,
            percent_text(volume),
        ],
        volume_words(VolumeControl::Pulse, volume) == seq![
            "pactl"@,
            "set-sink-volume"@,
            "@DEFAULT_SINK@"@,
            percent_text(volume),
        ],
{
}

/// A step about the unit file is none of the service manager's; any other is one word for it,
/// followed by the name of the service where it is about that.
pub proof fn service_manager_is_told_the_step()
    ensures
        systemctl_words(ServiceStep::WriteUnit) is None,
        systemctl_words(ServiceStep::RemoveUnit) is None,
        systemctl_words(ServiceStep::DaemonReload) == Some(seq!["daemon-reload"@]),
        systemctl_words(ServiceStep::Enable) == Some(seq!["enable"@, "lego-radio"@]),
        systemctl_words(ServiceStep::Start) == Some(seq!["start"@, "lego-radio"@]),
        systemctl_words(ServiceStep::Stop) == Some(seq!["stop"@, "lego-radio"@]),
        systemctl_words(ServiceStep::Disable) == Some(seq!["disable"@, "lego-radio"@]),
{
}

} // verus!
