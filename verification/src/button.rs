//! The button: telling short presses from long ones.
use std::sync::atomic::AtomicBool;
use std::sync::atomic::Ordering;
use std::sync::Arc;
use vstd::prelude::*;

verus! {

/// Button events sent to the main loop.
#[derive(Debug, Clone, Copy, PartialEq, Eq, Structural)]
pub enum ButtonEvent {
    /// Button pressed down: feedback starts.
    Down,
    /// Short press completed: released before the threshold.
    Short,
    /// Long press threshold reached while still held.
    Long,
}

/// How long the button is held for a long press, in milliseconds.
pub const LONG_PRESS_MS: u64 = 2000;

/// The pin that the button of the device is wired to.
pub const BUTTON_PIN: u8 = 17;

/// Level of an input pin. The button pulls it low.
#[derive(Debug, Clone, Copy, PartialEq, Eq, Structural)]
pub enum PinLevel {
    Low,
    High,
}

/// Something whose level can be read.
pub trait PinReader: Send + Sync {
    fn read(&self) -> PinLevel;
}

/// Button configuration.
#[derive(Debug, Clone, Copy)]
pub struct ButtonConfig {
    /// Time between two readings of the pin, in milliseconds.
    pub poll_ms: u64,
}

impl Default for ButtonConfig {
    fn default() -> (config: ButtonConfig)
        ensures
            config.poll_ms == 10,
    {
        ButtonConfig { poll_ms: 10 }
    }
}

// ---------------------------------------------------------------------------
// Detecting a press
// ---------------------------------------------------------------------------

/// How far the detection of one press has come.
#[derive(Debug, Clone, Copy, PartialEq, Eq, Structural)]
pub enum PressPhase {
    /// The button has not been pressed yet.
    Waiting,
    /// It is down, and how it ends is open.
    Held,
    /// The press is over.
    Done,
}

/// What one reading of the pin leads to: the phase behind it and the event that it causes.
/// `elapsed_ms` is the time since the button went down.
pub open spec fn press_step(phase: PressPhase, level: PinLevel, elapsed_ms: u64) -> (
    PressPhase,
    Option<ButtonEvent>,
) {
    match phase {
        PressPhase::Waiting => if level == PinLevel::Low {
            (PressPhase::Held, Some(ButtonEvent::Down))
        } else {
            (PressPhase::Waiting, None)
        },
        PressPhase::Held => if level == PinLevel::High {
            (PressPhase::Done, Some(ButtonEvent::Short))
        } else if elapsed_ms >= LONG_PRESS_MS {
            (PressPhase::Done, Some(ButtonEvent::Long))
        } else {
            (PressPhase::Held, None)
        },
        PressPhase::Done => (PressPhase::Done, None),
    }
}

/// Takes one reading of the pin into account. A release counts before the threshold does; the
/// threshold counts as soon as it is reached, while the button is still held.
pub fn advance_press(phase: PressPhase, level: PinLevel, elapsed_ms: u64) -> (r: (
    PressPhase,
    Option<ButtonEvent>,
))
    ensures
        r == press_step(phase, level, elapsed_ms),
{
    match phase {
        PressPhase::Waiting => match level {
            PinLevel::Low => (PressPhase::Held, Some(ButtonEvent::Down)),
            PinLevel::High => (PressPhase::Waiting, None),
        },
        PressPhase::Held => match level {
            PinLevel::High => (PressPhase::Done, Some(ButtonEvent::Short)),
            PinLevel::Low => if elapsed_ms >= LONG_PRESS_MS {
                (PressPhase::Done, Some(ButtonEvent::Long))
            } else {
                (PressPhase::Held, None)
            },
        },
        PressPhase::Done => (PressPhase::Done, None),
    }
}

/// A button whose presses can be waited for.
pub trait ButtonInput: Send + Sync {
    /// One step of waiting for a press: reads the button once. The event, if there is one, is
    /// to be sent; unless the phase is `Done`, the next step follows after the poll interval.
    fn wait_for_press(&self, phase: PressPhase, elapsed_ms: u64) -> (r: (
        PressPhase,
        Option<ButtonEvent>,
    ))
        ensures
            exists|level: PinLevel| r == #[trigger] press_step(phase, level, elapsed_ms),
    ;

    /// The poll interval in milliseconds.
    fn poll_ms(&self) -> u64;

    fn is_gpio(&self) -> bool;
}

/// Button on any pin that can be read.
///
/// - Short press: detected when the button is released before the threshold.
/// - Long press: detected as soon as the threshold is reached while the button is held.
pub struct GenericGpioButton<P: PinReader> {
    pin: P,
    config: ButtonConfig,
}

impl<P: PinReader> GenericGpioButton<P> {
    pub closed spec fn pin(&self) -> P {
        self.pin
    }

    pub closed spec fn config(&self) -> ButtonConfig {
        self.config
    }

    pub fn new(pin: P, config: ButtonConfig) -> (button: Self)
        ensures
            button.pin() == pin,
            button.config() == config,
    {
        GenericGpioButton { pin, config }
    }
}

impl<P: PinReader> ButtonInput for GenericGpioButton<P> {
    fn wait_for_press(&self, phase: PressPhase, elapsed_ms: u64) -> (r: (
        PressPhase,
        Option<ButtonEvent>,
    ))
        ensures
            exists|level: PinLevel|
                call_ensures(P::read, (&self.pin(),), level) && r == #[trigger] press_step(
                    phase,
                    level,
                    elapsed_ms,
                ),
    {
        let level = self.pin.read();
        advance_press(phase, level, elapsed_ms)
    }

    fn poll_ms(&self) -> (ms: u64)
        ensures
            ms == self.config().poll_ms,
    {
        self.config.poll_ms
    }

    fn is_gpio(&self) -> (b: bool)
        ensures
            b,
    {
        true
    }
}

/// The button of the device, given what opening [`BUTTON_PIN`] came to. There is no other
/// button in its place where the pin could not be opened.
pub fn create_button<P: PinReader, E>(opened: Result<P, E>) -> (button: GenericGpioButton<P>)
    requires
        opened is Ok,
    ensures
        button.pin() == opened->Ok_0,
        button.config().poll_ms == 10,
{
    match opened {
        Ok(pin) => GenericGpioButton::new(pin, ButtonConfig::default()),
        Err(_) => vstd::pervasive::unreached(),
    }
}

// ---------------------------------------------------------------------------
// A button in a window
// ---------------------------------------------------------------------------

/// The level that stands for a button drawn in a window: low while it is pressed.
pub open spec fn gui_level(pressed: bool) -> PinLevel {
    if pressed {
        PinLevel::Low
    } else {
        PinLevel::High
    }
}

pub fn level_of(pressed: bool) -> (level: PinLevel)
    ensures
        level == gui_level(pressed),
{
    if pressed {
        PinLevel::Low
    } else {
        PinLevel::High
    }
}

/// Pin reader behind a button in a window, which sets the flag while the mouse holds it down.
pub struct GuiPinReader {
    pressed: Arc<AtomicBool>,
}

impl GuiPinReader {
    /// The flag that the reader reads.
    pub closed spec fn flag(&self) -> Arc<AtomicBool> {
        self.pressed
    }
}

impl PinReader for GuiPinReader {
    fn read(&self) -> (level: PinLevel)
        ensures
            gives(self.flag(), level == PinLevel::Low),
    {
        let pressed = self.pressed.load(Ordering::SeqCst);
        assert(gives(self.flag(), pressed));
        level_of(pressed)
    }
}

/// Whether loading a flag may give this value. Which one it gives at what time is not known:
/// the window sets the flag meanwhile.
pub open spec fn gives(flag: Arc<AtomicBool>, pressed: bool) -> bool {
    call_ensures(AtomicBool::load, (&*flag, Ordering::SeqCst), pressed)
}

/// A reader together with the flag that it reads, to be set by the window. The flag starts
/// unset, which the contract does not say: what a flag holds changes behind shared references.
pub fn create_gui_pin_reader() -> (r: (GuiPinReader, Arc<AtomicBool>))
    ensures
        r.0.flag() == r.1,
{
    let pressed = Arc::new(AtomicBool::new(false));
    let reader = GuiPinReader { pressed: pressed.clone() };
    (reader, pressed)
}

/// Button drawn in a window.
pub struct GuiButton {
    inner: GenericGpioButton<GuiPinReader>,
}

impl GuiButton {
    pub closed spec fn flag(&self) -> Arc<AtomicBool> {
        self.inner.pin().flag()
    }

    pub closed spec fn config(&self) -> ButtonConfig {
        self.inner.config()
    }

    pub fn new(pin_reader: GuiPinReader) -> (button: Self)
        ensures
            button.flag() == pin_reader.flag(),
            button.config().poll_ms == 10,
    {
        GuiButton { inner: GenericGpioButton::new(pin_reader, ButtonConfig::default()) }
    }
}

impl ButtonInput for GuiButton {
    fn wait_for_press(&self, phase: PressPhase, elapsed_ms: u64) -> (r: (
        PressPhase,
        Option<ButtonEvent>,
    ))
        ensures
            exists|level: PinLevel|
                gives(self.flag(), level == PinLevel::Low) && r == #[trigger] press_step(
                    phase,
                    level,
                    elapsed_ms,
                ),
    {
        self.inner.wait_for_press(phase, elapsed_ms)
    }

    fn poll_ms(&self) -> (ms: u64)
        ensures
            ms == self.config().poll_ms,
    {
        self.inner.poll_ms()
    }

    fn is_gpio(&self) -> (b: bool)
        ensures
            !b,
    {
        false
    }
}

/// A button in a window, and the flag that the window has to set while it is pressed.
pub fn create_gui_button() -> (r: (GuiButton, Arc<AtomicBool>))
    ensures
        r.0.flag() == r.1,
        r.0.config().poll_ms == 10,
{
    let (pin_reader, pressed) = create_gui_pin_reader();
    (GuiButton::new(pin_reader), pressed)
}

// ---------------------------------------------------------------------------
// Laws
// ---------------------------------------------------------------------------

/// The events of a series of readings, each with the time since the button went down.
pub open spec fn press_events(phase: PressPhase, readings: Seq<(PinLevel, u64)>) -> Seq<ButtonEvent>
    decreases readings.len(),
{
    if readings.len() == 0 {
        Seq::empty()
    } else {
        let (next, event) = press_step(phase, readings[0].0, readings[0].1);
        let rest = press_events(next, readings.drop_first());
        match event {
            Some(e) => seq![e] + rest,
            None => rest,
        }
    }
}

/// A press sends `Down` first and then one of `Short` and `Long`, and nothing else, however
/// long the pin is read.
pub proof fn press_sends_down_then_one_outcome(readings: Seq<(PinLevel, u64)>)
    ensures
        ({
            let events = press_events(PressPhase::Waiting, readings);
            ||| events == Seq::<ButtonEvent>::empty()
            ||| events == seq![ButtonEvent::Down]
            ||| events == seq![ButtonEvent::Down, ButtonEvent::Short]
            ||| events == seq![ButtonEvent::Down, ButtonEvent::Long]
        }),
    decreases readings.len(),
{
    if readings.len() > 0 {
        let rest = readings.drop_first();
        if readings[0].0 == PinLevel::Low {
            held_sends_one_outcome(rest);
            let tail = press_events(PressPhase::Held, rest);
            let events = press_events(PressPhase::Waiting, readings);
            assert(events == seq![ButtonEvent::Down] + tail);
            if tail.len() == 0 {
                assert(events =~= seq![ButtonEvent::Down]);
            } else if tail == seq![ButtonEvent::Short] {
                assert(events =~= seq![ButtonEvent::Down, ButtonEvent::Short]);
            } else {
                assert(events =~= seq![ButtonEvent::Down, ButtonEvent::Long]);
            }
        } else {
            press_sends_down_then_one_outcome(rest);
        }
    }
}

proof fn held_sends_one_outcome(readings: Seq<(PinLevel, u64)>)
    ensures
        ({
            let events = press_events(PressPhase::Held, readings);
            ||| events == Seq::<ButtonEvent>::empty()
            ||| events == seq![ButtonEvent::Short]
            ||| events == seq![ButtonEvent::Long]
        }),
    decreases readings.len(),
{
    if readings.len() > 0 {
        let rest = readings.drop_first();
        done_sends_nothing(rest);
        if readings[0].0 == PinLevel::Low && readings[0].1 < LONG_PRESS_MS {
            held_sends_one_outcome(rest);
        } else {
            let (_, event) = press_step(PressPhase::Held, readings[0].0, readings[0].1);
            assert(press_events(PressPhase::Held, readings) =~= seq![event->0]);
        }
    }
}

proof fn done_sends_nothing(readings: Seq<(PinLevel, u64)>)
    ensures
        press_events(PressPhase::Done, readings) == Seq::<ButtonEvent>::empty(),
    decreases readings.len(),
{
    if readings.len() > 0 {
        done_sends_nothing(readings.drop_first());
    }
}

/// The first reading that is either a release or at the threshold decides: a press that is
/// held until reading `k` is short if the button is up there, and long if it is still down
/// with the threshold reached.
pub proof fn first_deciding_reading_decides(readings: Seq<(PinLevel, u64)>, k: int)
    requires
        0 <= k < readings.len(),
        forall|i: int|
            0 <= i < k ==> (#[trigger] readings[i]).0 == PinLevel::Low && readings[i].1
                < LONG_PRESS_MS,
        readings[k].0 == PinLevel::High || readings[k].1 >= LONG_PRESS_MS,
    ensures
        press_events(PressPhase::Held, readings) == seq![
            if readings[k].0 == PinLevel::High {
                ButtonEvent::Short
            } else {
                ButtonEvent::Long
            },
        ],
    decreases k,
{
    let rest = readings.drop_first();
    if k == 0 {
        done_sends_nothing(rest);
        let (_, event) = press_step(PressPhase::Held, readings[0].0, readings[0].1);
        assert(press_events(PressPhase::Held, readings) =~= seq![event->0]);
    } else {
        assert(readings[0].0 == PinLevel::Low);
        assert forall|i: int| 0 <= i < k - 1 implies (#[trigger] rest[i]).0 == PinLevel::Low
            && rest[i].1 < LONG_PRESS_MS by {
            assert(rest[i] == readings[i + 1]);
        }
        first_deciding_reading_decides(rest, k - 1);
    }
}

/// A press begins when the pin goes low. It is short if the pin is high again, and long as soon
/// as it is still low after two seconds; before that nothing is decided. Afterwards nothing is
/// sent any more.
pub proof fn readings_decide_a_press(elapsed_ms: u64, level: PinLevel)
    ensures
        press_step(PressPhase::Waiting, PinLevel::Low, elapsed_ms) == (
            PressPhase::Held,
            Some(ButtonEvent::Down),
        ),
        press_step(PressPhase::Waiting, PinLevel::High, elapsed_ms) == (
            PressPhase::Waiting,
            None::<ButtonEvent>,
        ),
        press_step(PressPhase::Held, PinLevel::High, elapsed_ms) == (
            PressPhase::Done,
            Some(ButtonEvent::Short),
        ),
        elapsed_ms >= 2000 ==> press_step(PressPhase::Held, PinLevel::Low, elapsed_ms) == (
            PressPhase::Done,
            Some(ButtonEvent::Long),
        ),
        elapsed_ms < 2000 ==> press_step(PressPhase::Held, PinLevel::Low, elapsed_ms) == (
            PressPhase::Held,
            None::<ButtonEvent>,
        ),
        press_step(PressPhase::Done, level, elapsed_ms) == (PressPhase::Done, None::<ButtonEvent>),
{
}

/// A button in a window reads as low exactly while it is pressed, and what is read of it comes
/// from its flag.
pub proof fn window_button_reads_low_while_pressed(flag: Arc<AtomicBool>, pressed: bool)
    ensures
        gui_level(pressed) == PinLevel::Low <==> pressed,
        gives(flag, pressed) ==> call_ensures(
            AtomicBool::load,
            (&*flag, Ordering::SeqCst),
            pressed,
        ),
{
}

} // verus!
