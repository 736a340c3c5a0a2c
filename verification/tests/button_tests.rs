use lego_radio::button::{
    advance_press, create_button, create_gui_button, create_gui_pin_reader, level_of,
    ButtonConfig, ButtonEvent, ButtonInput, GenericGpioButton, GuiButton, PinLevel, PinReader,
    PressPhase, BUTTON_PIN, LONG_PRESS_MS,
};
use std::sync::atomic::{AtomicBool, AtomicUsize, Ordering};
use std::sync::mpsc::Sender;
use std::sync::Arc;

/// Mock pin reader that returns a sequence of levels
struct MockPin {
    levels: Vec<PinLevel>,
    index: AtomicUsize,
}

impl MockPin {
    fn new(levels: Vec<PinLevel>) -> Self {
        Self {
            levels,
            index: AtomicUsize::new(0),
        }
    }
}

impl PinReader for MockPin {
    fn read(&self) -> PinLevel {
        let idx = self.index.fetch_add(1, Ordering::SeqCst);
        self.levels
            .get(idx)
            .copied()
            .unwrap_or(*self.levels.last().unwrap())
    }
}

/// Waits for one press, with a clock that advances by the poll interval at each step.
fn wait_for_press<B: ButtonInput>(button: &B, tx: &Sender<ButtonEvent>) {
    let mut phase = PressPhase::Waiting;
    let mut elapsed_ms = 0;
    while phase != PressPhase::Done {
        let held = phase == PressPhase::Held;
        if held {
            elapsed_ms += button.poll_ms();
        }
        let (next, event) = button.wait_for_press(phase, elapsed_ms);
        phase = next;
        if let Some(event) = event {
            tx.send(event).unwrap();
        }
    }
}

#[test]
fn test_long_press_constant() {
    assert_eq!(LONG_PRESS_MS, 2000);
}

#[test]
fn test_button_config_default() {
    let config = ButtonConfig::default();
    assert_eq!(config.poll_ms, 10);
}

#[test]
fn test_pin_level_equality() {
    assert_eq!(PinLevel::Low, PinLevel::Low);
    assert_eq!(PinLevel::High, PinLevel::High);
    assert_ne!(PinLevel::Low, PinLevel::High);
}

#[test]
fn test_press_type_equality() {
    assert_eq!(ButtonEvent::Short, ButtonEvent::Short);
    assert_eq!(ButtonEvent::Long, ButtonEvent::Long);
    assert_ne!(ButtonEvent::Short, ButtonEvent::Long);
}

#[test]
fn test_short_press_sends_down_then_short() {
    let pin = MockPin::new(vec![
        PinLevel::Low,  // Button pressed - sends Down
        PinLevel::High, // Released quickly - sends Short
    ]);
    let button = GenericGpioButton::new(pin, ButtonConfig::default());

    let (tx, rx) = std::sync::mpsc::channel();
    wait_for_press(&button, &tx);

    assert_eq!(rx.recv().unwrap(), ButtonEvent::Down);
    assert_eq!(rx.recv().unwrap(), ButtonEvent::Short);
}

#[test]
fn test_long_press_sends_down_then_long() {
    let pin = MockPin::new(vec![
        PinLevel::Low, // Held forever → triggers Long after threshold
    ]);
    let button = GenericGpioButton::new(pin, ButtonConfig { poll_ms: 10 });

    let (tx, rx) = std::sync::mpsc::channel();
    wait_for_press(&button, &tx);

    assert_eq!(rx.recv().unwrap(), ButtonEvent::Down);
    assert_eq!(rx.recv().unwrap(), ButtonEvent::Long);
}

#[test]
fn test_multiple_short_presses() {
    let pin = MockPin::new(vec![
        PinLevel::Low,
        PinLevel::High,
        PinLevel::Low,
        PinLevel::High,
    ]);
    let button = GenericGpioButton::new(pin, ButtonConfig::default());

    let (tx, rx) = std::sync::mpsc::channel();

    wait_for_press(&button, &tx);
    assert_eq!(rx.recv().unwrap(), ButtonEvent::Down);
    assert_eq!(rx.recv().unwrap(), ButtonEvent::Short);

    wait_for_press(&button, &tx);
    assert_eq!(rx.recv().unwrap(), ButtonEvent::Down);
    assert_eq!(rx.recv().unwrap(), ButtonEvent::Short);
}

#[test]
fn test_mock_pin_returns_sequence() {
    let pin = MockPin::new(vec![PinLevel::High, PinLevel::Low, PinLevel::High]);

    assert_eq!(pin.read(), PinLevel::High);
    assert_eq!(pin.read(), PinLevel::Low);
    assert_eq!(pin.read(), PinLevel::High);
    assert_eq!(pin.read(), PinLevel::High); // Repeats last
}

#[test]
fn test_generic_gpio_button_is_gpio() {
    let pin = MockPin::new(vec![PinLevel::Low, PinLevel::High]);
    let button = GenericGpioButton::new(pin, ButtonConfig::default());
    assert!(button.is_gpio());
}

#[test]
fn test_stop_flag_works() {
    let stop_flag = Arc::new(AtomicBool::new(false));
    assert!(!stop_flag.load(Ordering::SeqCst));

    stop_flag.store(true, Ordering::SeqCst);
    assert!(stop_flag.load(Ordering::SeqCst));
}

#[test]
fn waiting_for_a_press_ignores_a_released_pin() {
    assert_eq!(
        advance_press(PressPhase::Waiting, PinLevel::High, 5000),
        (PressPhase::Waiting, None)
    );
}

#[test]
fn threshold_is_reached_at_exactly_its_time() {
    assert_eq!(
        advance_press(PressPhase::Held, PinLevel::Low, 1999),
        (PressPhase::Held, None)
    );
    assert_eq!(
        advance_press(PressPhase::Held, PinLevel::Low, 2000),
        (PressPhase::Done, Some(ButtonEvent::Long))
    );
}

#[test]
fn release_counts_before_the_threshold() {
    assert_eq!(
        advance_press(PressPhase::Held, PinLevel::High, 9000),
        (PressPhase::Done, Some(ButtonEvent::Short))
    );
}

#[test]
fn finished_press_sends_nothing_more() {
    assert_eq!(
        advance_press(PressPhase::Done, PinLevel::Low, 0),
        (PressPhase::Done, None)
    );
}

#[test]
fn gui_pin_follows_its_flag() {
    let (reader, pressed) = create_gui_pin_reader();
    assert_eq!(reader.read(), PinLevel::High);
    pressed.store(true, Ordering::SeqCst);
    assert_eq!(reader.read(), PinLevel::Low);
    pressed.store(false, Ordering::SeqCst);
    assert_eq!(reader.read(), PinLevel::High);
    assert_eq!(level_of(true), PinLevel::Low);
    assert_eq!(level_of(false), PinLevel::High);
}

#[test]
fn gui_button_is_not_gpio_and_sends_presses() {
    let (button, pressed) = create_gui_button();
    assert!(!button.is_gpio());
    assert_eq!(button.poll_ms(), 10);
    assert_eq!(
        button.wait_for_press(PressPhase::Waiting, 0),
        (PressPhase::Waiting, None)
    );
    pressed.store(true, Ordering::SeqCst);
    assert_eq!(
        button.wait_for_press(PressPhase::Waiting, 0),
        (PressPhase::Held, Some(ButtonEvent::Down))
    );
    pressed.store(false, Ordering::SeqCst);
    assert_eq!(
        button.wait_for_press(PressPhase::Held, 10),
        (PressPhase::Done, Some(ButtonEvent::Short))
    );
    let (reader, _flag) = create_gui_pin_reader();
    assert_eq!(GuiButton::new(reader).poll_ms(), 10);
}

#[test]
fn device_button_is_on_its_pin() {
    assert_eq!(BUTTON_PIN, 17);
    let opened: Result<MockPin, String> = Ok(MockPin::new(vec![PinLevel::Low, PinLevel::High]));
    let button = create_button(opened);
    assert_eq!(button.poll_ms(), 10);
    assert!(button.is_gpio());
    let (tx, rx) = std::sync::mpsc::channel();
    wait_for_press(&button, &tx);
    assert_eq!(rx.recv().unwrap(), ButtonEvent::Down);
    assert_eq!(rx.recv().unwrap(), ButtonEvent::Short);
}
