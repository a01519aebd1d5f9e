use controller_music::controller::{button_at, button_bit, ButtonType, DiscreteType};
use controller_music::intermediate_controller_state::{
    button_events, button_pressed, ControllerSnapshot, DigitalEvent,
};

fn snap(left: i8, right: i8, dpad: i8, touch_x: i8, touch_y: i8, buttons: u16) -> ControllerSnapshot {
    ControllerSnapshot { left, right, dpad, touch_x, touch_y, buttons }
}

#[test]
fn buttons_and_bits_agree() {
    for i in 0..15 {
        assert_eq!(button_bit(button_at(i)) as usize, i);
    }
    assert_eq!(button_at(5), ButtonType::RBumper);
    assert_eq!(button_bit(ButtonType::Touch), 14);
}

#[test]
fn button_pressed_reads_bits() {
    assert!(button_pressed(0b10000, ButtonType::LBumper));
    assert!(!button_pressed(0b10000, ButtonType::RBumper));
    assert!(button_pressed(1 << 14, ButtonType::Touch));
}

#[test]
fn button_events_of_a_change() {
    assert_eq!(button_events(0, 1 << 5), vec![(ButtonType::RBumper, true)]);
    assert_eq!(button_events(1 << 5, 0), vec![(ButtonType::RBumper, false)]);
    assert_eq!(
        button_events(0b0001, 0b1010),
        vec![(ButtonType::Square, false), (ButtonType::Cross, true), (ButtonType::Triangle, true)]
    );
    assert_eq!(button_events(0x7fff, 0x7fff), vec![]);
    // Bit 15 names no button.
    assert_eq!(button_events(0, 1 << 15), vec![]);
}

#[test]
fn events_in_order() {
    let old = snap(-1, 2, 8, 0, 0, 0);
    let new = snap(3, 2, 0, 5, 1, 1 << 8);
    assert_eq!(
        old.get_events(&new),
        vec![
            DigitalEvent::Discrete(DiscreteType::Left, 3, 8),
            DigitalEvent::Discrete(DiscreteType::Dpad, 0, 8),
            DigitalEvent::Discrete(DiscreteType::TouchX, 5, 12),
            DigitalEvent::Discrete(DiscreteType::TouchY, 1, 8),
            DigitalEvent::Button(ButtonType::Share, true),
        ]
    );
}

#[test]
fn no_change_no_events() {
    let s = snap(1, 2, 3, 4, 5, 0x1234);
    assert_eq!(s.get_events(&s), vec![]);
    assert!(s.get_button(ButtonType::LBumper));
}
