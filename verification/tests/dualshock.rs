use controller_music::dualshock::DS4;

#[test]
fn short_report() {
    let mut buf = [0u8; 10];
    buf[0] = 0x01;
    buf[1] = 0;
    buf[2] = 255;
    buf[3] = 128;
    buf[4] = 7;
    buf[5] = 0x28; // cross down, d-pad 8 (none)
    buf[6] = 0x81; // left bumper and right stick button down
    buf[8] = 10;
    buf[9] = 200;
    let r = DS4::parse_report(&buf).unwrap();
    assert_eq!((r.left_stick_x, r.left_stick_y, r.right_stick_x, r.right_stick_y), (0, 255, 128, 7));
    assert_eq!((r.l_trigger, r.r_trigger), (10, 200));
    assert_eq!(r.packed_button_states, 0x812);
    assert_eq!(r.dpad, 8);
    assert!(r.touch.is_none());
}

#[test]
fn extended_report() {
    let mut buf = [0u8; 78];
    buf[0] = 0x11;
    buf[1] = 0x80;
    buf[3] = 1;
    buf[4] = 2;
    buf[5] = 3;
    buf[6] = 4;
    buf[7] = 0xF3; // all four face buttons, d-pad 3
    buf[8] = 0x20; // share
    buf[9] = 0x03; // PS and touchpad click
    buf[10] = 50;
    buf[11] = 60;
    buf[37] = 0x05; // a finger touches
    buf[38] = 0x34;
    buf[39] = 0xA6;
    buf[40] = 0x12;
    let r = DS4::parse_report(&buf).unwrap();
    assert_eq!((r.left_stick_x, r.left_stick_y, r.right_stick_x, r.right_stick_y), (1, 2, 3, 4));
    assert_eq!((r.l_trigger, r.r_trigger), (50, 60));
    assert_eq!(r.packed_button_states, (1 << 14) | (3 << 12) | (0x20 << 4) | 0xF);
    assert_eq!(r.dpad, 3);
    assert_eq!(r.touch, Some((0x34 + 6 * 256, 0x12 * 256 + 0xA0)));
}

#[test]
fn extended_report_without_touch() {
    let mut buf = [0u8; 78];
    buf[0] = 0x11;
    buf[1] = 0xC0;
    buf[37] = 0x80;
    let r = DS4::parse_report(&buf).unwrap();
    assert_eq!(r.packed_button_states, 0);
}

#[test]
fn audio_only_report() {
    let mut buf = [0u8; 78];
    buf[0] = 0x11;
    buf[1] = 0x7F;
    assert!(DS4::parse_report(&buf).is_none());
}

#[test]
fn dualshock_names() {
    assert!(DS4::is_dualshock_name("Wireless Controller DUALSHOCK 4"));
    assert!(DS4::is_dualshock_name("DUALSHOCK"));
    assert!(!DS4::is_dualshock_name("DualSense"));
    assert!(!DS4::is_dualshock_name(""));
}
