//! Reports of the panel.
use pcp_rust::device::{
    init_report, parse_event, read_event, set_led, Control, Event, PanelInput, MSG_ANALOG,
    MSG_BUTTON, PACKET_SIZE,
};

fn frame(msg: u8, index: u8, value: u8) -> [u8; PACKET_SIZE] {
    let mut b = [0u8; PACKET_SIZE];
    b[0] = msg;
    b[1] = index;
    b[2] = value;
    b
}

#[test]
fn parse_knob_boundaries() {
    assert_eq!(
        parse_event(&frame(MSG_ANALOG, 0, 128)),
        Some(Event::AnalogChange { control: Control::Knob(0), value: 128 })
    );
    assert_eq!(
        parse_event(&frame(MSG_ANALOG, 4, 255)),
        Some(Event::AnalogChange { control: Control::Knob(4), value: 255 })
    );
}

#[test]
fn parse_slider_boundaries() {
    assert_eq!(
        parse_event(&frame(MSG_ANALOG, 5, 0)),
        Some(Event::AnalogChange { control: Control::Slider(0), value: 0 })
    );
    assert_eq!(
        parse_event(&frame(MSG_ANALOG, 8, 200)),
        Some(Event::AnalogChange { control: Control::Slider(3), value: 200 })
    );
}

#[test]
fn parse_analog_out_of_range_indices_dropped() {
    assert_eq!(parse_event(&frame(MSG_ANALOG, 9, 100)), None);
    assert_eq!(parse_event(&frame(MSG_ANALOG, 0xFF, 100)), None);
}

#[test]
fn parse_button_press_and_release() {
    assert_eq!(
        parse_event(&frame(MSG_BUTTON, 0, 0x01)),
        Some(Event::ButtonPress { index: 0 })
    );
    assert_eq!(
        parse_event(&frame(MSG_BUTTON, 4, 0x00)),
        Some(Event::ButtonRelease { index: 4 })
    );
}

#[test]
fn parse_button_out_of_range_dropped() {
    assert_eq!(parse_event(&frame(MSG_BUTTON, 5, 0x01)), None);
    assert_eq!(parse_event(&frame(MSG_BUTTON, 0xFF, 0x01)), None);
}

#[test]
fn parse_button_unknown_value_dropped() {
    assert_eq!(parse_event(&frame(MSG_BUTTON, 0, 0x02)), None);
    assert_eq!(parse_event(&frame(MSG_BUTTON, 0, 0xFF)), None);
}

#[test]
fn parse_unknown_message_type_dropped() {
    assert_eq!(parse_event(&frame(0x00, 0, 0)), None);
    assert_eq!(parse_event(&frame(0xAB, 0, 0)), None);
}

#[test]
fn short_reads_hold_no_event() {
    let press = frame(MSG_BUTTON, 1, 0x01);
    assert_eq!(read_event(0, &press), None);
    assert_eq!(read_event(2, &press), None);
    assert_eq!(read_event(3, &press), Some(Event::ButtonPress { index: 1 }));
    assert_eq!(read_event(64, &press), Some(Event::ButtonPress { index: 1 }));
}

#[test]
fn presses_during_the_start_are_kept() {
    let mut input = PanelInput::new();
    input.calibrate(64, frame(MSG_ANALOG, 0, 10));
    input.calibrate(64, frame(MSG_BUTTON, 2, 0x01));
    input.calibrate(2, frame(MSG_BUTTON, 3, 0x01));
    input.calibrate(64, frame(0xAB, 0, 0));
    input.calibrate(64, frame(MSG_BUTTON, 2, 0x00));
    assert_eq!(input.pending_event(), Some(Some(Event::ButtonPress { index: 2 })));
    assert_eq!(input.pending_event(), Some(None));
    assert_eq!(input.pending_event(), Some(Some(Event::ButtonRelease { index: 2 })));
    assert_eq!(input.pending_event(), None);
}

#[test]
fn packets_are_padded_to_a_report() {
    let report = set_led(&[5, 6, 7]).unwrap();
    assert_eq!(&report[..4], &[5, 6, 7, 0]);
    assert!(report[3..].iter().all(|b| *b == 0));
    assert!(set_led(&[9; 64]).is_ok());
    assert_eq!(set_led(&[9; 65]).unwrap_err(), "LED packet too large: 65 bytes > 64");
    let init = init_report();
    assert_eq!(init[0], 1);
    assert!(init[1..].iter().all(|b| *b == 0));
}
