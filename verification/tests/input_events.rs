use pirates::input::{analog_bias, decode, Input, InputQueue};

#[test]
fn decode_digital_codes() {
    assert_eq!(decode(38), Some(Input::PanUp));
    assert_eq!(decode(40), Some(Input::PanDown));
    assert_eq!(decode(37), Some(Input::PanLeft));
    assert_eq!(decode(39), Some(Input::PanRight));
    assert_eq!(decode(61), Some(Input::ZoomIn));
    assert_eq!(decode(173), Some(Input::ZoomOut));
    assert_eq!(decode(65), Some(Input::RudderLeft));
    assert_eq!(decode(68), Some(Input::RudderRight));
    assert_eq!(decode(69), Some(Input::SailUp));
    assert_eq!(decode(81), Some(Input::SailDown));
    assert_eq!(decode(191), Some(Input::RecenterView));
    assert_eq!(decode(82), Some(Input::RecenterVessel));
}

#[test]
fn decode_analog_codes() {
    assert_eq!(decode(0), Some(Input::AxisZoom));
    assert_eq!(decode(1), Some(Input::AxisRudder));
    assert_eq!(decode(3), Some(Input::AxisPanY));
    assert_eq!(decode(4), Some(Input::AxisPanX));
    assert_eq!(decode(5), Some(Input::AxisSail));
}

#[test]
fn decode_unknown_codes_ignored() {
    for code in [2u8, 6, 7, 36, 41, 64, 70, 83, 99, 172, 174, 190, 192, 255] {
        assert_eq!(decode(code), None, "code {code}");
    }
}

#[test]
fn analog_values_center_at_127() {
    assert_eq!(analog_bias(127), 0);
    assert_eq!(analog_bias(0), -127);
    assert_eq!(analog_bias(255), 128);
    assert_eq!(analog_bias(128), 1);
}

#[test]
fn queue_drains_most_recent_first() {
    let mut queue = InputQueue::new();
    assert_eq!(queue.len(), 0);
    assert_eq!(queue.pop(), None);
    queue.push(65, 0);
    queue.push(68, 0);
    queue.push(1, 200);
    assert_eq!(queue.len(), 3);
    assert_eq!(queue.pop(), Some((1, 200)));
    assert_eq!(queue.pop(), Some((68, 0)));
    assert_eq!(queue.pop(), Some((65, 0)));
    assert_eq!(queue.pop(), None);
    assert_eq!(queue.len(), 0);
}
