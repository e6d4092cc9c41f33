//! Byte-encoded input events: a channel code selects an action, analog
//! actions carry a value biased around 127, and a shared queue buffers
//! events until the frame drains them in last-in-first-out order.
use vstd::prelude::*;

verus! {

/// An action selected by an input event's channel code. Digital actions
/// carry no payload; the `Axis` actions read the event's value byte.
#[derive(Clone, Copy, PartialEq, Eq, Structural, Debug)]
pub enum Input {
    /// Pan the view up (up arrow).
    PanUp,
    /// Pan the view down (down arrow).
    PanDown,
    /// Pan the view left (left arrow).
    PanLeft,
    /// Pan the view right (right arrow).
    PanRight,
    /// Zoom the view in (plus key).
    ZoomIn,
    /// Zoom the view out (minus key).
    ZoomOut,
    /// Turn the rudder left (A).
    RudderLeft,
    /// Turn the rudder right (D).
    RudderRight,
    /// Extend the sail (E).
    SailUp,
    /// Retract the sail (Q).
    SailDown,
    /// Smooth the view back toward its default pan and zoom (slash).
    RecenterView,
    /// Snap the vessel back to the origin (R).
    RecenterVessel,
    /// Analog zoom.
    AxisZoom,
    /// Analog rudder.
    AxisRudder,
    /// Analog pan along y.
    AxisPanY,
    /// Analog pan along x.
    AxisPanX,
    /// Analog sail extension.
    AxisSail,
}

/// The action a channel code selects, or `None` for the codes that select
/// nothing; events with such codes are ignored without error.
pub open spec fn decode_spec(code: u8) -> Option<Input> {
    if code == 38 {
        Some(Input::PanUp)
    } else if code == 40 {
        Some(Input::PanDown)
    } else if code == 37 {
        Some(Input::PanLeft)
    } else if code == 39 {
        Some(Input::PanRight)
    } else if code == 61 {
        Some(Input::ZoomIn)
    } else if code == 173 {
        Some(Input::ZoomOut)
    } else if code == 65 {
        Some(Input::RudderLeft)
    } else if code == 68 {
        Some(Input::RudderRight)
    } else if code == 69 {
        Some(Input::SailUp)
    } else if code == 81 {
        Some(Input::SailDown)
    } else if code == 191 {
        Some(Input::RecenterView)
    } else if code == 82 {
        Some(Input::RecenterVessel)
    } else if code == 0 {
        Some(Input::AxisZoom)
    } else if code == 1 {
        Some(Input::AxisRudder)
    } else if code == 3 {
        Some(Input::AxisPanY)
    } else if code == 4 {
        Some(Input::AxisPanX)
    } else if code == 5 {
        Some(Input::AxisSail)
    } else {
        None
    }
}

/// Maps a channel code to its action; unrecognized codes yield `None`.
pub fn decode(code: u8) -> (action: Option<Input>)
    ensures
        action == decode_spec(code),
{
    match code {
        38 => Some(Input::PanUp),
        40 => Some(Input::PanDown),
        37 => Some(Input::PanLeft),
        39 => Some(Input::PanRight),
        61 => Some(Input::ZoomIn),
        173 => Some(Input::ZoomOut),
        65 => Some(Input::RudderLeft),
        68 => Some(Input::RudderRight),
        69 => Some(Input::SailUp),
        81 => Some(Input::SailDown),
        191 => Some(Input::RecenterView),
        82 => Some(Input::RecenterVessel),
        0 => Some(Input::AxisZoom),
        1 => Some(Input::AxisRudder),
        3 => Some(Input::AxisPanY),
        4 => Some(Input::AxisPanX),
        5 => Some(Input::AxisSail),
        _ => None,
    }
}

/// Removes the bias from an analog value byte: values are centered at 127,
/// so the result lies in `[-127, 128]`.
pub fn analog_bias(value: u8) -> (bias: i16)
    ensures
        bias == value - 127,
        -127 <= bias <= 128,
{
    value as i16 - 127
}

/// A buffer of pending `(channel code, value)` event pairs. The host pushes
/// one pair per detected change; the frame drains the whole buffer through
/// `pop`, so the most recently pushed event is processed first.
pub struct InputQueue {
    events: Vec<(u8, u8)>,
}

impl View for InputQueue {
    type V = Seq<(u8, u8)>;

    closed spec fn view(&self) -> Seq<(u8, u8)> {
        self.events@
    }
}

impl InputQueue {
    /// An empty queue.
    pub fn new() -> (queue: InputQueue)
        ensures
            queue@ == Seq::<(u8, u8)>::empty(),
    {
        InputQueue { events: Vec::new() }
    }

    /// Number of buffered events.
    pub fn len(&self) -> (n: usize)
        ensures
            n == self@.len(),
    {
        self.events.len()
    }

    /// Buffers one event behind all earlier ones.
    pub fn push(&mut self, code: u8, value: u8)
        ensures
            final(self)@ == old(self)@.push((code, value)),
    {
        self.events.push((code, value));
    }

    /// Takes the most recently pushed event, or `None` once the queue is
    /// drained.
    pub fn pop(&mut self) -> (event: Option<(u8, u8)>)
        ensures
            old(self)@.len() == 0 ==> event is None && final(self)@ == old(self)@,
            old(self)@.len() > 0 ==> event == Some(old(self)@.last())
                && final(self)@ == old(self)@.drop_last(),
    {
        self.events.pop()
    }
}

} // verus!
