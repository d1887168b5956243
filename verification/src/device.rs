//! The reports of the PCPanel Pro: what arrives from it and what is sent.
use std::collections::VecDeque;

use vstd::prelude::*;
use vstd::string::*;

use crate::text::{append_decimal, decimal};

verus! {

pub const VENDOR_ID: u16 = 0x0483;

pub const PRODUCT_ID: u16 = 0xA3C5;

/// The size of a report.
pub const PACKET_SIZE: usize = 64;

/// How many reports are read after the panel was told to start.
pub const CALIBRATION_READS: usize = 20;

pub const KNOB_FIRST: u8 = 0;

pub const KNOB_LAST: u8 = 4;

pub const SLIDER_FIRST: u8 = 5;

pub const SLIDER_LAST: u8 = 8;

pub const BUTTON_LAST: u8 = 4;

pub const MSG_ANALOG: u8 = 0x01;

pub const MSG_BUTTON: u8 = 0x02;

/// A control with a position.
#[derive(Debug, Clone, Copy, PartialEq, Eq, Structural)]
pub enum Control {
    /// 0-4
    Knob(u8),
    /// 0-3
    Slider(u8),
}

/// What a report tells.
#[derive(Debug, Clone, Copy, PartialEq, Eq, Structural)]
pub enum Event {
    AnalogChange { control: Control, value: u8 },
    ButtonPress { index: u8 },
    ButtonRelease { index: u8 },
}

/// The control behind an index of an analog report.
pub open spec fn analog_control(index: u8) -> Option<Control> {
    if index <= KNOB_LAST {
        Some(Control::Knob(index))
    } else if index <= SLIDER_LAST {
        Some(Control::Slider((index - SLIDER_FIRST) as u8))
    } else {
        None
    }
}

/// What a report tells; `None` where it is not understood. The kind of the
/// report, the index of the control and its value are the first three bytes.
pub open spec fn event_of(report: Seq<u8>) -> Option<Event> {
    let kind = report[0];
    let index = report[1];
    let value = report[2];
    if kind == MSG_ANALOG {
        match analog_control(index) {
            Some(control) => Some(Event::AnalogChange { control, value }),
            None => None,
        }
    } else if kind == MSG_BUTTON && index <= BUTTON_LAST && value == 1 {
        Some(Event::ButtonPress { index })
    } else if kind == MSG_BUTTON && index <= BUTTON_LAST && value == 0 {
        Some(Event::ButtonRelease { index })
    } else {
        None
    }
}

/// Reads a report.
pub fn parse_event(buf: &[u8; 64]) -> (r: Option<Event>)
    ensures
        r == event_of(buf@),
{
    let msg_type = buf[0];
    let index = buf[1];
    let value = buf[2];
    if msg_type == MSG_ANALOG {
        if index <= KNOB_LAST {
            Some(Event::AnalogChange { control: Control::Knob(index - KNOB_FIRST), value })
        } else if index <= SLIDER_LAST {
            Some(Event::AnalogChange { control: Control::Slider(index - SLIDER_FIRST), value })
        } else {
            None
        }
    } else if msg_type == MSG_BUTTON {
        if index > BUTTON_LAST {
            None
        } else if value == 0x01 {
            Some(Event::ButtonPress { index })
        } else if value == 0x00 {
            Some(Event::ButtonRelease { index })
        } else {
            None
        }
    } else {
        None
    }
}

/// Reads a report of which `n` bytes arrived; fewer than three tell nothing.
pub fn read_event(n: usize, buf: &[u8; 64]) -> (r: Option<Event>)
    ensures
        r == if n < 3 {
            None
        } else {
            event_of(buf@)
        },
{
    if n < 3 {
        None
    } else {
        parse_event(buf)
    }
}

/// Reports that arrived while the panel was started and were kept.
pub struct PanelInput {
    pending: VecDeque<[u8; 64]>,
}

/// Whether a report that arrives during the start is kept: positions of knobs
/// and sliders are not, the panel sends them of its own accord.
pub open spec fn kept_at_start(n: int, report: Seq<u8>) -> bool {
    n >= 3 && report[0] != MSG_ANALOG
}

impl View for PanelInput {
    type V = Seq<[u8; 64]>;

    closed spec fn view(&self) -> Seq<[u8; 64]> {
        self.pending@
    }
}

impl PanelInput {
    /// No report yet.
    pub fn new() -> (r: PanelInput)
        ensures
            r@ == Seq::<[u8; 64]>::empty(),
    {
        PanelInput { pending: VecDeque::new() }
    }

    /// Takes a report of which `n` bytes arrived during the start.
    pub fn calibrate(&mut self, n: usize, report: [u8; 64])
        ensures
            final(self)@ == if kept_at_start(n as int, report@) {
                old(self)@.push(report)
            } else {
                old(self)@
            },
    {
        if n >= 3 && report[0] != MSG_ANALOG {
            self.pending.push_back(report);
        }
    }

    /// The oldest report that was kept, read; `None` where none is left, so
    /// that the panel itself has to be read.
    pub fn pending_event(&mut self) -> (r: Option<Option<Event>>)
        ensures
            old(self)@.len() == 0 ==> r is None && final(self)@ == old(self)@,
            old(self)@.len() > 0 ==> r == Some(event_of(old(self)@[0]@)) && final(self)@ == old(
                self,
            )@.skip(1),
    {
        match self.pending.pop_front() {
            Some(report) => {
                assert(old(self)@.skip(1) =~= self@);
                Some(parse_event(&report))
            },
            None => None,
        }
    }
}

/// The reports that are kept of a row of reads during the start.
pub open spec fn kept_of(reads: Seq<(int, [u8; 64])>) -> Seq<[u8; 64]>
    decreases reads.len(),
{
    if reads.len() == 0 {
        seq![]
    } else {
        let (n, report) = reads.last();
        if kept_at_start(n, report@) {
            kept_of(reads.drop_last()).push(report)
        } else {
            kept_of(reads.drop_last())
        }
    }
}

/// A report as it is sent: the packet, filled up with zeros.
pub open spec fn padded(packet: Seq<u8>) -> Seq<u8> {
    Seq::new(64, |i: int| if i < packet.len() {
        packet[i]
    } else {
        0
    })
}

/// The message for a packet that does not fit into a report.
pub open spec fn too_large(len: nat) -> Seq<char> {
    "LED packet too large: "@ + decimal(len) + " bytes > "@ + decimal(64)
}

/// The report that carries a packet.
pub fn set_led(packet: &[u8]) -> (r: Result<[u8; 64], String>)
    ensures
        match r {
            Ok(report) => packet@.len() <= 64 && report@ == padded(packet@),
            Err(e) => packet@.len() > 64 && e@ == too_large(packet@.len()),
        },
{
    if packet.len() > PACKET_SIZE {
        let mut message = "LED packet too large: ".to_owned();
        append_decimal(&mut message, packet.len() as u64);
        message.append(" bytes > ");
        append_decimal(&mut message, 64);
        return Err(message);
    }
    let mut buf = [0u8;64];
    let mut i: usize = 0;
    while i < packet.len()
        invariant
            i <= packet@.len() <= 64,
            buf@ == padded(packet@.take(i as int)),
        decreases packet@.len() - i,
    {
        buf[i] = packet[i];
        assert(buf@ =~= padded(packet@.take(i + 1)));
        i += 1;
    }
    assert(packet@.take(i as int) =~= packet@);
    Ok(buf)
}

/// The report that tells the panel to start.
pub fn init_report() -> (r: [u8; 64])
    ensures
        r@ == padded(seq![0x01u8]),
{
    let mut buf = [0u8;64];
    buf[0] = 0x01;
    assert(buf@ =~= padded(seq![0x01u8]));
    buf
}

/// The report that announces an event.
pub open spec fn announces(report: Seq<u8>, event: Event) -> bool {
    &&& report.len() == 64
    &&& match event {
        Event::AnalogChange { control: Control::Knob(i), value } => report[0] == MSG_ANALOG
            && report[1] == i && report[2] == value,
        Event::AnalogChange { control: Control::Slider(i), value } => report[0] == MSG_ANALOG
            && report[1] == SLIDER_FIRST + i && report[2] == value,
        Event::ButtonPress { index } => report[0] == MSG_BUTTON && report[1] == index && report[2]
            == 1,
        Event::ButtonRelease { index } => report[0] == MSG_BUTTON && report[1] == index
            && report[2] == 0,
    }
}

/// Whether an event concerns a control that the panel has.
pub open spec fn on_panel(event: Event) -> bool {
    match event {
        Event::AnalogChange { control: Control::Knob(i), .. } => i < 5,
        Event::AnalogChange { control: Control::Slider(i), .. } => i < 4,
        Event::ButtonPress { index } => index < 5,
        Event::ButtonRelease { index } => index < 5,
    }
}

/// A report is read as an event exactly where it announces that event and the
/// panel has the control: none is made up, and none is missed.
pub proof fn law_reports_and_events_correspond(report: Seq<u8>, event: Event)
    requires
        report.len() == 64,
    ensures
        event_of(report) == Some(event) <==> announces(report, event) && on_panel(event),
{
}

/// A button that is pressed while the panel starts is not lost: every report
/// with at least three bytes that is not a position is kept, in its order.
pub proof fn law_presses_during_start_are_kept(reads: Seq<(int, [u8; 64])>)
    ensures
        kept_of(reads) == reads.filter(
            |r: (int, [u8; 64])| kept_at_start(r.0, r.1@),
        ).map_values(|r: (int, [u8; 64])| r.1),
    decreases reads.len(),
{
    let keep = |r: (int, [u8; 64])| kept_at_start(r.0, r.1@);
    let report = |r: (int, [u8; 64])| r.1;
    reveal(Seq::filter);
    if reads.len() > 0 {
        law_presses_during_start_are_kept(reads.drop_last());
        let front = reads.drop_last().filter(keep);
        assert(front.push(reads.last()).map_values(report) =~= front.map_values(report).push(
            reads.last().1,
        ));
    } else {
        assert(reads.filter(keep).map_values(report) =~= Seq::empty());
    }
}

/// The first byte of a report is its kind: 1 for a position, 2 for a button.
/// The second is the control: of the positions, 0 to 4 are the knobs and 5 to 8
/// the sliders; of the buttons, there are 0 to 4. The third is the position, or
/// 1 where the button is pressed and 0 where it is released. Nothing else is an
/// event.
pub proof fn law_reports_are_read_byte_by_byte(report: Seq<u8>, index: u8, value: u8)
    requires
        report.len() == 64,
        report[1] == index,
        report[2] == value,
    ensures
        report[0] == 1 && index < 5 ==> event_of(report) == Some(
            Event::AnalogChange { control: Control::Knob(index), value },
        ),
        report[0] == 1 && 5 <= index < 9 ==> event_of(report) == Some(
            Event::AnalogChange { control: Control::Slider((index - 5) as u8), value },
        ),
        report[0] == 2 && index < 5 && value == 1 ==> event_of(report) == Some(
            Event::ButtonPress { index },
        ),
        report[0] == 2 && index < 5 && value == 0 ==> event_of(report) == Some(
            Event::ButtonRelease { index },
        ),
        event_of(report) is Some ==> (report[0] == 1 && index < 9) || (report[0] == 2 && index < 5
            && value < 2),
        VENDOR_ID == 0x0483 && PRODUCT_ID == 0xA3C5,
        PACKET_SIZE == 64 && CALIBRATION_READS == 20,
{
}

/// Of the reports that arrive during the start, those are kept that have three
/// bytes and are no position: presses and releases are, whatever the control.
pub proof fn law_positions_at_the_start_are_dropped(n: int, report: Seq<u8>)
    requires
        report.len() == 64,
    ensures
        n < 3 || report[0] == 1 <==> !kept_at_start(n, report),
{
}

/// A report is as long as the panel wants it, begins with the packet and has
/// zeros behind it: the packet can be read back from it.
pub proof fn law_reports_begin_with_the_packet(packet: Seq<u8>)
    requires
        packet.len() <= 64,
    ensures
        padded(packet).len() == 64,
        padded(packet).take(packet.len() as int) == packet,
        forall|i: int| packet.len() <= i < 64 ==> #[trigger] padded(packet)[i] == 0,
        too_large(packet.len()) == "LED packet too large: "@ + decimal(packet.len()) + " bytes > "@
            + decimal(64),
{
    assert(padded(packet).take(packet.len() as int) =~= packet);
}

} // verus!
