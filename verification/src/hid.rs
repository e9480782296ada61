use vstd::prelude::*;

verus! {

/// HID protocol selected by the host through the Protocol Mode characteristic.
#[derive(Clone, Copy, Debug, PartialEq, Eq, Structural)]
pub enum Protocol {
    Boot,
    Report,
}

/// The byte that encodes a protocol in the Protocol Mode characteristic.
pub open spec fn protocol_byte(p: Protocol) -> u8 {
    match p {
        Protocol::Boot => 0,
        Protocol::Report => 1,
    }
}

/// The protocol a write to the Protocol Mode characteristic selects, if any.
pub open spec fn protocol_of_write(value: Seq<u8>) -> Option<Protocol> {
    if value.len() == 0 {
        None
    } else if value[0] == 0 {
        Some(Protocol::Boot)
    } else if value[0] == 1 {
        Some(Protocol::Report)
    } else {
        None
    }
}

impl Protocol {
    /// Encodes the protocol as the Protocol Mode value (Boot = 0, Report = 1).
    pub fn into_u8(self) -> (res: u8)
        ensures
            res == protocol_byte(self),
    {
        match self {
            Protocol::Boot => 0,
            Protocol::Report => 1,
        }
    }

    /// Decodes a write to the Protocol Mode characteristic: the first byte selects the
    /// protocol (0 = Boot, 1 = Report); any other value, or an empty write, selects none.
    pub fn from_write(value: &[u8]) -> (res: Option<Protocol>)
        ensures
            res == protocol_of_write(value@),
    {
        if value.len() == 0 {
            None
        } else if value[0] == 0 {
            Some(Protocol::Boot)
        } else if value[0] == 1 {
            Some(Protocol::Report)
        } else {
            None
        }
    }
}

/// What a host asks for through the HID Control Point characteristic.
#[derive(Clone, Copy, Debug, PartialEq, Eq, Structural)]
pub enum ControlPointCommand {
    Suspend,
    Wake,
}

/// A Control Point write whose first byte is neither 0 nor 1 is refused.
#[derive(Clone, Copy, Debug, PartialEq, Eq, Structural)]
pub struct ControlPointRefused;

/// Decodes a write to the Control Point characteristic: the host writes 1 when it
/// goes to sleep (suspend) and 0 when it wakes.
pub fn decode_control_point(value: &[u8]) -> (res: Result<ControlPointCommand, ControlPointRefused>)
    requires
        value@.len() >= 1,
    ensures
        value@[0] == 1 ==> res == Ok::<ControlPointCommand, ControlPointRefused>(ControlPointCommand::Suspend),
        value@[0] == 0 ==> res == Ok::<ControlPointCommand, ControlPointRefused>(ControlPointCommand::Wake),
        value@[0] > 1 ==> res is Err,
{
    if value[0] == 1 {
        Ok(ControlPointCommand::Suspend)
    } else if value[0] == 0 {
        Ok(ControlPointCommand::Wake)
    } else {
        Err(ControlPointRefused)
    }
}

/// The HID Information characteristic: HID spec 1.11, country code 0, normally connectable.
pub fn hid_information() -> (res: Vec<u8>)
    ensures
        res@ == seq![0x01u8, 0x11, 0x00, 0x02],
{
    vec![0x01, 0x11, 0x00, 0x02]
}

/// Kind of report a Report characteristic carries, as named by its Report Reference descriptor.
#[derive(Clone, Copy, Debug, PartialEq, Eq, Structural)]
pub enum ReportKind {
    Input,
    Output,
}

/// The Report Reference descriptor of a report characteristic: report id 0, then
/// the report type (1 = input, 2 = output).
pub fn report_reference(kind: ReportKind) -> (res: Vec<u8>)
    ensures
        res@ == (match kind {
            ReportKind::Input => seq![0x00u8, 0x01],
            ReportKind::Output => seq![0x00u8, 0x02],
        }),
{
    match kind {
        ReportKind::Input => vec![0x00, 0x01],
        ReportKind::Output => vec![0x00, 0x02],
    }
}

/// The bytes of the keyboard's HID report descriptor.
pub open spec fn keyboard_report_descriptor_bytes() -> Seq<u8> {
    seq![0x05u8, 0x01, 0x09, 0x06, 0xA1, 0x01, 0x05, 0x07, 0x19, 0xE0, 0x29, 0xE7, 0x15, 0x00, 0x25, 0x01, 0x75, 0x01, 0x95, 0x08, 0x81, 0x02, 0x95, 0x01, 0x75, 0x08, 0x81, 0x01, 0x95, 0x05, 0x75, 0x01, 0x05, 0x08, 0x19, 0x01, 0x29, 0x05, 0x91, 0x02, 0x95, 0x01, 0x75, 0x03, 0x91, 0x01, 0x95, 0x06, 0x75, 0x08, 0x15, 0x00, 0x25, 0x65, 0x05, 0x07, 0x19, 0x00, 0x29, 0x65, 0x81, 0x00, 0xC0]
}

/// HID report descriptor of the keyboard: 8 modifier bits, a constant byte, 5 LED
/// output bits with 3 bits of padding, and 6 key usages (0..=0x65).
pub fn keyboard_report_descriptor() -> (res: Vec<u8>)
    ensures
        res@ == keyboard_report_descriptor_bytes(),
{
    vec![
        0x05, 0x01, 0x09, 0x06, 0xA1, 0x01, 0x05, 0x07, 0x19, 0xE0, 0x29, 0xE7, 0x15, 0x00, 0x25,
        0x01, 0x75, 0x01, 0x95, 0x08, 0x81, 0x02, 0x95, 0x01, 0x75, 0x08, 0x81, 0x01, 0x95, 0x05,
        0x75, 0x01, 0x05, 0x08, 0x19, 0x01, 0x29, 0x05, 0x91, 0x02, 0x95, 0x01, 0x75, 0x03, 0x91,
        0x01, 0x95, 0x06, 0x75, 0x08, 0x15, 0x00, 0x25, 0x65, 0x05, 0x07, 0x19, 0x00, 0x29, 0x65,
        0x81, 0x00, 0xC0,
    ]
}

/// The bytes of the mouse's HID report descriptor.
pub open spec fn mouse_report_descriptor_bytes() -> Seq<u8> {
    seq![0x05u8, 0x01, 0x09, 0x02, 0xA1, 0x01, 0x09, 0x01, 0xA1, 0x00, 0x05, 0x09, 0x19, 0x01, 0x29, 0x03, 0x15, 0x00, 0x25, 0x01, 0x95, 0x03, 0x75, 0x01, 0x81, 0x02, 0x95, 0x01, 0x75, 0x05, 0x81, 0x03, 0x05, 0x01, 0x09, 0x30, 0x09, 0x31, 0x09, 0x38, 0x15, 0x81, 0x25, 0x7F, 0x75, 0x08, 0x95, 0x03, 0x81, 0x06, 0xC0, 0xC0]
}

/// HID report descriptor of the mouse: 3 button bits with 5 bits of padding, then
/// relative X, Y and wheel as signed bytes, the layout of the mouse's input reports.
pub fn mouse_report_descriptor() -> (res: Vec<u8>)
    ensures
        res@ == mouse_report_descriptor_bytes(),
{
    vec![
        0x05, 0x01, 0x09, 0x02, 0xA1, 0x01, 0x09, 0x01, 0xA1, 0x00, 0x05, 0x09, 0x19, 0x01, 0x29,
        0x03, 0x15, 0x00, 0x25, 0x01, 0x95, 0x03, 0x75, 0x01, 0x81, 0x02, 0x95, 0x01, 0x75, 0x05,
        0x81, 0x03, 0x05, 0x01, 0x09, 0x30, 0x09, 0x31, 0x09, 0x38, 0x15, 0x81, 0x25, 0x7F, 0x75,
        0x08, 0x95, 0x03, 0x81, 0x06, 0xC0, 0xC0,
    ]
}

} // verus!
