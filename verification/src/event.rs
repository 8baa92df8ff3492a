//! The `/dev/uhid` wire format.
//!
//! A single `struct uhid_event` is written to, and read from, the character
//! device. It is `__packed`, has a fixed size, and has been stable since Linux
//! 3.18, so the offsets are spelled out here rather than generated.

use vstd::prelude::*;

use crate::bytes::{get_u32, put_bytes, put_u16, put_u32};
use crate::error::{invalid, Error};

verus! {

/// `BUS_VIRTUAL` from `linux/input.h`.
///
/// Device-specific kernel HID drivers all match on a physical bus, so a device
/// on the virtual bus is left to `hid-generic` even when it borrows the vendor
/// and product IDs of real hardware.
pub const BUS_VIRTUAL: u16 = 0x06;

/// Removes the device; sent by us.
pub const UHID_DESTROY: u32 = 1;

/// The driver is being attached; sent by the kernel.
pub const UHID_START: u32 = 2;

/// Asks for a report; sent by the kernel.
pub const UHID_GET_REPORT: u32 = 9;

/// Answers [`UHID_GET_REPORT`]; sent by us.
pub const UHID_GET_REPORT_REPLY: u32 = 10;

/// Creates the device; sent by us.
pub const UHID_CREATE2: u32 = 11;

/// Carries an input report; sent by us.
pub const UHID_INPUT2: u32 = 12;

/// Asks to set a report; sent by the kernel.
pub const UHID_SET_REPORT: u32 = 13;

/// Answers [`UHID_SET_REPORT`]; sent by us.
pub const UHID_SET_REPORT_REPLY: u32 = 14;

/// `UHID_INPUT_REPORT`, the `rtype` of a request about an input report.
pub const RTYPE_INPUT: u8 = 2;

/// `EIO`, the error carried by replies to requests we do not serve.
pub const EIO: u16 = 5;

// Field offsets inside `struct uhid_event`: the 4-byte type, then the union.
pub const OFF_TYPE: usize = 0;

pub const OFF_CREATE_NAME: usize = 4;

pub const LEN_NAME: usize = 128;

pub const OFF_CREATE_PHYS: usize = OFF_CREATE_NAME + LEN_NAME;

pub const LEN_PHYS: usize = 64;

pub const OFF_CREATE_UNIQ: usize = OFF_CREATE_PHYS + LEN_PHYS;

pub const LEN_UNIQ: usize = 64;

pub const OFF_CREATE_RD_SIZE: usize = OFF_CREATE_UNIQ + LEN_UNIQ;

pub const OFF_CREATE_BUS: usize = OFF_CREATE_RD_SIZE + 2;

pub const OFF_CREATE_VENDOR: usize = OFF_CREATE_BUS + 2;

pub const OFF_CREATE_PRODUCT: usize = OFF_CREATE_VENDOR + 4;

pub const OFF_CREATE_RD_DATA: usize = OFF_CREATE_PRODUCT + 4 + 4 + 4;

/// `HID_MAX_DESCRIPTOR_SIZE`.
pub const RD_DATA_MAX: usize = 4096;

/// `UHID_DATA_MAX`.
pub const DATA_MAX: usize = 4096;

/// Size of `struct uhid_event`: the type tag plus its largest union member.
pub const EVENT_SIZE: usize = OFF_CREATE_RD_DATA + RD_DATA_MAX;

pub const OFF_INPUT_SIZE: usize = 4;

pub const OFF_INPUT_DATA: usize = 6;

pub const OFF_REQUEST_ID: usize = 4;

pub const OFF_REQUEST_RNUM: usize = 8;

pub const OFF_REQUEST_RTYPE: usize = 9;

pub const OFF_REPLY_ERR: usize = 8;

pub const OFF_GET_REPLY_SIZE: usize = 10;

pub const OFF_GET_REPLY_DATA: usize = 12;

/// A full-size, zeroed event. The kernel copies `min(len, sizeof(event))`, so
/// always writing the whole structure is both simplest and exact.
pub type Buffer = [u8; EVENT_SIZE];

/// An event received from the kernel.
#[derive(Debug, Clone, Copy, PartialEq, Eq, Structural)]
pub enum Event {
    /// The driver is being attached; sent part-way through the probe.
    Start,
    /// The kernel wants the current value of a report.
    GetReport { id: u32, rnum: u8, rtype: u8 },
    /// The kernel wants to set a report.
    SetReport { id: u32 },
    /// Anything that needs no answer: stop, open, close, output.
    Ignored,
}

/// The greatest index, at most `n`, at which `bytes` may be cut without
/// splitting a character.
pub open spec fn boundary(bytes: Seq<u8>, n: nat) -> nat
    decreases n,
{
    if n == 0 || vstd::utf8::is_char_boundary(bytes, n as int) {
        n
    } else {
        boundary(bytes, (n - 1) as nat)
    }
}

/// `value` in UTF-8, cut to at most `room` bytes between two characters.
pub open spec fn truncated(value: Seq<char>, room: nat) -> Seq<u8> {
    let bytes = vstd::utf8::encode_utf8(value);
    bytes.take(boundary(bytes, if bytes.len() <= room { bytes.len() } else { room }) as int)
}

/// A string field of `len` bytes: `value` in UTF-8, cut so that at least one
/// NUL follows it, and NUL up to the end.
pub open spec fn str_field(value: Seq<char>, len: nat) -> Seq<u8>
    recommends
        len > 0,
{
    let text = truncated(value, (len - 1) as nat);
    text + crate::bytes::zeros((len - text.len()) as nat)
}

/// The event received in `buf`.
pub open spec fn event_of(buf: Seq<u8>) -> Event {
    let kind = crate::bytes::ne_value(buf.subrange(OFF_TYPE as int, OFF_TYPE + 4));
    let id = crate::bytes::ne_value(buf.subrange(OFF_REQUEST_ID as int, OFF_REQUEST_ID + 4));
    if kind == UHID_START {
        Event::Start
    } else if kind == UHID_GET_REPORT {
        Event::GetReport {
            id: id as u32,
            rnum: buf[OFF_REQUEST_RNUM as int],
            rtype: buf[OFF_REQUEST_RTYPE as int],
        }
    } else if kind == UHID_SET_REPORT {
        Event::SetReport { id: id as u32 }
    } else {
        Event::Ignored
    }
}

/// An event of type `kind` whose fields are all zero.
pub open spec fn blank_event(kind: u32) -> Seq<u8> {
    crate::bytes::ne_u32(kind) + crate::bytes::zeros((EVENT_SIZE - 4) as nat)
}

/// The `UHID_CREATE2` event, field by field: type, name, phys, uniq, rd_size,
/// bus, vendor, product, version and country, rd_data.
pub open spec fn create2_event(
    name: Seq<char>,
    phys: Seq<char>,
    uniq: Seq<char>,
    vendor: u32,
    product: u32,
    descriptor: Seq<u8>,
) -> Seq<u8> {
    crate::bytes::ne_u32(UHID_CREATE2) + str_field(name, LEN_NAME as nat) + str_field(
        phys,
        LEN_PHYS as nat,
    ) + str_field(uniq, LEN_UNIQ as nat) + crate::bytes::ne_u16(descriptor.len() as u16)
        + crate::bytes::ne_u16(BUS_VIRTUAL) + crate::bytes::ne_u32(vendor) + crate::bytes::ne_u32(
        product,
    ) + crate::bytes::zeros(8) + descriptor + crate::bytes::zeros(
        (RD_DATA_MAX - descriptor.len()) as nat,
    )
}

/// The `UHID_INPUT2` event, field by field: type, size, data.
pub open spec fn input2_event(report: Seq<u8>) -> Seq<u8> {
    crate::bytes::ne_u32(UHID_INPUT2) + crate::bytes::ne_u16(report.len() as u16) + report
        + crate::bytes::zeros((EVENT_SIZE - OFF_INPUT_DATA - report.len()) as nat)
}

/// The `UHID_GET_REPORT_REPLY` event, field by field: type, id, err, size,
/// data. Without a report the error is `EIO` and there is no data.
pub open spec fn get_report_reply_event(id: u32, report: Option<Seq<u8>>) -> Seq<u8> {
    let err: u16 = if report is Some { 0 } else { EIO };
    let data = if report is Some { report->0 } else { Seq::empty() };
    crate::bytes::ne_u32(UHID_GET_REPORT_REPLY) + crate::bytes::ne_u32(id) + crate::bytes::ne_u16(
        err,
    ) + crate::bytes::ne_u16(data.len() as u16) + data + crate::bytes::zeros(
        (EVENT_SIZE - OFF_GET_REPLY_DATA - data.len()) as nat,
    )
}

/// The `UHID_SET_REPORT_REPLY` event, field by field: type, id, err.
pub open spec fn set_report_reply_event(id: u32) -> Seq<u8> {
    crate::bytes::ne_u32(UHID_SET_REPORT_REPLY) + crate::bytes::ne_u32(id) + crate::bytes::ne_u16(
        EIO,
    ) + crate::bytes::zeros((EVENT_SIZE - OFF_REPLY_ERR - 2) as nat)
}

/// The event that the kernel put in `buf`.
pub fn decode(buf: &Buffer) -> (event: Event)
    ensures
        event == event_of(buf@),
{
    let kind: u32 = get_u32(buf, OFF_TYPE);
    if kind == UHID_START {
        Event::Start
    } else if kind == UHID_GET_REPORT {
        Event::GetReport {
            id: get_u32(buf, OFF_REQUEST_ID),
            rnum: buf[OFF_REQUEST_RNUM],
            rtype: buf[OFF_REQUEST_RTYPE],
        }
    } else if kind == UHID_SET_REPORT {
        Event::SetReport { id: get_u32(buf, OFF_REQUEST_ID) }
    } else {
        // Stop, open, close, output, and whatever the kernel adds next.
        Event::Ignored
    }
}

/// A zeroed event of type `kind`.
pub fn blank(kind: u32) -> (event: Buffer)
    ensures
        event@ == blank_event(kind),
{
    let mut event: Buffer = [0u8; EVENT_SIZE];
    proof {
        assert(event@ =~= Seq::<u8>::empty() + crate::bytes::zeros(EVENT_SIZE as nat));
        crate::bytes::lemma_append(
            Seq::empty(),
            EVENT_SIZE as nat,
            crate::bytes::ne_u32(kind),
        );
        assert(Seq::<u8>::empty() + crate::bytes::ne_u32(kind) =~= crate::bytes::ne_u32(kind));
    }
    put_u32(&mut event, OFF_TYPE, kind);
    event
}

/// The length of a report, if an event can carry it.
pub fn payload_len(data: &[u8]) -> (len: Result<u16, Error>)
    ensures
        match len {
            Ok(len) => data@.len() <= DATA_MAX && len == data@.len(),
            Err(error) => data@.len() > DATA_MAX && error.is_invalid(
                "report exceeds UHID_DATA_MAX"@,
            ),
        },
{
    if data.len() <= DATA_MAX {
        Ok(data.len() as u16)
    } else {
        Err(invalid("report exceeds UHID_DATA_MAX"))
    }
}

/// Copies `value` into a fixed-size, NUL-padded field, truncating on a `char`
/// boundary so the kernel never sees a partial UTF-8 sequence. An identity is
/// validated before it gets here, so the truncation is a backstop.
pub fn put_str(field: &mut [u8], value: &str)
    requires
        old(field)@.len() > 0,
    ensures
        final(field)@ == crate::bytes::overwrite(
            old(field)@,
            0,
            truncated(value@, (old(field)@.len() - 1) as nat),
        ),
{
    let bytes = value.as_bytes();
    let room: usize = field.len() - 1;
    let mut end: usize = if bytes.len() < room { bytes.len() } else { room };
    let ghost start = end;
    while end > 0 && !value.is_char_boundary(end)
        invariant
            end <= start <= bytes@.len(),
            bytes@ == vstd::utf8::encode_utf8(value@),
            boundary(bytes@, start as nat) == boundary(bytes@, end as nat),
        decreases end,
    {
        end = end - 1;
    }
    put_bytes(field, 0, &bytes[0..end]);
}

/// [`put_str`] on the field of `len` bytes at `offset`.
fn put_str_field(event: &mut Buffer, offset: usize, len: usize, value: &str)
    requires
        0 < len <= EVENT_SIZE,
        offset <= EVENT_SIZE - len,
    ensures
        final(event)@ == crate::bytes::overwrite(
            old(event)@,
            offset as int,
            truncated(value@, (len - 1) as nat),
        ),
{
    let whole: &mut [u8] = event;
    let (_before, rest) = whole.split_at_mut(offset);
    let (field, _after) = rest.split_at_mut(len);
    put_str(field, value);
}

/// The cut is never longer than the room there is.
proof fn lemma_truncated_fits(value: Seq<char>, room: nat)
    ensures
        truncated(value, room).len() <= room,
        truncated(value, room).len() <= vstd::utf8::encode_utf8(value).len(),
{
    let bytes = vstd::utf8::encode_utf8(value);
    lemma_boundary_below(bytes, if bytes.len() <= room { bytes.len() } else { room });
}

proof fn lemma_boundary_below(bytes: Seq<u8>, n: nat)
    ensures
        boundary(bytes, n) <= n,
    decreases n,
{
    if n != 0 && !vstd::utf8::is_char_boundary(bytes, n as int) {
        lemma_boundary_below(bytes, (n - 1) as nat);
    }
}

/// Writing `text` right after `head`, into bytes that are still zero, appends
/// a field of `len` bytes that holds it.
proof fn lemma_append_field(head: Seq<u8>, room: nat, text: Seq<u8>, len: nat)
    requires
        text.len() <= len <= room,
    ensures
        crate::bytes::overwrite(head + crate::bytes::zeros(room), head.len() as int, text) == head
            + (text + crate::bytes::zeros((len - text.len()) as nat)) + crate::bytes::zeros(
            (room - len) as nat,
        ),
{
    assert(crate::bytes::overwrite(head + crate::bytes::zeros(room), head.len() as int, text)
        =~= head + (text + crate::bytes::zeros((len - text.len()) as nat)) + crate::bytes::zeros(
        (room - len) as nat,
    ));
}

/// Creates the device called `name`, at `phys`, with the unique ID `uniq` and
/// the given report descriptor.
pub fn create2(
    name: &str,
    phys: &str,
    uniq: &str,
    vendor: u32,
    product: u32,
    descriptor: &[u8],
) -> (event: Result<Buffer, Error>)
    ensures
        match event {
            Ok(event) => descriptor@.len() <= RD_DATA_MAX && event@ == create2_event(
                name@,
                phys@,
                uniq@,
                vendor,
                product,
                descriptor@,
            ),
            Err(error) => descriptor@.len() > RD_DATA_MAX && error.is_invalid(
                "report descriptor exceeds HID_MAX_DESCRIPTOR_SIZE"@,
            ),
        },
{
    if descriptor.len() > RD_DATA_MAX {
        return Err(invalid("report descriptor exceeds HID_MAX_DESCRIPTOR_SIZE"));
    }
    let size: u16 = descriptor.len() as u16;

    let mut event: Buffer = blank(UHID_CREATE2);
    let ghost mut head = crate::bytes::ne_u32(UHID_CREATE2);
    let ghost mut room = (EVENT_SIZE - 4) as nat;

    put_str_field(&mut event, OFF_CREATE_NAME, LEN_NAME, name);
    proof {
        let text = truncated(name@, (LEN_NAME - 1) as nat);
        lemma_truncated_fits(name@, (LEN_NAME - 1) as nat);
        lemma_append_field(head, room, text, LEN_NAME as nat);
        head = head + str_field(name@, LEN_NAME as nat);
        room = (room - LEN_NAME) as nat;
    }
    put_str_field(&mut event, OFF_CREATE_PHYS, LEN_PHYS, phys);
    proof {
        let text = truncated(phys@, (LEN_PHYS - 1) as nat);
        lemma_truncated_fits(phys@, (LEN_PHYS - 1) as nat);
        lemma_append_field(head, room, text, LEN_PHYS as nat);
        head = head + str_field(phys@, LEN_PHYS as nat);
        room = (room - LEN_PHYS) as nat;
    }
    put_str_field(&mut event, OFF_CREATE_UNIQ, LEN_UNIQ, uniq);
    proof {
        let text = truncated(uniq@, (LEN_UNIQ - 1) as nat);
        lemma_truncated_fits(uniq@, (LEN_UNIQ - 1) as nat);
        lemma_append_field(head, room, text, LEN_UNIQ as nat);
        head = head + str_field(uniq@, LEN_UNIQ as nat);
        room = (room - LEN_UNIQ) as nat;
    }
    put_u16(&mut event, OFF_CREATE_RD_SIZE, size);
    proof {
        crate::bytes::lemma_append(head, room, crate::bytes::ne_u16(size));
        head = head + crate::bytes::ne_u16(size);
        room = (room - 2) as nat;
    }
    put_u16(&mut event, OFF_CREATE_BUS, BUS_VIRTUAL);
    proof {
        crate::bytes::lemma_append(head, room, crate::bytes::ne_u16(BUS_VIRTUAL));
        head = head + crate::bytes::ne_u16(BUS_VIRTUAL);
        room = (room - 2) as nat;
    }
    put_u32(&mut event, OFF_CREATE_VENDOR, vendor);
    proof {
        crate::bytes::lemma_append(head, room, crate::bytes::ne_u32(vendor));
        head = head + crate::bytes::ne_u32(vendor);
        room = (room - 4) as nat;
    }
    put_u32(&mut event, OFF_CREATE_PRODUCT, product);
    proof {
        crate::bytes::lemma_append(head, room, crate::bytes::ne_u32(product));
        head = head + crate::bytes::ne_u32(product);
        room = (room - 4) as nat;
        // Version and country stay zero.
        assert(head + crate::bytes::zeros(room) =~= head + crate::bytes::zeros(8)
            + crate::bytes::zeros((room - 8) as nat));
        head = head + crate::bytes::zeros(8);
        room = (room - 8) as nat;
    }
    put_bytes(&mut event, OFF_CREATE_RD_DATA, descriptor);
    proof {
        crate::bytes::lemma_append(head, room, descriptor@);
    }
    Ok(event)
}

/// Removes the device.
pub fn destroy() -> (event: Buffer)
    ensures
        event@ == blank_event(UHID_DESTROY),
{
    blank(UHID_DESTROY)
}

/// Carries the input report `report`, whose first byte is the report ID.
pub fn input2(report: &[u8]) -> (event: Result<Buffer, Error>)
    ensures
        match event {
            Ok(event) => report@.len() <= DATA_MAX && event@ == input2_event(report@),
            Err(error) => report@.len() > DATA_MAX && error.is_invalid(
                "report exceeds UHID_DATA_MAX"@,
            ),
        },
{
    let size: u16 = match payload_len(report) {
        Ok(size) => size,
        Err(error) => return Err(error),
    };
    let mut event: Buffer = blank(UHID_INPUT2);
    let ghost mut head = crate::bytes::ne_u32(UHID_INPUT2);
    put_u16(&mut event, OFF_INPUT_SIZE, size);
    proof {
        crate::bytes::lemma_append(head, (EVENT_SIZE - 4) as nat, crate::bytes::ne_u16(size));
        head = head + crate::bytes::ne_u16(size);
    }
    put_bytes(&mut event, OFF_INPUT_DATA, report);
    proof {
        crate::bytes::lemma_append(head, (EVENT_SIZE - 6) as nat, report@);
    }
    Ok(event)
}

/// Answers a `GET_REPORT`. With `None` the request is refused with `EIO`.
///
/// The kernel expects the report ID as the first byte of the data, the same
/// convention `hid_hw_raw_request()` uses: `hid-input` reads the level from
/// the byte that follows it.
pub fn get_report_reply(id: u32, report: Option<&[u8]>) -> (event: Result<Buffer, Error>)
    ensures
        match (event, report) {
            (Ok(event), Some(report)) => report@.len() <= DATA_MAX && event@
                == get_report_reply_event(id, Some(report@)),
            (Err(error), Some(report)) => report@.len() > DATA_MAX && error.is_invalid(
                "report exceeds UHID_DATA_MAX"@,
            ),
            (Ok(event), None) => event@ == get_report_reply_event(id, None),
            (Err(_), None) => false,
        },
{
    let mut event: Buffer = blank(UHID_GET_REPORT_REPLY);
    let ghost mut head = crate::bytes::ne_u32(UHID_GET_REPORT_REPLY);
    put_u32(&mut event, OFF_REQUEST_ID, id);
    proof {
        crate::bytes::lemma_append(head, (EVENT_SIZE - 4) as nat, crate::bytes::ne_u32(id));
        head = head + crate::bytes::ne_u32(id);
    }
    let ghost mut room = (EVENT_SIZE - 8) as nat;
    match report {
        Some(report) => {
            let size: u16 = match payload_len(report) {
                Ok(size) => size,
                Err(error) => return Err(error),
            };
            proof {
                // The error stays zero.
                assert(head + crate::bytes::zeros(room) =~= head + crate::bytes::ne_u16(0)
                    + crate::bytes::zeros((room - 2) as nat));
                head = head + crate::bytes::ne_u16(0);
                room = (room - 2) as nat;
            }
            put_u16(&mut event, OFF_GET_REPLY_SIZE, size);
            proof {
                crate::bytes::lemma_append(head, room, crate::bytes::ne_u16(size));
                head = head + crate::bytes::ne_u16(size);
                room = (room - 2) as nat;
            }
            put_bytes(&mut event, OFF_GET_REPLY_DATA, report);
            proof {
                crate::bytes::lemma_append(head, room, report@);
            }
        },
        None => {
            put_u16(&mut event, OFF_REPLY_ERR, EIO);
            proof {
                crate::bytes::lemma_append(head, room, crate::bytes::ne_u16(EIO));
                head = head + crate::bytes::ne_u16(EIO);
                room = (room - 2) as nat;
                // The size stays zero.
                assert(head + crate::bytes::zeros(room) =~= get_report_reply_event(id, None));
            }
        },
    }
    Ok(event)
}

/// Refuses a `SET_REPORT`: nothing on a battery is writable.
pub fn set_report_reply(id: u32) -> (event: Buffer)
    ensures
        event@ == set_report_reply_event(id),
{
    let mut event: Buffer = blank(UHID_SET_REPORT_REPLY);
    let ghost mut head = crate::bytes::ne_u32(UHID_SET_REPORT_REPLY);
    put_u32(&mut event, OFF_REQUEST_ID, id);
    proof {
        crate::bytes::lemma_append(head, (EVENT_SIZE - 4) as nat, crate::bytes::ne_u32(id));
        head = head + crate::bytes::ne_u32(id);
    }
    put_u16(&mut event, OFF_REPLY_ERR, EIO);
    proof {
        crate::bytes::lemma_append(head, (EVENT_SIZE - 8) as nat, crate::bytes::ne_u16(EIO));
    }
    event
}

/// How many bytes of a field come before its first NUL.
pub open spec fn c_len(field: Seq<u8>) -> nat
    decreases field.len(),
{
    if field.len() == 0 || field[0] == 0 {
        0
    } else {
        1 + c_len(field.drop_first())
    }
}

/// The string that the kernel finds in a field.
pub open spec fn c_string(field: Seq<u8>) -> Seq<u8> {
    field.take(c_len(field) as int)
}

proof fn lemma_c_len(field: Seq<u8>, n: nat)
    requires
        n < field.len(),
        forall|i: int| 0 <= i < n ==> field[i] != 0,
        field[n as int] == 0,
    ensures
        c_len(field) == n,
    decreases n,
{
    if n > 0 {
        lemma_c_len(field.drop_first(), (n - 1) as nat);
    }
}

proof fn lemma_c_string_holds_no_nul(field: Seq<u8>)
    ensures
        c_len(field) <= field.len(),
        forall|i: int| 0 <= i < c_string(field).len() ==> c_string(field)[i] != 0,
    decreases field.len(),
{
    if field.len() != 0 && field[0] != 0 {
        let rest = field.drop_first();
        lemma_c_string_holds_no_nul(rest);
        assert forall|i: int| 0 <= i < c_string(field).len() implies c_string(field)[i] != 0 by {
            if i > 0 {
                assert(c_string(field)[i] == c_string(rest)[i - 1]);
            }
        }
    }
}

proof fn lemma_scalar_has_nul(c: char)
    ensures
        (c == '\0') <==> vstd::utf8::encode_scalar(c as u32).contains(0u8),
{
    let scalar = c as u32;
    let bytes = vstd::utf8::encode_scalar(scalar);
    assert(scalar <= 0x7f ==> (scalar & 0x7f) as u8 == scalar) by (bit_vector);
    assert(0xC0u8 | ((scalar >> 6) & 0x1F) as u8 != 0) by (bit_vector);
    assert(0xE0u8 | ((scalar >> 12) & 0x0F) as u8 != 0) by (bit_vector);
    assert(0xF0u8 | ((scalar >> 18) & 0x7) as u8 != 0) by (bit_vector);
    assert(0x80u8 | (scalar & 0x3F) as u8 != 0) by (bit_vector);
    assert(0x80u8 | ((scalar >> 6) & 0x3F) as u8 != 0) by (bit_vector);
    assert(0x80u8 | ((scalar >> 12) & 0x3F) as u8 != 0) by (bit_vector);
    if c == '\0' {
        assert(bytes[0] == 0);
    }
}

/// UTF-8 writes a NUL byte for a NUL character and for nothing else.
proof fn lemma_utf8_has_nul(value: Seq<char>)
    ensures
        value.contains('\0') <==> vstd::utf8::encode_utf8(value).contains(0u8),
    decreases value.len(),
{
    let bytes = vstd::utf8::encode_utf8(value);
    if value.len() != 0 {
        let first = vstd::utf8::encode_scalar(value[0] as u32);
        let rest = vstd::utf8::encode_utf8(value.drop_first());
        lemma_scalar_has_nul(value[0]);
        lemma_utf8_has_nul(value.drop_first());
        assert(bytes == first + rest);
        if value.contains('\0') {
            let i = choose|i: int| 0 <= i < value.len() && value[i] == '\0';
            if i > 0 {
                assert(value.drop_first()[i - 1] == '\0');
                let j = choose|j: int| 0 <= j < rest.len() && rest[j] == 0u8;
                assert(bytes[first.len() + j] == 0u8);
            } else {
                let j = choose|j: int| 0 <= j < first.len() && first[j] == 0u8;
                assert(bytes[j] == 0u8);
            }
        }
        if bytes.contains(0u8) {
            let j = choose|j: int| 0 <= j < bytes.len() && bytes[j] == 0u8;
            if j < first.len() {
                assert(first[j] == 0u8);
                assert(value[0] == '\0');
            } else {
                assert(rest[j - first.len()] == 0u8);
                let i = choose|i: int|
                    0 <= i < value.drop_first().len() && value.drop_first()[i] == '\0';
                assert(value[i + 1] == '\0');
            }
        }
    }
}

/// A string reaches the kernel as it is if, and only if, it is shorter than its
/// field and holds no NUL; any other string is altered on the way.
pub proof fn law_a_string_arrives_whole_iff_it_fits(value: Seq<char>, len: nat)
    requires
        len > 0,
    ensures
        str_field(value, len).len() == len,
        (vstd::utf8::encode_utf8(value).len() < len && !value.contains('\0')) <==> c_string(
            str_field(value, len),
        ) == vstd::utf8::encode_utf8(value),
{
    let bytes = vstd::utf8::encode_utf8(value);
    let text = truncated(value, (len - 1) as nat);
    let field = str_field(value, len);
    lemma_truncated_fits(value, (len - 1) as nat);
    lemma_utf8_has_nul(value);
    lemma_c_string_holds_no_nul(field);
    vstd::utf8::encode_utf8_valid_utf8(value);
    vstd::utf8::is_char_boundary_start_end_of_seq(bytes);
    if bytes.len() < len {
        assert(text =~= bytes);
        if !value.contains('\0') {
            assert forall|i: int| 0 <= i < bytes.len() implies field[i] != 0 by {
                assert(bytes.contains(bytes[i]));
            }
            lemma_c_len(field, bytes.len());
            assert(c_string(field) =~= bytes);
        } else {
            let j = choose|j: int| 0 <= j < bytes.len() && bytes[j] == 0u8;
            assert(bytes[j] == 0u8);
        }
    } else {
        assert(field[len - 1] == 0);
        if c_string(field) == bytes {
            assert(c_string(field)[len - 1] == field[len - 1]);
        }
    }
}

/// The backstop never splits a character: what is left of a string that is cut
/// is UTF-8 and the beginning of the string, and one more character would not
/// have fitted.
pub proof fn law_a_cut_string_keeps_whole_characters(value: Seq<char>, room: nat)
    ensures
        vstd::utf8::valid_utf8(truncated(value, room)),
        truncated(value, room).is_prefix_of(vstd::utf8::encode_utf8(value)),
        truncated(value, room).len() <= room,
        forall|end: int|
            truncated(value, room).len() < end <= room && end
                <= vstd::utf8::encode_utf8(value).len()
                ==> !#[trigger] vstd::utf8::is_char_boundary(vstd::utf8::encode_utf8(value), end),
{
    let bytes = vstd::utf8::encode_utf8(value);
    let n = if bytes.len() <= room {
        bytes.len()
    } else {
        room
    };
    vstd::utf8::encode_utf8_valid_utf8(value);
    vstd::utf8::is_char_boundary_start_end_of_seq(bytes);
    lemma_truncated_fits(value, room);
    lemma_boundary_is_greatest(bytes, n);
    let end = boundary(bytes, n) as int;
    vstd::utf8::valid_utf8_split(bytes, end);
    assert(bytes.subrange(0, end) =~= truncated(value, room));
}

proof fn lemma_boundary_is_greatest(bytes: Seq<u8>, n: nat)
    requires
        vstd::utf8::is_char_boundary(bytes, 0),
    ensures
        boundary(bytes, n) <= n,
        vstd::utf8::is_char_boundary(bytes, boundary(bytes, n) as int),
        forall|end: int|
            boundary(bytes, n) < end <= n ==> !#[trigger] vstd::utf8::is_char_boundary(bytes, end),
    decreases n,
{
    if n != 0 && !vstd::utf8::is_char_boundary(bytes, n as int) {
        lemma_boundary_is_greatest(bytes, (n - 1) as nat);
    }
}

/// Every field of the event that creates a device lies where the kernel expects
/// it, and the event is as large as the kernel's structure.
pub proof fn law_create2_layout(
    name: Seq<char>,
    phys: Seq<char>,
    uniq: Seq<char>,
    vendor: u32,
    product: u32,
    descriptor: Seq<u8>,
)
    requires
        descriptor.len() <= RD_DATA_MAX,
    ensures
        ({
            let event = create2_event(name, phys, uniq, vendor, product, descriptor);
            let at = |offset: usize, len: nat| event.subrange(offset as int, offset + len);
            &&& event.len() == EVENT_SIZE
            &&& at(OFF_TYPE, 4) == crate::bytes::ne_u32(UHID_CREATE2)
            &&& at(OFF_CREATE_NAME, LEN_NAME as nat) == str_field(name, LEN_NAME as nat)
            &&& at(OFF_CREATE_PHYS, LEN_PHYS as nat) == str_field(phys, LEN_PHYS as nat)
            &&& at(OFF_CREATE_UNIQ, LEN_UNIQ as nat) == str_field(uniq, LEN_UNIQ as nat)
            &&& at(OFF_CREATE_RD_SIZE, 2) == crate::bytes::ne_u16(descriptor.len() as u16)
            &&& at(OFF_CREATE_BUS, 2) == crate::bytes::ne_u16(BUS_VIRTUAL)
            &&& at(OFF_CREATE_VENDOR, 4) == crate::bytes::ne_u32(vendor)
            &&& at(OFF_CREATE_PRODUCT, 4) == crate::bytes::ne_u32(product)
            &&& at(OFF_CREATE_RD_DATA, descriptor.len()) == descriptor
        }),
{
    law_a_string_arrives_whole_iff_it_fits(name, LEN_NAME as nat);
    law_a_string_arrives_whole_iff_it_fits(phys, LEN_PHYS as nat);
    law_a_string_arrives_whole_iff_it_fits(uniq, LEN_UNIQ as nat);
    let event = create2_event(name, phys, uniq, vendor, product, descriptor);
    assert(event.subrange(0, 4) =~= crate::bytes::ne_u32(UHID_CREATE2));
    assert(event.subrange(4, 132) =~= str_field(name, LEN_NAME as nat));
    assert(event.subrange(132, 196) =~= str_field(phys, LEN_PHYS as nat));
    assert(event.subrange(196, 260) =~= str_field(uniq, LEN_UNIQ as nat));
    assert(event.subrange(260, 262) =~= crate::bytes::ne_u16(descriptor.len() as u16));
    assert(event.subrange(262, 264) =~= crate::bytes::ne_u16(BUS_VIRTUAL));
    assert(event.subrange(264, 268) =~= crate::bytes::ne_u32(vendor));
    assert(event.subrange(268, 272) =~= crate::bytes::ne_u32(product));
    assert(event.subrange(280, 280 + descriptor.len() as int) =~= descriptor);
}

/// An input report lies where the kernel expects it, behind its type and size.
pub proof fn law_input2_layout(report: Seq<u8>)
    requires
        report.len() <= DATA_MAX,
    ensures
        ({
            let event = input2_event(report);
            &&& event.len() == EVENT_SIZE
            &&& event.subrange(0, 4) == crate::bytes::ne_u32(UHID_INPUT2)
            &&& event.subrange(4, 6) == crate::bytes::ne_u16(report.len() as u16)
            &&& event.subrange(6, 6 + report.len() as int) == report
        }),
{
    let event = input2_event(report);
    assert(event.subrange(0, 4) =~= crate::bytes::ne_u32(UHID_INPUT2));
    assert(event.subrange(4, 6) =~= crate::bytes::ne_u16(report.len() as u16));
    assert(event.subrange(6, 6 + report.len() as int) =~= report);
}

/// A reply holds its type, the ID of its request, and either the report or
/// `EIO`.
pub proof fn law_replies_carry_the_request_id(id: u32, report: Seq<u8>)
    requires
        report.len() <= DATA_MAX,
    ensures
        ({
            let served = get_report_reply_event(id, Some(report));
            let unserved = get_report_reply_event(id, None);
            let refused = set_report_reply_event(id);
            &&& served.len() == EVENT_SIZE
            &&& served.subrange(0, 4) == crate::bytes::ne_u32(UHID_GET_REPORT_REPLY)
            &&& served.subrange(4, 8) == crate::bytes::ne_u32(id)
            &&& served.subrange(8, 10) == crate::bytes::ne_u16(0)
            &&& served.subrange(10, 12) == crate::bytes::ne_u16(report.len() as u16)
            &&& served.subrange(12, 12 + report.len() as int) == report
            &&& unserved.len() == EVENT_SIZE
            &&& unserved.subrange(0, 4) == crate::bytes::ne_u32(UHID_GET_REPORT_REPLY)
            &&& unserved.subrange(4, 8) == crate::bytes::ne_u32(id)
            &&& unserved.subrange(8, 10) == crate::bytes::ne_u16(EIO)
            &&& refused.len() == EVENT_SIZE
            &&& refused.subrange(0, 4) == crate::bytes::ne_u32(UHID_SET_REPORT_REPLY)
            &&& refused.subrange(4, 8) == crate::bytes::ne_u32(id)
            &&& refused.subrange(8, 10) == crate::bytes::ne_u16(EIO)
        }),
{
    let served = get_report_reply_event(id, Some(report));
    let unserved = get_report_reply_event(id, None);
    let refused = set_report_reply_event(id);
    assert(served.subrange(0, 4) =~= crate::bytes::ne_u32(UHID_GET_REPORT_REPLY));
    assert(served.subrange(4, 8) =~= crate::bytes::ne_u32(id));
    assert(served.subrange(8, 10) =~= crate::bytes::ne_u16(0));
    assert(served.subrange(10, 12) =~= crate::bytes::ne_u16(report.len() as u16));
    assert(served.subrange(12, 12 + report.len() as int) =~= report);
    assert(unserved.subrange(0, 4) =~= crate::bytes::ne_u32(UHID_GET_REPORT_REPLY));
    assert(unserved.subrange(4, 8) =~= crate::bytes::ne_u32(id));
    assert(unserved.subrange(8, 10) =~= crate::bytes::ne_u16(EIO));
    assert(refused.subrange(0, 4) =~= crate::bytes::ne_u32(UHID_SET_REPORT_REPLY));
    assert(refused.subrange(4, 8) =~= crate::bytes::ne_u32(id));
    assert(refused.subrange(8, 10) =~= crate::bytes::ne_u16(EIO));
}

/// A request is read the way the kernel writes it: type, ID, report number and
/// report type, whatever follows. A type that asks for nothing is ignored.
pub proof fn law_requests_are_decoded(kind: u32, id: u32, rnum: u8, rtype: u8, rest: Seq<u8>)
    ensures
        event_of(
            crate::bytes::ne_u32(kind) + crate::bytes::ne_u32(id) + seq![rnum, rtype] + rest,
        ) == if kind == UHID_START {
            Event::Start
        } else if kind == UHID_GET_REPORT {
            Event::GetReport { id, rnum, rtype }
        } else if kind == UHID_SET_REPORT {
            Event::SetReport { id }
        } else {
            Event::Ignored
        },
{
    let buf = crate::bytes::ne_u32(kind) + crate::bytes::ne_u32(id) + seq![rnum, rtype] + rest;
    crate::bytes::law_u32_reads_back(kind);
    crate::bytes::law_u32_reads_back(id);
    assert(buf.subrange(0, 4) =~= crate::bytes::ne_u32(kind));
    assert(buf.subrange(4, 8) =~= crate::bytes::ne_u32(id));
}

/// A string field holds the string, cut if it has to be, and then NULs up to its
/// end, of which there is at least one.
pub proof fn law_a_string_field_is_padded(value: Seq<char>, len: nat)
    requires
        len > 0,
    ensures
        ({
            let field = str_field(value, len);
            let text = truncated(value, (len - 1) as nat);
            &&& field.len() == len
            &&& text.len() < len
            &&& field.take(text.len() as int) == text
            &&& forall|i: int| text.len() <= i < len ==> #[trigger] field[i] == 0
        }),
{
    lemma_truncated_fits(value, (len - 1) as nat);
    let text = truncated(value, (len - 1) as nat);
    assert(str_field(value, len).take(text.len() as int) =~= text);
}

/// A string with room to spare is not cut at all.
pub proof fn law_a_string_that_fits_is_not_cut(value: Seq<char>, room: nat)
    requires
        vstd::utf8::encode_utf8(value).len() <= room,
    ensures
        truncated(value, room) == vstd::utf8::encode_utf8(value),
{
    let bytes = vstd::utf8::encode_utf8(value);
    vstd::utf8::encode_utf8_valid_utf8(value);
    vstd::utf8::is_char_boundary_start_end_of_seq(bytes);
    assert(truncated(value, room) =~= bytes);
}

/// The event that creates a device, byte for byte as `struct uhid_create2_req`
/// has it after the type 11: name, phys and uniq in 128, 64 and 64 bytes, the
/// size of the descriptor, the virtual bus, vendor, product, zeros for version
/// and country, the descriptor, and zeros for the rest of the 4376 bytes.
pub proof fn law_create2_bytes(
    name: Seq<char>,
    phys: Seq<char>,
    uniq: Seq<char>,
    vendor: u32,
    product: u32,
    descriptor: Seq<u8>,
)
    requires
        descriptor.len() <= 4096,
    ensures
        ({
            let event = create2_event(name, phys, uniq, vendor, product, descriptor);
            &&& event.len() == 4376
            &&& event.subrange(0, 4) == crate::bytes::ne_u32(11)
            &&& event.subrange(4, 132) == str_field(name, 128)
            &&& event.subrange(132, 196) == str_field(phys, 64)
            &&& event.subrange(196, 260) == str_field(uniq, 64)
            &&& event.subrange(260, 262) == crate::bytes::ne_u16(descriptor.len() as u16)
            &&& event.subrange(262, 264) == crate::bytes::ne_u16(6)
            &&& event.subrange(264, 268) == crate::bytes::ne_u32(vendor)
            &&& event.subrange(268, 272) == crate::bytes::ne_u32(product)
            &&& forall|i: int| 272 <= i < 280 ==> #[trigger] event[i] == 0
            &&& event.subrange(280, 280 + descriptor.len() as int) == descriptor
            &&& forall|i: int| 280 + descriptor.len() <= i < 4376 ==> #[trigger] event[i] == 0
        }),
{
    law_create2_layout(name, phys, uniq, vendor, product, descriptor);
    law_a_string_field_is_padded(name, 128);
    law_a_string_field_is_padded(phys, 64);
    law_a_string_field_is_padded(uniq, 64);
}

/// The event that carries an input report: the type 12, the size, the report,
/// and zeros for the rest of the 4376 bytes.
pub proof fn law_input2_bytes(report: Seq<u8>)
    requires
        report.len() <= 4096,
    ensures
        ({
            let event = input2_event(report);
            &&& event.len() == 4376
            &&& event.subrange(0, 4) == crate::bytes::ne_u32(12)
            &&& event.subrange(4, 6) == crate::bytes::ne_u16(report.len() as u16)
            &&& event.subrange(6, 6 + report.len() as int) == report
            &&& forall|i: int| 6 + report.len() <= i < 4376 ==> #[trigger] event[i] == 0
        }),
{
    law_input2_layout(report);
}

/// The event that answers a request for a report: the type 10, the ID of the
/// request, and either no error, the size and the report, or `EIO` and nothing;
/// zeros for the rest of the 4376 bytes.
pub proof fn law_get_report_reply_bytes(id: u32, report: Seq<u8>)
    requires
        report.len() <= 4096,
    ensures
        ({
            let served = get_report_reply_event(id, Some(report));
            &&& served.len() == 4376
            &&& served.subrange(0, 4) == crate::bytes::ne_u32(10)
            &&& served.subrange(4, 8) == crate::bytes::ne_u32(id)
            &&& served[8] == 0 && served[9] == 0
            &&& served.subrange(10, 12) == crate::bytes::ne_u16(report.len() as u16)
            &&& served.subrange(12, 12 + report.len() as int) == report
            &&& forall|i: int| 12 + report.len() <= i < 4376 ==> #[trigger] served[i] == 0
        }),
        ({
            let refused = get_report_reply_event(id, None);
            &&& refused.len() == 4376
            &&& refused.subrange(0, 4) == crate::bytes::ne_u32(10)
            &&& refused.subrange(4, 8) == crate::bytes::ne_u32(id)
            &&& refused.subrange(8, 10) == crate::bytes::ne_u16(5)
            &&& forall|i: int| 10 <= i < 4376 ==> #[trigger] refused[i] == 0
        }),
{
    law_replies_carry_the_request_id(id, report);
    let served = get_report_reply_event(id, Some(report));
    assert(crate::bytes::ne_u16(0) =~= seq![0u8, 0u8]);
    assert(served[8] == served.subrange(8, 10)[0]);
    assert(served[9] == served.subrange(8, 10)[1]);
}

/// The event that answers a request to set a report: the type 14, the ID of the
/// request, `EIO`, and zeros for the rest of the 4376 bytes.
pub proof fn law_set_report_reply_bytes(id: u32)
    ensures
        ({
            let refused = set_report_reply_event(id);
            &&& refused.len() == 4376
            &&& refused.subrange(0, 4) == crate::bytes::ne_u32(14)
            &&& refused.subrange(4, 8) == crate::bytes::ne_u32(id)
            &&& refused.subrange(8, 10) == crate::bytes::ne_u16(5)
            &&& forall|i: int| 10 <= i < 4376 ==> #[trigger] refused[i] == 0
        }),
{
    law_replies_carry_the_request_id(id, Seq::empty());
}

/// An event without fields is its type and zeros for the rest of the 4376 bytes;
/// the one that removes a device is of type 1.
pub proof fn law_blank_bytes(kind: u32)
    ensures
        UHID_DESTROY == 1,
        ({
            let event = blank_event(kind);
            &&& event.len() == 4376
            &&& event.subrange(0, 4) == crate::bytes::ne_u32(kind)
            &&& forall|i: int| 4 <= i < 4376 ==> #[trigger] event[i] == 0
        }),
{
    assert(blank_event(kind).subrange(0, 4) =~= crate::bytes::ne_u32(kind));
}

/// Whatever the kernel sends is told by its first four bytes: 2 is a start, 9
/// asks for a report, 13 asks to set one, and everything else asks for nothing.
/// A request has its ID in the next four bytes, and one for a report has the
/// number of the report and its type in the two after them.
pub proof fn law_events_are_told_by_their_type(buf: Seq<u8>)
    requires
        buf.len() >= 10,
    ensures
        ({
            let kind = buf.subrange(0, 4);
            let event = event_of(buf);
            &&& kind == crate::bytes::ne_u32(2) <==> event == Event::Start
            &&& kind == crate::bytes::ne_u32(9) <==> event is GetReport
            &&& kind == crate::bytes::ne_u32(13) <==> event is SetReport
            &&& event matches Event::GetReport { id, rnum, rtype } ==> {
                &&& buf.subrange(4, 8) == crate::bytes::ne_u32(id)
                &&& buf[8] == rnum
                &&& buf[9] == rtype
            }
            &&& event matches Event::SetReport { id } ==> buf.subrange(4, 8)
                == crate::bytes::ne_u32(id)
        }),
{
    crate::bytes::law_u32_writes_back(buf.subrange(0, 4));
    crate::bytes::law_u32_writes_back(buf.subrange(4, 8));
    crate::bytes::law_u32_reads_back(2);
    crate::bytes::law_u32_reads_back(9);
    crate::bytes::law_u32_reads_back(13);
}

/// An event is built for every report and descriptor of at most 4096 bytes and
/// for no longer one, which is refused as invalid; and what is built holds what
/// was handed in.
pub proof fn law_what_fits_is_sent(
    id: u32,
    data: &[u8],
    pushed: Result<Buffer, Error>,
    replied: Result<Buffer, Error>,
    refused: Result<Buffer, Error>,
    created: Result<Buffer, Error>,
    name: &str,
    phys: &str,
    uniq: &str,
    vendor: u32,
    product: u32,
)
    requires
        call_ensures(input2, (data,), pushed),
        call_ensures(get_report_reply, (id, Some(data)), replied),
        call_ensures(get_report_reply, (id, None), refused),
        call_ensures(create2, (name, phys, uniq, vendor, product, data), created),
    ensures
        pushed is Ok <==> data@.len() <= 4096,
        replied is Ok <==> data@.len() <= 4096,
        created is Ok <==> data@.len() <= 4096,
        refused is Ok,
        pushed matches Ok(event) ==> event@ == input2_event(data@),
        replied matches Ok(event) ==> event@ == get_report_reply_event(id, Some(data@)),
        refused matches Ok(event) ==> event@ == get_report_reply_event(id, None),
        created matches Ok(event) ==> event@ == create2_event(
            name@,
            phys@,
            uniq@,
            vendor,
            product,
            data@,
        ),
        pushed matches Err(error) ==> error.is_invalid("report exceeds UHID_DATA_MAX"@),
        replied matches Err(error) ==> error.is_invalid("report exceeds UHID_DATA_MAX"@),
        created matches Err(error) ==> error.is_invalid(
            "report descriptor exceeds HID_MAX_DESCRIPTOR_SIZE"@,
        ),
{
}

} // verus!
