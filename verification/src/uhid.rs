//! The `/dev/uhid` events of the virtual battery device: the device
//! creation with its HID report descriptor, the battery input report, the
//! answer to the kernel's `GET_REPORT` request, and the destruction.
use vstd::prelude::*;

verus! {

pub const UHID_DESTROY: u32 = 1;

pub const UHID_GET_REPORT: u32 = 9;

pub const UHID_GET_REPORT_REPLY: u32 = 10;

pub const UHID_CREATE2: u32 = 11;

pub const UHID_INPUT2: u32 = 12;

/// Bus type of the virtual device (USB).
pub const BUS_USB: u16 = 0x03;

/// Size of a `UHID_CREATE2` event.
pub const CREATE2_EVENT_LEN: usize = 4376;

/// Size of the buffer an event from the kernel is read into.
pub const EVENT_BUFFER_LEN: usize = 4380;

/// Length of the HID report descriptor.
pub const REPORT_DESCRIPTOR_LEN: usize = 56;

/// Longest device name copied into the creation event (the rest of the
/// 128-byte field stays zero, so the name is terminated).
pub const MAX_NAME_LEN: usize = 127;

/// The byte order of the machine, in which the kernel reads the numbers of
/// uhid events.
#[derive(Debug, Clone, Copy, PartialEq, Eq, Structural)]
pub enum ByteOrder {
    Little,
    Big,
}

/// The four bytes of `v` in byte order `o`.
pub open spec fn u32_bytes(v: u32, o: ByteOrder) -> Seq<u8> {
    let b0 = (v % 256) as u8;
    let b1 = ((v / 256) % 256) as u8;
    let b2 = ((v / 65536) % 256) as u8;
    let b3 = (v / 16777216) as u8;
    match o {
        ByteOrder::Little => seq![b0, b1, b2, b3],
        ByteOrder::Big => seq![b3, b2, b1, b0],
    }
}

/// The two bytes of `v` in byte order `o`.
pub open spec fn u16_bytes(v: u16, o: ByteOrder) -> Seq<u8> {
    let b0 = (v % 256) as u8;
    let b1 = (v / 256) as u8;
    match o {
        ByteOrder::Little => seq![b0, b1],
        ByteOrder::Big => seq![b1, b0],
    }
}

/// The number that four bytes spell in byte order `o`.
pub open spec fn u32_from_bytes(b: Seq<u8>, o: ByteOrder) -> u32 {
    match o {
        ByteOrder::Little => (b[0] + 256 * b[1] + 65536 * b[2] + 16777216 * b[3]) as u32,
        ByteOrder::Big => (b[3] + 256 * b[2] + 65536 * b[1] + 16777216 * b[0]) as u32,
    }
}

/// HID report descriptor: a mouse with one dummy button (so that the kernel
/// claims the device), the Battery System usages AbsoluteStateOfCharge
/// (0..=100) and Charging (0..=1), all in report 1.
pub open spec fn report_descriptor() -> Seq<u8> {
    seq![
        0x05u8, 0x01u8, 0x09u8, 0x02u8, 0xa1u8, 0x01u8, 0x85u8, 0x01u8, 0x05u8, 0x09u8, 0x09u8,
        0x01u8, 0x15u8, 0x00u8, 0x25u8, 0x01u8, 0x75u8, 0x01u8, 0x95u8, 0x01u8, 0x81u8, 0x02u8,
        0x75u8, 0x07u8, 0x95u8, 0x01u8, 0x81u8, 0x03u8, 0x05u8, 0x85u8, 0x09u8, 0x65u8, 0x15u8,
        0x00u8, 0x26u8, 0x64u8, 0x00u8, 0x75u8, 0x08u8, 0x95u8, 0x01u8, 0x81u8, 0x02u8, 0x09u8,
        0x44u8, 0x15u8, 0x00u8, 0x25u8, 0x01u8, 0x75u8, 0x08u8, 0x95u8, 0x01u8, 0x81u8, 0x02u8,
        0xc0u8,
    ]
}

/// The physical path of the virtual device, `uhid/attack-shark-r1`.
pub open spec fn phys_bytes() -> Seq<u8> {
    seq![
        0x75u8, 0x68u8, 0x69u8, 0x64u8, 0x2fu8, 0x61u8, 0x74u8, 0x74u8, 0x61u8, 0x63u8, 0x6bu8,
        0x2du8, 0x73u8, 0x68u8, 0x61u8, 0x72u8, 0x6bu8, 0x2du8, 0x72u8, 0x31u8,
    ]
}

/// `bytes` followed by zeros up to `len` bytes.
pub open spec fn padded(bytes: Seq<u8>, len: nat) -> Seq<u8> {
    bytes + Seq::new((len - bytes.len()) as nat, |i: int| 0u8)
}

/// The name as it goes into the 128-byte name field: at most 127 bytes.
pub open spec fn name_field(name: Seq<u8>) -> Seq<u8> {
    padded(name.take(if name.len() <= 127 { name.len() as int } else { 127 }), 128)
}

/// The `UHID_CREATE2` event: event type, name, physical path, an empty
/// unique id, descriptor size, bus, vendor, product, version 0, country 0,
/// and the descriptor in a 4096-byte field.
pub open spec fn create2_event(name: Seq<u8>, vendor: u32, product: u32, o: ByteOrder) -> Seq<u8> {
    u32_bytes(UHID_CREATE2, o) + name_field(name) + padded(phys_bytes(), 64) + padded(
        Seq::<u8>::empty(),
        64,
    ) + u16_bytes(56, o) + u16_bytes(BUS_USB, o) + u32_bytes(vendor, o) + u32_bytes(product, o)
        + u32_bytes(0, o) + u32_bytes(0, o) + padded(report_descriptor(), 4096)
}

/// The battery percentage the device reports: at most 100.
pub open spec fn clamp_percentage(p: u8) -> u8 {
    if p <= 100 {
        p
    } else {
        100
    }
}

/// Report 1 of the descriptor: report id, button off, charge, charging.
pub open spec fn battery_report_bytes(percentage: u8, charging: bool) -> Seq<u8> {
    seq![0x01u8, 0x00u8, percentage, if charging { 1u8 } else { 0u8 }]
}

/// The `UHID_INPUT2` event that sends the battery state: event type, size
/// 4, and report 1 with the percentage held at 100.
pub open spec fn input2_event(percentage: u8, charging: bool, o: ByteOrder) -> Seq<u8> {
    u32_bytes(UHID_INPUT2, o) + u16_bytes(4, o) + battery_report_bytes(
        clamp_percentage(percentage),
        charging,
    )
}

/// The `UHID_GET_REPORT_REPLY` event answering request `id`: no error,
/// size 4, and report 1 with the current state.
pub open spec fn get_report_reply_event(id: u32, percentage: u8, charging: bool, o: ByteOrder) -> Seq<u8> {
    u32_bytes(UHID_GET_REPORT_REPLY, o) + u32_bytes(id, o) + u16_bytes(0, o) + u16_bytes(4, o)
        + battery_report_bytes(percentage, charging)
}

/// The answer to an event read from the kernel: a `UHID_GET_REPORT`
/// request of at least 10 bytes gets a reply carrying its request id and
/// the current state; anything else gets none.
pub open spec fn answer_to_event(event: Seq<u8>, read_len: nat, percentage: u8, charging: bool, o: ByteOrder) -> Option<Seq<u8>> {
    if read_len >= 10 && u32_from_bytes(event.take(4), o) == UHID_GET_REPORT {
        Some(get_report_reply_event(u32_from_bytes(event.subrange(4, 8), o), percentage, charging, o))
    } else {
        None
    }
}

/// The `UHID_DESTROY` event.
pub open spec fn destroy_event(o: ByteOrder) -> Seq<u8> {
    u32_bytes(UHID_DESTROY, o)
}

/// Appends the four bytes of `x` in byte order `o`.
pub fn push_u32(v: &mut Vec<u8>, x: u32, o: ByteOrder)
    ensures
        final(v)@ == old(v)@ + u32_bytes(x, o),
{
    let b0 = (x % 256) as u8;
    let b1 = ((x / 256) % 256) as u8;
    let b2 = ((x / 65536) % 256) as u8;
    let b3 = (x / 16777216) as u8;
    match o {
        ByteOrder::Little => {
            v.push(b0);
            v.push(b1);
            v.push(b2);
            v.push(b3);
        },
        ByteOrder::Big => {
            v.push(b3);
            v.push(b2);
            v.push(b1);
            v.push(b0);
        },
    }
    assert(final(v)@ =~= old(v)@ + u32_bytes(x, o));
}

/// Appends the two bytes of `x` in byte order `o`.
pub fn push_u16(v: &mut Vec<u8>, x: u16, o: ByteOrder)
    ensures
        final(v)@ == old(v)@ + u16_bytes(x, o),
{
    let b0 = (x % 256) as u8;
    let b1 = (x / 256) as u8;
    match o {
        ByteOrder::Little => {
            v.push(b0);
            v.push(b1);
        },
        ByteOrder::Big => {
            v.push(b1);
            v.push(b0);
        },
    }
    assert(final(v)@ =~= old(v)@ + u16_bytes(x, o));
}

/// Appends `bytes`, then zeros up to `len` bytes.
pub fn push_padded(v: &mut Vec<u8>, bytes: &[u8], len: usize)
    requires
        bytes@.len() <= len,
    ensures
        final(v)@ == old(v)@ + padded(bytes@, len as nat),
{
    let ghost start = v@;
    let mut i: usize = 0;
    while i < len
        invariant
            i <= len,
            bytes@.len() <= len,
            v@ == start + padded(bytes@, len as nat).take(i as int),
        decreases len - i,
    {
        let b = if i < bytes.len() {
            bytes[i]
        } else {
            0u8
        };
        v.push(b);
        assert(padded(bytes@, len as nat).take(i + 1) =~= padded(bytes@, len as nat).take(
            i as int,
        ).push(b));
        i = i + 1;
    }
    assert(padded(bytes@, len as nat).take(len as int) =~= padded(bytes@, len as nat));
}

/// The HID report descriptor.
pub fn battery_report_descriptor() -> (d: [u8; 56])
    ensures
        d@ == report_descriptor(),
{
    let d: [u8; 56] = [
        0x05, 0x01, 0x09, 0x02, 0xa1, 0x01, 0x85, 0x01, 0x05, 0x09, 0x09, 0x01, 0x15, 0x00, 0x25,
        0x01, 0x75, 0x01, 0x95, 0x01, 0x81, 0x02, 0x75, 0x07, 0x95, 0x01, 0x81, 0x03, 0x05, 0x85,
        0x09, 0x65, 0x15, 0x00, 0x26, 0x64, 0x00, 0x75, 0x08, 0x95, 0x01, 0x81, 0x02, 0x09, 0x44,
        0x15, 0x00, 0x25, 0x01, 0x75, 0x08, 0x95, 0x01, 0x81, 0x02, 0xc0,
    ];
    assert(d@ =~= report_descriptor());
    d
}

/// Builds the `UHID_CREATE2` event for a device named `name` with the
/// given vendor and product ids.
pub fn create2_event_bytes(name: &[u8], vendor: u32, product: u32, o: ByteOrder) -> (e: Vec<u8>)
    ensures
        e@ == create2_event(name@, vendor, product, o),
        e@.len() == CREATE2_EVENT_LEN,
{
    let mut e: Vec<u8> = Vec::new();
    push_u32(&mut e, UHID_CREATE2, o);
    let name_len = if name.len() <= MAX_NAME_LEN {
        name.len()
    } else {
        MAX_NAME_LEN
    };
    let mut short_name: Vec<u8> = Vec::new();
    let mut i: usize = 0;
    while i < name_len
        invariant
            i <= name_len <= name@.len(),
            short_name@ == name@.take(i as int),
        decreases name_len - i,
    {
        short_name.push(name[i]);
        assert(short_name@ =~= name@.take(i + 1));
        i = i + 1;
    }
    push_padded(&mut e, short_name.as_slice(), 128);
    let phys: [u8; 20] = [
        0x75, 0x68, 0x69, 0x64, 0x2f, 0x61, 0x74, 0x74, 0x61, 0x63, 0x6b, 0x2d, 0x73, 0x68, 0x61,
        0x72, 0x6b, 0x2d, 0x72, 0x31,
    ];
    assert(phys@ =~= phys_bytes());
    push_padded(&mut e, phys.as_slice(), 64);
    let empty: [u8; 0] = [];
    assert(empty@ =~= Seq::<u8>::empty());
    push_padded(&mut e, empty.as_slice(), 64);
    push_u16(&mut e, REPORT_DESCRIPTOR_LEN as u16, o);
    push_u16(&mut e, BUS_USB, o);
    push_u32(&mut e, vendor, o);
    push_u32(&mut e, product, o);
    push_u32(&mut e, 0, o);
    push_u32(&mut e, 0, o);
    let descriptor = battery_report_descriptor();
    push_padded(&mut e, descriptor.as_slice(), 4096);
    assert(e@ =~= create2_event(name@, vendor, product, o));
    e
}

/// The percentage sent to the kernel: at most 100.
pub fn clamp_battery_percentage(p: u8) -> (r: u8)
    ensures
        r == clamp_percentage(p),
{
    if p <= 100 {
        p
    } else {
        100
    }
}

/// Builds the `UHID_INPUT2` event that sends the battery state.
pub fn input2_event_bytes(percentage: u8, charging: bool, o: ByteOrder) -> (e: Vec<u8>)
    ensures
        e@ == input2_event(percentage, charging, o),
        e@.len() == 10,
{
    let mut e: Vec<u8> = Vec::new();
    push_u32(&mut e, UHID_INPUT2, o);
    push_u16(&mut e, 4, o);
    e.push(0x01);
    e.push(0x00);
    e.push(clamp_battery_percentage(percentage));
    e.push(if charging {
        1u8
    } else {
        0u8
    });
    assert(e@ =~= input2_event(percentage, charging, o));
    e
}

/// Reads four bytes as a number in byte order `o`.
pub fn read_u32(b: &[u8], at: usize, o: ByteOrder) -> (v: u32)
    requires
        at + 4 <= b@.len(),
    ensures
        v == u32_from_bytes(b@.subrange(at as int, at + 4), o),
{
    let b0 = b[at] as u32;
    let b1 = b[at + 1] as u32;
    let b2 = b[at + 2] as u32;
    let b3 = b[at + 3] as u32;
    let ghost s = b@.subrange(at as int, at + 4);
    assert(s[0] == b0 && s[1] == b1 && s[2] == b2 && s[3] == b3);
    match o {
        ByteOrder::Little => b0 + 256 * b1 + 65536 * b2 + 16777216 * b3,
        ByteOrder::Big => b3 + 256 * b2 + 65536 * b1 + 16777216 * b0,
    }
}

/// The answer to an event of `read_len` bytes read from the kernel into
/// `event`, given the current battery state (see `answer_to_event`).
pub fn answer_event(event: &[u8], read_len: usize, percentage: u8, charging: bool, o: ByteOrder) -> (r: Option<Vec<u8>>)
    requires
        read_len <= event@.len(),
    ensures
        match answer_to_event(event@, read_len as nat, percentage, charging, o) {
            Some(reply) => r matches Some(v) && v@ == reply,
            None => r is None,
        },
{
    if read_len < 10 {
        return None;
    }
    let event_type = read_u32(event, 0, o);
    assert(event@.subrange(0, 4) =~= event@.take(4));
    if event_type != UHID_GET_REPORT {
        return None;
    }
    let id = read_u32(event, 4, o);
    let mut e: Vec<u8> = Vec::new();
    push_u32(&mut e, UHID_GET_REPORT_REPLY, o);
    push_u32(&mut e, id, o);
    push_u16(&mut e, 0, o);
    push_u16(&mut e, 4, o);
    e.push(0x01);
    e.push(0x00);
    e.push(percentage);
    e.push(if charging {
        1u8
    } else {
        0u8
    });
    assert(e@ =~= get_report_reply_event(id, percentage, charging, o));
    Some(e)
}

/// Builds the `UHID_DESTROY` event.
pub fn destroy_event_bytes(o: ByteOrder) -> (e: Vec<u8>)
    ensures
        e@ == destroy_event(o),
{
    let mut e: Vec<u8> = Vec::new();
    push_u32(&mut e, UHID_DESTROY, o);
    assert(e@ =~= destroy_event(o));
    e
}

/// The battery state the virtual device reports to the kernel.
#[derive(Debug, Clone, Copy, PartialEq, Eq, Structural)]
pub struct ReportedBattery {
    /// Charge in percent, at most 100.
    pub percentage: u8,
    pub charging: bool,
}

/// The state reported before the first update: full, not charging.
pub open spec fn initial_battery() -> ReportedBattery {
    ReportedBattery { percentage: 100, charging: false }
}

impl ReportedBattery {
    /// The state reported from the device's creation until its first
    /// update.
    pub fn initial() -> (s: ReportedBattery)
        ensures
            s == initial_battery(),
    {
        ReportedBattery { percentage: 100, charging: false }
    }

    /// The state reported after an update with `percentage` and
    /// `charging`: the percentage held at 100.
    pub fn updated(percentage: u8, charging: bool) -> (s: ReportedBattery)
        ensures
            s == (ReportedBattery { percentage: clamp_percentage(percentage), charging }),
    {
        ReportedBattery { percentage: clamp_battery_percentage(percentage), charging }
    }

    /// The answer to an event of `read_len` bytes read from the kernel into
    /// `event`, in this state (see `answer_to_event`).
    pub fn answer(&self, event: &[u8], read_len: usize, o: ByteOrder) -> (r: Option<Vec<u8>>)
        requires
            read_len <= event@.len(),
        ensures
            match answer_to_event(event@, read_len as nat, self.percentage, self.charging, o) {
                Some(reply) => r matches Some(v) && v@ == reply,
                None => r is None,
            },
    {
        answer_event(event, read_len, self.percentage, self.charging, o)
    }
}

/// Four bytes read as a number and written back are the same bytes.
proof fn lemma_u32_bytes_round_trip(b: Seq<u8>, o: ByteOrder)
    requires
        b.len() == 4,
    ensures
        u32_bytes(u32_from_bytes(b, o), o) == b,
{
    let (b0, b1, b2, b3) = (b[0], b[1], b[2], b[3]);
    let (l0, l1, l2, l3) = match o {
        ByteOrder::Little => (b0, b1, b2, b3),
        ByteOrder::Big => (b3, b2, b1, b0),
    };
    let v: u32 = (l0 + 256 * l1 + 65536 * l2 + 16777216 * l3) as u32;
    assert(v == u32_from_bytes(b, o));
    assert(v % 256 == l0 && (v / 256) % 256 == l1 && (v / 65536) % 256 == l2 && v / 16777216
        == l3) by (bit_vector)
        requires
            v == (l0 + 256 * l1 + 65536 * l2 + 16777216 * l3) as u32,
    ;
    assert(u32_bytes(v, o) =~= b);
}

/// Until the first update, a `GET_REPORT` request of at least 10 bytes is
/// answered with a 16-byte reply carrying the request's id and report 1 of
/// a full battery that is not charging; any other event gets no answer.
pub proof fn lemma_initial_reply(event: Seq<u8>, read_len: nat, o: ByteOrder)
    requires
        8 <= event.len(),
    ensures
        answer_to_event(event, read_len, initial_battery().percentage, initial_battery().charging, o)
            == if read_len >= 10 && u32_from_bytes(event.take(4), o) == UHID_GET_REPORT {
            Some(
                u32_bytes(UHID_GET_REPORT_REPLY, o) + event.subrange(4, 8) + u16_bytes(0, o)
                    + u16_bytes(4, o) + seq![1u8, 0u8, 100u8, 0u8],
            )
        } else {
            None::<Seq<u8>>
        },
{
    lemma_u32_bytes_round_trip(event.subrange(4, 8), o);
    let reply = u32_bytes(UHID_GET_REPORT_REPLY, o) + event.subrange(4, 8) + u16_bytes(0, o)
        + u16_bytes(4, o) + seq![1u8, 0u8, 100u8, 0u8];
    assert(get_report_reply_event(u32_from_bytes(event.subrange(4, 8), o), 100, false, o) =~= reply);
}

/// Once the battery state is sent in an input event, the kernel's
/// `GET_REPORT` request is answered with the same report bytes (the
/// percentage held at 100 is what both carry).
pub proof fn lemma_reply_matches_last_input(
    percentage: u8,
    charging: bool,
    event: Seq<u8>,
    read_len: nat,
    o: ByteOrder,
)
    requires
        answer_to_event(event, read_len, clamp_percentage(percentage), charging, o) is Some,
    ensures
        answer_to_event(event, read_len, clamp_percentage(percentage), charging, o).unwrap().len()
            == 16,
        answer_to_event(event, read_len, clamp_percentage(percentage), charging, o).unwrap().skip(
            12,
        ) == input2_event(percentage, charging, o).skip(6),
{
    let reply = answer_to_event(event, read_len, clamp_percentage(percentage), charging, o).unwrap();
    assert(reply.skip(12) =~= input2_event(percentage, charging, o).skip(6));
}

/// The battery input event and the `GET_REPORT` reply end with the
/// charging byte, 1 when charging and 0 when not, whatever the
/// percentage; the byte before it is the percentage, held at 100 in the
/// input event.
pub proof fn lemma_battery_bytes(percentage: u8, charging: bool, id: u32, o: ByteOrder)
    ensures
        input2_event(percentage, charging, o).len() == 10,
        input2_event(percentage, charging, o)[9] == (if charging {
            1u8
        } else {
            0u8
        }),
        input2_event(percentage, charging, o)[8] == (if percentage <= 100 {
            percentage
        } else {
            100u8
        }),
        input2_event(percentage, charging, o)[6] == 1,
        get_report_reply_event(id, percentage, charging, o).len() == 16,
        get_report_reply_event(id, percentage, charging, o)[15] == (if charging {
            1u8
        } else {
            0u8
        }),
        get_report_reply_event(id, percentage, charging, o)[14] == percentage,
        get_report_reply_event(id, percentage, charging, o)[12] == 1,
{
}

/// In any state, a `GET_REPORT` request of at least 10 bytes is answered
/// with a 16-byte reply: the reply type, the request's own id bytes, no
/// error, size 4, and report 1 with the state's percentage and charging
/// byte; any other event, or a shorter one, gets no answer.
pub proof fn lemma_reply_bytes(event: Seq<u8>, read_len: nat, percentage: u8, charging: bool, o: ByteOrder)
    requires
        8 <= event.len(),
    ensures
        answer_to_event(event, read_len, percentage, charging, o) == if read_len >= 10
            && u32_from_bytes(event.take(4), o) == UHID_GET_REPORT {
            Some(
                u32_bytes(UHID_GET_REPORT_REPLY, o) + event.subrange(4, 8) + u16_bytes(0, o)
                    + u16_bytes(4, o) + seq![1u8, 0u8, percentage, if charging { 1u8 } else { 0u8 }],
            )
        } else {
            None::<Seq<u8>>
        },
{
    lemma_u32_bytes_round_trip(event.subrange(4, 8), o);
    let reply = u32_bytes(UHID_GET_REPORT_REPLY, o) + event.subrange(4, 8) + u16_bytes(0, o)
        + u16_bytes(4, o) + seq![1u8, 0u8, percentage, if charging { 1u8 } else { 0u8 }];
    assert(get_report_reply_event(u32_from_bytes(event.subrange(4, 8), o), percentage, charging, o)
        =~= reply);
}

/// A number written as four bytes reads back.
proof fn lemma_u32_read_back(v: u32, o: ByteOrder)
    ensures
        u32_from_bytes(u32_bytes(v, o), o) == v,
{
    assert(v % 256 + 256 * ((v / 256) % 256) + 65536 * ((v / 65536) % 256) + 16777216 * (v
        / 16777216) == v) by (nonlinear_arith);
}

/// The creation event is 4376 bytes: the event type `UHID_CREATE2` in its
/// first four, the name's first 127 bytes at offset 4 with zeros after
/// them up to offset 132, the descriptor size 56, bus, vendor and product
/// at offsets 260, 262, 264 and 268, and the report descriptor at offset
/// 280 followed by zeros.
pub proof fn lemma_create2_layout(name: Seq<u8>, vendor: u32, product: u32, o: ByteOrder)
    ensures
        create2_event(name, vendor, product, o).len() == 4376,
        u32_from_bytes(create2_event(name, vendor, product, o).subrange(0, 4), o) == UHID_CREATE2,
        forall|i: int|
            0 <= i < 128 ==> #[trigger] create2_event(name, vendor, product, o)[4 + i] == if i
                < name.len() && i < 127 {
                name[i]
            } else {
                0u8
            },
        create2_event(name, vendor, product, o).subrange(260, 262) == u16_bytes(56, o),
        create2_event(name, vendor, product, o).subrange(262, 264) == u16_bytes(BUS_USB, o),
        u32_from_bytes(create2_event(name, vendor, product, o).subrange(264, 268), o) == vendor,
        u32_from_bytes(create2_event(name, vendor, product, o).subrange(268, 272), o) == product,
        forall|i: int|
            0 <= i < 4096 ==> #[trigger] create2_event(name, vendor, product, o)[280 + i] == if i
                < 56 {
                report_descriptor()[i]
            } else {
                0u8
            },
{
    let e = create2_event(name, vendor, product, o);
    lemma_u32_read_back(UHID_CREATE2, o);
    lemma_u32_read_back(vendor, o);
    lemma_u32_read_back(product, o);
    assert(e.subrange(0, 4) =~= u32_bytes(UHID_CREATE2, o));
    assert(e.subrange(260, 262) =~= u16_bytes(56, o));
    assert(e.subrange(262, 264) =~= u16_bytes(BUS_USB, o));
    assert(e.subrange(264, 268) =~= u32_bytes(vendor, o));
    assert(e.subrange(268, 272) =~= u32_bytes(product, o));
}

} // verus!
