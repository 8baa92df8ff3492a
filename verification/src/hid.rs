//! What a HID report descriptor declares, as far as the descriptors here need
//! it: short items, and the input fields that they add up to.

use vstd::prelude::*;

verus! {

/// What is in force when a main item is met: the global items, the local items
/// since the last main item, and how many collections are open.
#[verifier::ext_equal]
pub struct Context {
    /// Usage page.
    pub page: int,
    /// Report ID.
    pub report: int,
    /// Logical minimum.
    pub minimum: int,
    /// Logical maximum.
    pub maximum: int,
    /// Report size: the bits of one value.
    pub size: int,
    /// Report count: the number of values.
    pub count: int,
    /// The usages, in order.
    pub usages: Seq<int>,
    /// Usage minimum, where a range of usages starts.
    pub first: Option<int>,
    /// Usage maximum, where a range of usages ends.
    pub last: Option<int>,
    /// How many collections are open.
    pub depth: int,
}

/// An input field that a descriptor declares.
#[verifier::ext_equal]
pub struct Field {
    /// What was in force.
    pub context: Context,
    /// Whether it is constant, there for padding alone.
    pub padding: bool,
}

impl Context {
    /// What is in force before the first item.
    pub open spec fn initial() -> Context {
        Context {
            page: 0,
            report: 0,
            minimum: 0,
            maximum: 0,
            size: 0,
            count: 0,
            usages: Seq::empty(),
            first: None,
            last: None,
            depth: 0,
        }
    }

    /// What is left in force after a main item, which uses the local items up.
    pub open spec fn past_main_item(self) -> Context {
        Context { usages: Seq::empty(), first: None, last: None, ..self }
    }
}

/// The type and tag of the item at `at`: its first byte without the size bits.
pub open spec fn item_tag(descriptor: Seq<u8>, at: int) -> int {
    descriptor[at] - descriptor[at] as int % 4
}

/// How many bytes of data the item at `at` has.
pub open spec fn item_size(descriptor: Seq<u8>, at: int) -> int {
    if descriptor[at] as int % 4 == 3 {
        4
    } else {
        descriptor[at] as int % 4
    }
}

/// The data of the item at `at`, least significant byte first.
pub open spec fn item_data(descriptor: Seq<u8>, at: int) -> int {
    let size = item_size(descriptor, at);
    if size == 0 {
        0
    } else if size == 1 {
        descriptor[at + 1] as int
    } else if size == 2 {
        descriptor[at + 1] + 256 * descriptor[at + 2]
    } else {
        descriptor[at + 1] + 256 * descriptor[at + 2] + 65536 * descriptor[at + 3] + 16777216
            * descriptor[at + 4]
    }
}

/// `size` bytes of data, read as a signed integer.
pub open spec fn signed(size: int, data: int) -> int {
    if size == 1 && data >= 0x80 {
        data - 0x100
    } else if size == 2 && data >= 0x8000 {
        data - 0x1_0000
    } else if size == 4 && data >= 0x8000_0000 {
        data - 0x1_0000_0000
    } else {
        data
    }
}

/// What is in force after an item with this tag and `size` bytes of data: a
/// global item (usage page, logical minimum and maximum, report size, ID and
/// count), a local item (usage, usage minimum and maximum), or a main item
/// (input, output, feature, collection, end of collection).
pub open spec fn after(context: Context, tag: int, size: int, data: int) -> Context {
    if tag == 0x04 {
        Context { page: data, ..context }
    } else if tag == 0x14 {
        Context { minimum: signed(size, data), ..context }
    } else if tag == 0x24 {
        Context { maximum: signed(size, data), ..context }
    } else if tag == 0x74 {
        Context { size: data, ..context }
    } else if tag == 0x84 {
        Context { report: data, ..context }
    } else if tag == 0x94 {
        Context { count: data, ..context }
    } else if tag == 0x08 {
        Context { usages: context.usages.push(data), ..context }
    } else if tag == 0x18 {
        Context { first: Some(data), ..context }
    } else if tag == 0x28 {
        Context { last: Some(data), ..context }
    } else if tag == 0x80 || tag == 0x90 || tag == 0xb0 {
        context.past_main_item()
    } else if tag == 0xa0 {
        Context { depth: context.depth + 1, ..context.past_main_item() }
    } else if tag == 0xc0 {
        Context { depth: context.depth - 1, ..context.past_main_item() }
    } else {
        context
    }
}

/// The input fields that a descriptor declares from `at` on, and what is in
/// force at its end.
pub open spec fn walk(descriptor: Seq<u8>, at: int, context: Context) -> (Seq<Field>, Context)
    decreases
            if at < descriptor.len() {
                descriptor.len() - at
            } else {
                0
            },
{
    if at < 0 || at >= descriptor.len() {
        (Seq::empty(), context)
    } else {
        let tag = item_tag(descriptor, at);
        let size = item_size(descriptor, at);
        let data = item_data(descriptor, at);
        let (rest, end) = walk(descriptor, at + 1 + size, after(context, tag, size, data));
        if tag == 0x80 {
            (seq![Field { context, padding: data % 2 == 1 }] + rest, end)
        } else {
            (rest, end)
        }
    }
}

/// The bits that those of the first `n` fields add up to that are in `report`.
pub open spec fn report_bits(fields: Seq<Field>, n: int, report: int) -> int
    decreases n,
{
    if n <= 0 {
        0
    } else {
        let context = fields[n - 1].context;
        report_bits(fields, n - 1, report) + if context.report == report {
            context.size * context.count
        } else {
            0
        }
    }
}

/// Walks over an item with one byte of data that declares no field.
proof fn item(d: Seq<u8>, at: int, context: Context, prefix: u8, data: u8) -> (next: Context)
    requires
        0 <= at,
        at + 2 <= d.len(),
        d[at] == prefix,
        d[at + 1] == data,
        prefix as int % 4 == 1,
        prefix != 0x81,
    ensures
        next == after(context, prefix - 1, 1, data as int),
        walk(d, at, context) == walk(d, at + 2, next),
{
    after(context, prefix - 1, 1, data as int)
}

/// Walks over an Input item.
proof fn input(d: Seq<u8>, at: int, context: Context, data: u8) -> (next: Context)
    requires
        0 <= at,
        at + 2 <= d.len(),
        d[at] == 0x81,
        d[at + 1] == data,
    ensures
        next == context.past_main_item(),
        walk(d, at, context).0 == seq![Field { context, padding: data as int % 2 == 1 }] + walk(
            d,
            at + 2,
            next,
        ).0,
        walk(d, at, context).1 == walk(d, at + 2, next).1,
{
    context.past_main_item()
}

/// Walks over an item with two bytes of data that declares no field.
proof fn wide_item(
    d: Seq<u8>,
    at: int,
    context: Context,
    prefix: u8,
    low: u8,
    high: u8,
) -> (next: Context)
    requires
        0 <= at,
        at + 3 <= d.len(),
        d[at] == prefix,
        d[at + 1] == low,
        d[at + 2] == high,
        prefix as int % 4 == 2,
        prefix != 0x82,
    ensures
        next == after(context, prefix - 2, 2, low + 256 * high),
        walk(d, at, context) == walk(d, at + 3, next),
{
    after(context, prefix - 2, 2, low + 256 * high)
}

/// Walks over the end of a collection.
proof fn end_collection(d: Seq<u8>, at: int, context: Context) -> (next: Context)
    requires
        0 <= at < d.len(),
        d[at] == 0xc0,
    ensures
        next == after(context, 0xc0, 0, 0),
        walk(d, at, context) == walk(d, at + 1, next),
{
    after(context, 0xc0, 0, 0)
}

/// The field for the level: `Battery Strength`, one byte, from 0 to 100.
pub open spec fn strength(report: int) -> Context {
    Context {
        page: 0x06,
        report,
        minimum: 0,
        maximum: 100,
        size: 8,
        count: 1,
        usages: seq![0x20],
        first: None,
        last: None,
        depth: 1,
    }
}

/// The field for the charging bit: `Charging`, one bit.
pub open spec fn charging(report: int) -> Context {
    Context { page: 0x85, maximum: 1, size: 1, usages: seq![0x44], ..strength(report) }
}

/// The battery fields declare the level and then the charging bit, for
/// whichever report they are in.
proof fn lemma_battery_fields(d: Seq<u8>, b: int, c: Context)
    requires
        0 <= b,
        b + 25 <= d.len(),
        forall|i: int|
            b <= i < b + 25 ==> #[trigger] d[i] == crate::descriptor::BATTERY_FIELDS@[i - b],
        c == c.past_main_item(),
        c.depth == 1,
    ensures
        ({
            let next = charging(c.report).past_main_item();
            &&& walk(d, b, c).0 == seq![
                Field { context: strength(c.report), padding: false },
                Field { context: charging(c.report), padding: false },
            ] + walk(d, b + 25, next).0
            &&& walk(d, b, c).1 == walk(d, b + 25, next).1
        }),
{
    let report = c.report;
    let c = item(d, b, c, 0x05, 0x06);
    let c = item(d, b + 2, c, 0x09, 0x20);
    let c = item(d, b + 4, c, 0x15, 0x00);
    let c = wide_item(d, b + 6, c, 0x26, 0x64, 0x00);
    let c = item(d, b + 9, c, 0x75, 0x08);
    let c = item(d, b + 11, c, 0x95, 0x01);
    let c = input(d, b + 13, c, 0x02);
    let c = item(d, b + 15, c, 0x05, 0x85);
    let c = item(d, b + 17, c, 0x09, 0x44);
    let c = item(d, b + 19, c, 0x25, 0x01);
    let c = item(d, b + 21, c, 0x75, 0x01);
    let c = input(d, b + 23, c, 0x02);
    assert(c == charging(report).past_main_item());
}

/// The input fields of the descriptor of each kind: for the mouse a pointer in
/// report 1, and then for every kind the level and the charging bit in the
/// battery's own report, filled up to two bytes.
pub open spec fn declared_fields(kind: crate::descriptor::Kind) -> Seq<Field> {
    let report = kind.battery_report() as int;
    let battery = seq![
        Field { context: strength(report), padding: false },
        Field { context: charging(report), padding: false },
    ];
    match kind {
        crate::descriptor::Kind::Mouse => {
            let buttons = Context {
                page: 0x09,
                report: 1,
                minimum: 0,
                maximum: 1,
                size: 1,
                count: 3,
                usages: Seq::empty(),
                first: Some(1),
                last: Some(3),
                depth: 2,
            };
            let axes = Context {
                page: 0x01,
                minimum: -127,
                maximum: 127,
                size: 8,
                count: 2,
                usages: seq![0x30, 0x31],
                ..buttons.past_main_item()
            };
            seq![
                Field { context: buttons, padding: false },
                Field {
                    context: Context { size: 5, count: 1, ..buttons.past_main_item() },
                    padding: true,
                },
                Field { context: axes, padding: false },
            ] + battery + seq![
                Field {
                    context: Context { size: 7, ..charging(report).past_main_item() },
                    padding: true,
                },
            ]
        },
        crate::descriptor::Kind::Generic | crate::descriptor::Kind::Headset => {
            let vendor = Context { page: 0xff21, usages: seq![0x02], ..charging(report) };
            battery + seq![
                Field { context: vendor, padding: false },
                Field {
                    context: Context { size: 6, ..vendor.past_main_item() },
                    padding: true,
                },
            ]
        },
    }
}

/// The walk over the Mouse application.
proof fn lemma_mouse(d: Seq<u8>)
    requires
        d == crate::descriptor::Kind::Mouse.report_descriptor(),
    ensures
        walk(d, 0, Context::initial()).0 == declared_fields(crate::descriptor::Kind::Mouse),
        walk(d, 0, Context::initial()).1.depth == 0,
{
    let fields = declared_fields(crate::descriptor::Kind::Mouse);
    let c = Context::initial();
    let c = item(d, 0, c, 0x05, 0x01);
    let c = item(d, 2, c, 0x09, 0x02);
    let c = item(d, 4, c, 0xa1, 0x01);
    let c = item(d, 6, c, 0x85, 0x01);
    let c = item(d, 8, c, 0x09, 0x01);
    let c = item(d, 10, c, 0xa1, 0x00);
    let c = item(d, 12, c, 0x05, 0x09);
    let c = item(d, 14, c, 0x19, 0x01);
    let c = item(d, 16, c, 0x29, 0x03);
    let c = item(d, 18, c, 0x15, 0x00);
    let c = item(d, 20, c, 0x25, 0x01);
    let c = item(d, 22, c, 0x75, 0x01);
    let c = item(d, 24, c, 0x95, 0x03);
    assert(c =~= fields[0].context);
    let c = input(d, 26, c, 0x02);
    let c = item(d, 28, c, 0x75, 0x05);
    let c = item(d, 30, c, 0x95, 0x01);
    assert(c =~= fields[1].context);
    let c = input(d, 32, c, 0x03);
    let c = item(d, 34, c, 0x05, 0x01);
    let c = item(d, 36, c, 0x09, 0x30);
    let c = item(d, 38, c, 0x09, 0x31);
    let c = item(d, 40, c, 0x15, 0x81);
    let c = item(d, 42, c, 0x25, 0x7f);
    let c = item(d, 44, c, 0x75, 0x08);
    let c = item(d, 46, c, 0x95, 0x02);
    assert(c =~= fields[2].context);
    let c = input(d, 48, c, 0x06);
    let c = end_collection(d, 50, c);
    let c = item(d, 51, c, 0x85, 0x02);
    lemma_battery_fields(d, 53, c);
    let c = charging(2).past_main_item();
    let c = item(d, 78, c, 0x75, 0x07);
    assert(c =~= fields[5].context);
    let c = input(d, 80, c, 0x03);
    let c = end_collection(d, 82, c);
    assert(walk(d, 83, c).0 =~= Seq::empty());
    assert(walk(d, 0, Context::initial()).0 =~= declared_fields(
        crate::descriptor::Kind::Mouse,
    ));
}

/// The walk over the Consumer Control application.
proof fn lemma_generic(d: Seq<u8>)
    requires
        d == crate::descriptor::Kind::Generic.report_descriptor(),
    ensures
        walk(d, 0, Context::initial()).0 == declared_fields(crate::descriptor::Kind::Generic),
        walk(d, 0, Context::initial()).1.depth == 0,
{
    let c = Context::initial();
    let c = item(d, 0, c, 0x05, 0x0c);
    let c = item(d, 2, c, 0x09, 0x01);
    let c = item(d, 4, c, 0xa1, 0x01);
    let c = item(d, 6, c, 0x85, 0x01);
    lemma_battery_fields(d, 8, c);
    let c = charging(1).past_main_item();
    let c = wide_item(d, 33, c, 0x06, 0x21, 0xff);
    let c = item(d, 36, c, 0x09, 0x02);
    let c = input(d, 38, c, 0x02);
    let c = item(d, 40, c, 0x75, 0x06);
    let c = input(d, 42, c, 0x03);
    let c = end_collection(d, 44, c);
    assert(walk(d, 45, c).0 =~= Seq::empty());
    assert(walk(d, 0, Context::initial()).0 =~= declared_fields(
        crate::descriptor::Kind::Generic,
    ));
}

/// The descriptor declares the report that is sent: the level comes first in
/// the battery's report, as a byte from 0 to 100, the charging bit follows it,
/// and the report is as long as the fields declared for it. Every collection is
/// closed again.
pub proof fn law_declares_the_report_that_is_sent(battery: crate::battery::BatteryState)
    ensures
        walk(battery.kind.report_descriptor(), 0, Context::initial()).0 == declared_fields(
            battery.kind,
        ),
        walk(battery.kind.report_descriptor(), 0, Context::initial()).1.depth == 0,
        ({
            let fields = declared_fields(battery.kind);
            let report = battery.kind.battery_report() as int;
            report_bits(fields, fields.len() as int, report) == 8 * (battery.report().len() - 1)
        }),
{
    reveal_with_fuel(report_bits, 4);
    let fields = declared_fields(battery.kind);
    let report = battery.kind.battery_report() as int;
    assert forall|i: int|
        0 <= i < fields.len() && (#[trigger] fields[i]).context.report
            == report implies fields[i].context.size * fields[i].context.count
        == fields[i].context.size by {
        let context = fields[i].context;
        assert(context.size * context.count == context.size) by (nonlinear_arith)
            requires
                context.count == 1,
        ;
    }
    match battery.kind {
        crate::descriptor::Kind::Mouse => {
            lemma_mouse(battery.kind.report_descriptor());
            assert(report_bits(fields, 3, report) == 0);
            assert(report_bits(fields, 5, report) == 9);
            assert(report_bits(fields, 6, report) == 16);
        },
        crate::descriptor::Kind::Generic | crate::descriptor::Kind::Headset => {
            lemma_generic(battery.kind.report_descriptor());
            assert(report_bits(fields, 2, report) == 9);
            assert(report_bits(fields, 4, report) == 16);
        },
    }
}

} // verus!
