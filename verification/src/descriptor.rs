//! HID report descriptors that make `hid-input` register a battery.
//!
//! Three rules, each learned from `drivers/hid/hid-input.c` refusing to
//! cooperate:
//!
//! * The top-level collection must be an *input application*
//!   (`IS_INPUT_APPLICATION`: generic desktop, digitizer, consumer control).
//!   Otherwise `hidinput_connect()` returns before looking at a single field,
//!   and the device gets a hidraw node and nothing else.
//! * The device must end up with a populated input node, or it is torn down
//!   again ("No inputs registered, leaving") and the battery goes with it.
//! * `Battery Strength` (Generic Device Controls, usage `0x20`) registers the
//!   power supply; `Charging` (Battery System, usage `0x44`) flips its status.
//!   The strength comes first in its report: when the kernel has to *ask* for
//!   the level it reads the byte right after the report ID.

use vstd::prelude::*;
use vstd::string::*;

verus! {

/// What the desktop should take the device for.
///
/// UPower types a HID battery after its sibling input node, so the kind decides
/// which input usages the descriptor declares next to the battery.
#[derive(Debug, Clone, Copy, PartialEq, Eq, Hash, Structural)]
pub enum Kind {
    /// A pointer: udev tags the input node `ID_INPUT_MOUSE` and UPower reports
    /// a mouse. The pointer is never moved.
    Mouse,
    /// No recognisable input class: UPower reports a plain battery.
    Generic,
    /// As [`Kind::Generic`] on the wire. There is no input class for headsets;
    /// UPower only gets there through a sibling node tagged like a sound card,
    /// which takes the udev rule from [`Kind::udev_rule`].
    Headset,
}

/// The battery fields shared by every descriptor: a level from 0 to 100, then
/// a charging bit. Each descriptor pads the rest of the byte itself.
pub const BATTERY_FIELDS: [u8; 25] = [
    0x05, 0x06, //       Usage Page (Generic Device Controls)
    0x09, 0x20, //       Usage (Battery Strength)
    0x15, 0x00, //       Logical Minimum (0)
    0x26, 0x64, 0x00, // Logical Maximum (100)
    0x75, 0x08, //       Report Size (8)
    0x95, 0x01, //       Report Count (1)
    0x81, 0x02, //       Input (Data, Variable, Absolute)
    0x05, 0x85, //       Usage Page (Battery System)
    0x09, 0x44, //       Usage (Charging)
    0x25, 0x01, //       Logical Maximum (1)
    0x75, 0x01, //       Report Size (1)
    0x81, 0x02, //       Input (Data, Variable, Absolute)
];

/// One Mouse application, up to the battery: report 1 is a minimal pointer that
/// is never sent, there so the input node is populated and tagged
/// `ID_INPUT_MOUSE`; report 2 is the battery.
pub const MOUSE_HEAD: [u8; 53] = [
    0x05, 0x01, // Usage Page (Generic Desktop)
    0x09, 0x02, // Usage (Mouse)
    0xa1, 0x01, // Collection (Application)
    0x85, 0x01, //   Report ID (1)
    0x09, 0x01, //   Usage (Pointer)
    0xa1, 0x00, //   Collection (Physical)
    0x05, 0x09, //     Usage Page (Button)
    0x19, 0x01, //     Usage Minimum (1)
    0x29, 0x03, //     Usage Maximum (3)
    0x15, 0x00, //     Logical Minimum (0)
    0x25, 0x01, //     Logical Maximum (1)
    0x75, 0x01, //     Report Size (1)
    0x95, 0x03, //     Report Count (3)
    0x81, 0x02, //     Input (Data, Variable, Absolute)
    0x75, 0x05, //     Report Size (5)
    0x95, 0x01, //     Report Count (1)
    0x81, 0x03, //     Input (Constant) - padding
    0x05, 0x01, //     Usage Page (Generic Desktop)
    0x09, 0x30, //     Usage (X)
    0x09, 0x31, //     Usage (Y)
    0x15, 0x81, //     Logical Minimum (-127)
    0x25, 0x7f, //     Logical Maximum (127)
    0x75, 0x08, //     Report Size (8)
    0x95, 0x02, //     Report Count (2)
    0x81, 0x06, //     Input (Data, Variable, Relative)
    0xc0, //         End Collection
    0x85, 0x02, //   Report ID (2)
];

/// What follows the battery in the Mouse application.
pub const MOUSE_TAIL: [u8; 5] = [
    0x75, 0x07, // Report Size (7)
    0x81, 0x03, // Input (Constant) - padding
    0xc0, //       End Collection
];

/// One Consumer Control application, up to the battery.
pub const GENERIC_HEAD: [u8; 8] = [
    0x05, 0x0c, // Usage Page (Consumer)
    0x09, 0x01, // Usage (Consumer Control)
    0xa1, 0x01, // Collection (Application)
    0x85, 0x01, //   Report ID (1)
];

/// What follows the battery in the Consumer Control application: a single
/// vendor-defined bit.
///
/// The bit is what keeps the input node alive: an unknown one-bit usage is
/// mapped to `BTN_MISC`, which is outside every range systemd's `input_id`
/// looks at, so udev tags the node as nothing in particular. It is never set.
/// The vendor page is `0xff21` because the kernel ignores the usages of
/// `0xff00`, `0xff01`, `0xff09`, `0xff31`, `0xff43`, `0xff7f`, `0xffa0`,
/// `0xffbc` and `0xffd1` instead of mapping them.
pub const GENERIC_TAIL: [u8; 12] = [
    0x06, 0x21, 0xff, // Usage Page (Vendor Defined 0xff21)
    0x09, 0x02, //       Usage (0x02) -> BTN_MISC, never reported
    0x81, 0x02, //       Input (Data, Variable, Absolute)
    0x75, 0x06, //       Report Size (6)
    0x81, 0x03, //       Input (Constant) - padding
    0xc0, //           End Collection
];

/// The Mouse application, whole: [`MOUSE_HEAD`], [`BATTERY_FIELDS`],
/// [`MOUSE_TAIL`].
pub const MOUSE: [u8; 83] = [
    0x05, 0x01, 0x09, 0x02, 0xa1, 0x01, 0x85, 0x01, 0x09, 0x01, 0xa1, 0x00, 0x05, 0x09, 0x19,
    0x01, 0x29, 0x03, 0x15, 0x00, 0x25, 0x01, 0x75, 0x01, 0x95, 0x03, 0x81, 0x02, 0x75, 0x05,
    0x95, 0x01, 0x81, 0x03, 0x05, 0x01, 0x09, 0x30, 0x09, 0x31, 0x15, 0x81, 0x25, 0x7f, 0x75,
    0x08, 0x95, 0x02, 0x81, 0x06, 0xc0, 0x85, 0x02, 0x05, 0x06, 0x09, 0x20, 0x15, 0x00, 0x26,
    0x64, 0x00, 0x75, 0x08, 0x95, 0x01, 0x81, 0x02, 0x05, 0x85, 0x09, 0x44, 0x25, 0x01, 0x75,
    0x01, 0x81, 0x02, 0x75, 0x07, 0x81, 0x03, 0xc0,
];

/// The Consumer Control application, whole: [`GENERIC_HEAD`],
/// [`BATTERY_FIELDS`], [`GENERIC_TAIL`].
pub const GENERIC: [u8; 45] = [
    0x05, 0x0c, 0x09, 0x01, 0xa1, 0x01, 0x85, 0x01, 0x05, 0x06, 0x09, 0x20, 0x15, 0x00, 0x26,
    0x64, 0x00, 0x75, 0x08, 0x95, 0x01, 0x81, 0x02, 0x05, 0x85, 0x09, 0x44, 0x25, 0x01, 0x75,
    0x01, 0x81, 0x02, 0x06, 0x21, 0xff, 0x09, 0x02, 0x81, 0x02, 0x75, 0x06, 0x81, 0x03, 0xc0,
];

/// The udev rule for headsets, up to the `phys` glob.
pub const RULE_HEAD: &'static str =
    "SUBSYSTEM==\"input\", KERNEL==\"input*\", ATTR{phys}==\"";

/// The udev rule for headsets, from the quote that ends the `phys` glob on.
pub const RULE_TAIL: &'static str =
    "\", ENV{SOUND_INITIALIZED}=\"1\", ENV{SOUND_FORM_FACTOR}=\"headset\"";

/// Longest descriptor this module builds.
pub const MAX_LEN: usize = 96;

/// Whether `c` is in the Unicode category of control characters.
pub open spec fn is_control(c: char) -> bool {
    c as u32 <= 0x1f || 0x7f <= c as u32 <= 0x9f
}

/// Whether `phys` can stand between double quotes in a udev rule.
pub open spec fn is_quotable(phys: Seq<char>) -> bool {
    forall|i: int|
        0 <= i < phys.len() ==> (#[trigger] phys[i]) != '"' && !is_control(phys[i])
}

/// The udev rule that makes UPower report a headset for the devices whose
/// `phys` matches the glob `phys`.
pub open spec fn headset_rule(phys: Seq<char>) -> Seq<char> {
    RULE_HEAD@ + phys + RULE_TAIL@
}

impl Kind {
    /// What precedes the battery in the descriptor of this kind.
    pub open spec fn head(self) -> Seq<u8> {
        match self {
            Kind::Mouse => MOUSE_HEAD@,
            Kind::Generic | Kind::Headset => GENERIC_HEAD@,
        }
    }

    /// What follows the battery in the descriptor of this kind.
    pub open spec fn tail(self) -> Seq<u8> {
        match self {
            Kind::Mouse => MOUSE_TAIL@,
            Kind::Generic | Kind::Headset => GENERIC_TAIL@,
        }
    }

    /// The descriptor of this kind: the battery fields, and around them what
    /// makes the kernel take the device for this kind.
    pub open spec fn report_descriptor(self) -> Seq<u8> {
        self.head() + BATTERY_FIELDS@ + self.tail()
    }

    /// ID of the input report carrying the battery.
    pub open spec fn battery_report(self) -> u8 {
        match self {
            Kind::Mouse => 2,
            Kind::Generic | Kind::Headset => 1,
        }
    }

    /// The report descriptor for this kind.
    #[must_use]
    pub fn descriptor(self) -> (descriptor: &'static [u8])
        ensures
            descriptor@ == self.report_descriptor(),
    {
        match self {
            Kind::Mouse => {
                assert(MOUSE@ =~= MOUSE_HEAD@ + BATTERY_FIELDS@ + MOUSE_TAIL@);
                &MOUSE
            },
            Kind::Generic | Kind::Headset => {
                assert(GENERIC@ =~= GENERIC_HEAD@ + BATTERY_FIELDS@ + GENERIC_TAIL@);
                &GENERIC
            },
        }
    }

    /// ID of the input report carrying the battery.
    ///
    /// Recent kernels put it in the power supply's name
    /// (`hid-<uniq>-battery-<id>`), so it is part of what users see.
    #[must_use]
    pub fn report_id(self) -> (id: u8)
        ensures
            id == self.battery_report(),
    {
        match self {
            Kind::Mouse => 2,
            Kind::Generic | Kind::Headset => 1,
        }
    }

    /// The udev rule this kind needs, if any, for devices whose `phys` matches
    /// the glob `phys`.
    ///
    /// Only [`Kind::Headset`] has one. UPower promotes a HID battery to
    /// "headset" when a sibling node carries the properties systemd puts on a
    /// sound card, and it accepts an `input` node as that sibling - which the
    /// virtual device has. Install the rule under `/etc/udev/rules.d`.
    ///
    /// Also `None` when `phys` holds a double quote or a control character:
    /// either would end the match early and let the rest be read as rule text,
    /// in a file that root installs.
    #[must_use]
    pub fn udev_rule(self, phys: &str) -> (rule: Option<String>)
        ensures
            match rule {
                Some(rule) => self == Kind::Headset && is_quotable(phys@) && rule@
                    == headset_rule(phys@),
                None => self != Kind::Headset || !is_quotable(phys@),
            },
    {
        for c in it: phys.chars()
            invariant
                it.seq() == phys@,
                forall|i: int|
                    0 <= i < it.index() ==> (#[trigger] phys@[i]) != '"' && !is_control(phys@[i]),
        {
            let code: u32 = c as u32;
            if c == '"' || code <= 0x1f || (0x7f <= code && code <= 0x9f) {
                assert(phys@[it.index() as int] == c);
                return None;
            }
        }
        if self != Kind::Headset {
            return None;
        }
        let mut rule: String = RULE_HEAD.to_owned();
        rule.append(phys);
        rule.append(RULE_TAIL);
        Some(rule)
    }
}

/// A descriptor assembled from parts, with its length.
pub struct Assembled {
    bytes: [u8; MAX_LEN],
    len: usize,
}

/// The bytes of `parts`, one part after the other.
pub open spec fn joined(parts: Seq<&[u8]>) -> Seq<u8>
    decreases parts.len(),
{
    if parts.len() == 0 {
        Seq::empty()
    } else {
        joined(parts.drop_last()) + parts.last()@
    }
}

impl View for Assembled {
    type V = Seq<u8>;

    closed spec fn view(&self) -> Seq<u8> {
        self.bytes@.take(self.len as int)
    }
}

impl Assembled {
    #[verifier::type_invariant]
    spec fn within_bounds(self) -> bool {
        self.len <= MAX_LEN
    }

    /// The whole room that the bytes were assembled in.
    pub closed spec fn storage(self) -> Seq<u8> {
        self.bytes@
    }

    /// The assembled bytes.
    pub fn as_slice(&self) -> (bytes: &[u8])
        ensures
            bytes@ == self@,
    {
        proof {
            use_type_invariant(self);
        }
        &self.bytes[0..self.len]
    }
}

proof fn lemma_joined_grows(parts: Seq<&[u8]>, n: int)
    requires
        0 <= n <= parts.len(),
    ensures
        joined(parts.take(n)).len() <= joined(parts).len(),
    decreases parts.len(),
{
    if n == parts.len() {
        assert(parts.take(n) =~= parts);
    } else {
        assert(parts.drop_last().take(n) =~= parts.take(n));
        lemma_joined_grows(parts.drop_last(), n);
    }
}

/// Joins the parts of a descriptor. The room that they leave is filled with
/// zeros.
pub fn concat_bytes(parts: &[&[u8]]) -> (assembled: Assembled)
    requires
        joined(parts@).len() <= MAX_LEN,
    ensures
        assembled@ == joined(parts@),
        assembled.storage().len() == MAX_LEN,
        assembled.storage().take(assembled@.len() as int) == assembled@,
        forall|i: int| assembled@.len() <= i < MAX_LEN ==> #[trigger] assembled.storage()[i] == 0,
{
    let mut bytes: [u8; MAX_LEN] = [0u8; MAX_LEN];
    let mut len: usize = 0;
    let mut part: usize = 0;
    while part < parts.len()
        invariant
            part <= parts@.len(),
            joined(parts@).len() <= MAX_LEN,
            len <= MAX_LEN,
            bytes@.take(len as int) == joined(parts@.take(part as int)),
            forall|k: int| len <= k < MAX_LEN ==> bytes@[k] == 0,
        decreases parts@.len() - part,
    {
        let ghost before = len;
        let current: &[u8] = parts[part];
        proof {
            lemma_joined_grows(parts@, part + 1);
            assert(parts@.take(part + 1).drop_last() =~= parts@.take(part as int));
        }
        let mut i: usize = 0;
        while i < current.len()
            invariant
                i <= current@.len(),
                len == before + i,
                before + current@.len() <= MAX_LEN,
                part < parts@.len(),
                bytes@.take(len as int) == joined(parts@.take(part as int)) + current@.take(
                    i as int,
                ),
                forall|k: int| len <= k < MAX_LEN ==> bytes@[k] == 0,
            decreases current@.len() - i,
        {
            let ghost written = bytes@.take(len as int);
            bytes[len] = current[i];
            len = len + 1;
            i = i + 1;
            proof {
                assert(bytes@.take(len as int) =~= written.push(current@[i - 1]));
                assert(current@.take(i as int) =~= current@.take(i - 1).push(current@[i - 1]));
                assert(bytes@.take(len as int) =~= joined(parts@.take(part as int))
                    + current@.take(i as int));
            }
        }
        assert(current@.take(i as int) =~= current@);
        part = part + 1;
    }
    assert(parts@.take(part as int) =~= parts@);
    Assembled { bytes, len }
}

/// Every descriptor opens with an input application, which the kernel wants to
/// see before it looks at a single field: Generic Desktop / Mouse, or Consumer /
/// Consumer Control.
pub proof fn law_opens_with_an_input_application(kind: Kind)
    ensures
        kind.report_descriptor().subrange(0, 6) == match kind {
            Kind::Mouse => seq![0x05u8, 0x01, 0x09, 0x02, 0xa1, 0x01],
            Kind::Generic | Kind::Headset => seq![0x05u8, 0x0c, 0x09, 0x01, 0xa1, 0x01],
        },
{
    assert(kind.report_descriptor().subrange(0, 6) =~= match kind {
        Kind::Mouse => seq![0x05u8, 0x01, 0x09, 0x02, 0xa1, 0x01],
        Kind::Generic | Kind::Headset => seq![0x05u8, 0x0c, 0x09, 0x01, 0xa1, 0x01],
    });
}

/// Whether a battery strength usage starts at `at`.
pub open spec fn strength_at(descriptor: Seq<u8>, at: int) -> bool {
    &&& 0 <= at
    &&& at + 4 <= descriptor.len()
    &&& descriptor[at] == 0x05
    &&& descriptor[at + 1] == 0x06
    &&& descriptor[at + 2] == 0x09
    &&& descriptor[at + 3] == 0x20
}

/// The battery's report ID is the one its descriptor declares: the first
/// battery strength usage comes right after a Report ID item with that ID, so
/// the level is the byte that follows the ID in the report.
pub proof fn law_declares_the_battery_report(kind: Kind)
    ensures
        strength_at(kind.report_descriptor(), kind.head().len() as int),
        forall|at: int|
            at < kind.head().len() ==> !#[trigger] strength_at(kind.report_descriptor(), at),
        kind.report_descriptor()[kind.head().len() - 2] == 0x85,
        kind.report_descriptor()[kind.head().len() - 1] == kind.battery_report(),
{
}

/// A headset's rule holds `phys` whole and as one value: the quote that ends
/// the match is the first one after the glob starts, and no line ends inside
/// the rule.
pub proof fn law_rule_quotes_phys(phys: Seq<char>)
    requires
        is_quotable(phys),
    ensures
        ({
            let rule = headset_rule(phys);
            let start = RULE_HEAD@.len() as int;
            let end = start + phys.len();
            &&& RULE_HEAD@.last() == '"'
            &&& rule.subrange(start, end) == phys
            &&& rule[end] == '"'
            &&& forall|i: int| start <= i < end ==> #[trigger] rule[i] != '"'
            &&& forall|i: int| 0 <= i < rule.len() ==> !is_control(#[trigger] rule[i])
        }),
{
    reveal_strlit("SUBSYSTEM==\"input\", KERNEL==\"input*\", ATTR{phys}==\"");
    reveal_strlit("\", ENV{SOUND_INITIALIZED}=\"1\", ENV{SOUND_FORM_FACTOR}=\"headset\"");
    let rule = headset_rule(phys);
    let start = RULE_HEAD@.len() as int;
    let end = start + phys.len();
    assert(rule.subrange(start, end) =~= phys);
    assert forall|i: int| 0 <= i < rule.len() implies !is_control(#[trigger] rule[i]) by {
        if i < start {
            assert(rule[i] == RULE_HEAD@[i]);
        } else if i < end {
            assert(rule[i] == phys[i - start]);
        } else {
            assert(rule[i] == RULE_TAIL@[i - end]);
        }
    }
}

/// A headset's rule is the match on `phys` and the two properties of a sound
/// card, with `phys` in between as it is.
pub proof fn law_the_words_of_the_rule(phys: Seq<char>)
    ensures
        headset_rule(phys) == "SUBSYSTEM==\"input\", KERNEL==\"input*\", ATTR{phys}==\""@ + phys
            + "\", ENV{SOUND_INITIALIZED}=\"1\", ENV{SOUND_FORM_FACTOR}=\"headset\""@,
{
}

/// A glob can be quoted exactly when none of its characters is a double quote,
/// below U+0020, or from U+007F to U+009F.
pub proof fn law_what_can_be_quoted(phys: Seq<char>)
    ensures
        is_quotable(phys) <==> forall|i: int|
            0 <= i < phys.len() ==> {
                let c = #[trigger] phys[i];
                c != '"' && (' ' <= c && c <= '~' || '\u{a0}' <= c)
            },
{
    if is_quotable(phys) {
        assert forall|i: int| 0 <= i < phys.len() implies {
            let c = #[trigger] phys[i];
            c != '"' && (' ' <= c && c <= '~' || '\u{a0}' <= c)
        } by {
            lemma_control_range(phys[i]);
        }
    }
    if forall|i: int|
        0 <= i < phys.len() ==> {
            let c = #[trigger] phys[i];
            c != '"' && (' ' <= c && c <= '~' || '\u{a0}' <= c)
        } {
        assert forall|i: int| 0 <= i < phys.len() implies (#[trigger] phys[i]) != '"'
            && !is_control(phys[i]) by {
            lemma_control_range(phys[i]);
        }
    }
}

proof fn lemma_control_range(c: char)
    ensures
        is_control(c) <==> !(' ' <= c && c <= '~' || '\u{a0}' <= c),
{
}

/// The mouse's battery is in report 2, every other battery in report 1.
pub proof fn law_the_report_of_each_kind(kind: Kind)
    ensures
        kind == Kind::Mouse ==> kind.battery_report() == 2,
        kind != Kind::Mouse ==> kind.battery_report() == 1,
{
}

/// Joining is concatenation: no part gives no bytes, one part gives its own, and
/// two lists of parts give the bytes of the first and then those of the second.
pub proof fn law_joining_concatenates(a: Seq<&[u8]>, b: Seq<&[u8]>, part: &[u8])
    ensures
        joined(Seq::empty()).len() == 0,
        joined(seq![part]) == part@,
        joined(a + b) == joined(a) + joined(b),
    decreases b.len(),
{
    reveal_with_fuel(joined, 2);
    assert(seq![part].drop_last() =~= Seq::<&[u8]>::empty());
    assert(joined(seq![part]) =~= part@);
    if b.len() == 0 {
        assert(a + b =~= a);
        assert(joined(a) + joined(b) =~= joined(a));
    } else {
        law_joining_concatenates(a, b.drop_last(), part);
        assert((a + b).drop_last() =~= a + b.drop_last());
        assert((joined(a) + joined(b.drop_last())) + b.last()@ =~= joined(a) + (joined(
            b.drop_last(),
        ) + b.last()@));
    }
}

/// A rule is given exactly for a headset whose glob has no double quote and no
/// control character, and it is the headset's rule for that glob.
pub proof fn law_only_headsets_have_a_rule(kind: Kind, phys: &str, rule: Option<String>)
    requires
        call_ensures(Kind::udev_rule, (kind, phys), rule),
    ensures
        rule is Some <==> kind == Kind::Headset && forall|i: int|
            0 <= i < phys@.len() ==> {
                let c = #[trigger] phys@[i];
                c != '"' && (' ' <= c && c <= '~' || '\u{a0}' <= c)
            },
        rule is Some ==> rule->0@ == headset_rule(phys@),
{
    law_what_can_be_quoted(phys@);
}

} // verus!
