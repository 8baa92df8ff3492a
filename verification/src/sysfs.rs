//! Finding the power supply the kernel registered for a virtual device.

use vstd::prelude::*;
use vstd::string::*;

use crate::text::{starts_with, to_chars};

verus! {

/// Where the kernel lists its power supplies.
pub const POWER_SUPPLY_CLASS: &'static str = "/sys/class/power_supply";

/// What the name of the power supply of `uniq` starts with.
pub open spec fn supply_prefix(uniq: Seq<char>) -> Seq<char> {
    "hid-"@ + uniq + "-battery"@
}

/// What may follow `hid-<uniq>-battery`: nothing, or `-<report id>`.
pub open spec fn is_suffix(rest: Seq<char>) -> bool {
    rest.len() == 0 || (rest[0] == '-' && crate::text::is_number(rest.skip(1)))
}

/// Whether `name` is what the kernel calls the power supply of `uniq`.
pub open spec fn is_supply_of(name: Seq<char>, uniq: Seq<char>) -> bool {
    &&& supply_prefix(uniq).is_prefix_of(name)
    &&& is_suffix(name.skip(supply_prefix(uniq).len() as int))
}

/// What may follow `hid-<uniq>-battery`: nothing, or `-<report id>`. Anything
/// looser would claim the supply of a device whose unique ID is `<uniq>-battery`.
pub fn is_report_suffix(rest: &str) -> (yes: bool)
    ensures
        yes == is_suffix(rest@),
{
    let text: Vec<char> = to_chars(rest);
    if text.len() == 0 {
        return true;
    }
    if text[0] != '-' || text.len() == 1 {
        return false;
    }
    let ghost id = rest@.skip(1);
    let mut i: usize = 1;
    while i < text.len()
        invariant
            1 <= i <= text@.len(),
            text@ == rest@,
            id == rest@.skip(1),
            forall|j: int| 0 <= j < i - 1 ==> crate::text::is_digit(#[trigger] id[j]),
        decreases text@.len() - i,
    {
        let c: char = text[i];
        if c < '0' || c > '9' {
            assert(!crate::text::is_digit(id[i - 1]));
            return false;
        }
        i = i + 1;
    }
    true
}

/// Whether a power supply of `uniq` is among `names`.
pub open spec fn is_listed(names: Seq<String>, uniq: Seq<char>) -> bool {
    exists|i: int| 0 <= i < names.len() && is_supply_of((#[trigger] names[i])@, uniq)
}

/// Locates the power supply of the device whose unique ID is `uniq` among the
/// names in the power supply class, in the order in which they are listed.
///
/// The name is not stable across kernels: it was `hid-<uniq>-battery` for
/// years, and recent kernels append the report ID (`hid-<uniq>-battery-1`) now
/// that a HID device may carry several batteries. Match on the prefix, and
/// accept nothing after it but that number.
#[must_use]
pub fn find_power_supply(names: &Vec<String>, uniq: &str) -> (found: Option<usize>)
    ensures
        match found {
            Some(i) => {
                &&& i < names@.len()
                &&& is_supply_of(names@[i as int]@, uniq@)
                &&& forall|j: int| 0 <= j < i ==> !is_supply_of(#[trigger] names@[j]@, uniq@)
            },
            None => forall|j: int|
                0 <= j < names@.len() ==> !is_supply_of(#[trigger] names@[j]@, uniq@),
        },
        found is Some == is_listed(names@, uniq@),
{
    let mut prefix: String = "hid-".to_owned();
    prefix.append(uniq);
    prefix.append("-battery");
    let prefix_len: usize = prefix.as_str().unicode_len();
    let mut i: usize = 0;
    while i < names.len()
        invariant
            i <= names@.len(),
            prefix@ == supply_prefix(uniq@),
            prefix_len == prefix@.len(),
            forall|j: int| 0 <= j < i ==> !is_supply_of(#[trigger] names@[j]@, uniq@),
        decreases names@.len() - i,
    {
        let name: &str = names[i].as_str();
        if starts_with(name, prefix.as_str()) {
            let rest: &str = name.substring_char(prefix_len, name.unicode_len());
            assert(rest@ =~= name@.skip(prefix_len as int));
            if is_report_suffix(rest) {
                return Some(i);
            }
        }
        i = i + 1;
    }
    None
}

/// The supply is recognised under both names that kernels have given it: with
/// nothing after `battery`, and with the number of any report.
pub proof fn law_both_names_are_recognised(uniq: Seq<char>, report: nat)
    ensures
        is_supply_of(supply_prefix(uniq), uniq),
        is_supply_of(supply_prefix(uniq) + seq!['-'] + crate::text::digits(report), uniq),
{
    let prefix = supply_prefix(uniq);
    assert(prefix.subrange(0, prefix.len() as int) =~= prefix);
    let name = prefix + seq!['-'] + crate::text::digits(report);
    crate::text::lemma_digits_are_a_number(report);
    assert(name.subrange(0, prefix.len() as int) =~= prefix);
    let rest = name.skip(prefix.len() as int);
    assert(rest.skip(1) =~= crate::text::digits(report));
}

/// No power supply is claimed for two devices: one name belongs to one unique
/// ID at most.
pub proof fn law_a_supply_belongs_to_one_device(name: Seq<char>, a: Seq<char>, b: Seq<char>)
    requires
        is_supply_of(name, a),
        is_supply_of(name, b),
    ensures
        a == b,
{
    reveal_strlit("hid-");
    reveal_strlit("-battery");
    lemma_no_longer(name, a, b);
    lemma_no_longer(name, b, a);
    assert forall|i: int| 0 <= i < a.len() implies a[i] == b[i] by {
        assert(supply_prefix(a)[4 + i] == a[i]);
        assert(supply_prefix(b)[4 + i] == b[i]);
        assert(name.subrange(0, supply_prefix(a).len() as int)[4 + i] == a[i]);
    }
    assert(a =~= b);
}

proof fn lemma_no_longer(name: Seq<char>, a: Seq<char>, b: Seq<char>)
    requires
        is_supply_of(name, a),
        is_supply_of(name, b),
    ensures
        b.len() <= a.len(),
{
    reveal_strlit("hid-");
    reveal_strlit("-battery");
    let pa = supply_prefix(a);
    let pb = supply_prefix(b);
    if a.len() < b.len() {
        // The second name puts the 'b' of "-battery" where the first one has a
        // letter of "attery", the '-' before the report, or a digit.
        let at = b.len() as int + 5;
        assert(pb[at] == 'b');
        assert(name[at] == name.subrange(0, pb.len() as int)[at]);
        if at < pa.len() {
            assert(name[at] == name.subrange(0, pa.len() as int)[at]);
            assert(pa[at] == "-battery"@[at - 4 - a.len()]);
        } else {
            let rest = name.skip(pa.len() as int);
            assert(rest[at - pa.len()] == 'b');
            if at > pa.len() {
                assert(rest.skip(1)[at - pa.len() - 1] == 'b');
            }
        }
    }
}

/// The power supply of a device is called `hid-`, its unique ID and `-battery`,
/// and then nothing more or a hyphen and a decimal number; and whatever has such
/// a name is its power supply.
pub proof fn law_the_names_of_a_supply(name: Seq<char>, uniq: Seq<char>)
    ensures
        is_supply_of(name, uniq) <==> {
            ||| name == "hid-"@ + uniq + "-battery"@
            ||| exists|id: Seq<char>|
                id.len() > 0 && (forall|i: int|
                    0 <= i < id.len() ==> '0' <= #[trigger] id[i] && id[i] <= '9') && name
                    == #[trigger] ("hid-"@ + uniq + "-battery"@ + seq!['-'] + id)
        },
{
    let prefix = "hid-"@ + uniq + "-battery"@;
    let n = prefix.len() as int;
    if is_supply_of(name, uniq) {
        let rest = name.skip(n);
        assert(name =~= prefix + rest);
        if rest.len() == 0 {
            assert(name =~= prefix);
        } else {
            let id = rest.skip(1);
            assert(rest =~= seq!['-'] + id);
            assert(name =~= prefix + seq!['-'] + id);
            assert forall|i: int| 0 <= i < id.len() implies '0' <= #[trigger] id[i] && id[i]
                <= '9' by {
                assert(crate::text::is_digit(id[i]));
            }
        }
    }
    if name == prefix {
        assert(name.subrange(0, n) =~= prefix);
        assert(name.skip(n).len() == 0);
    }
    assert forall|id: Seq<char>|
        id.len() > 0 && (forall|i: int|
            0 <= i < id.len() ==> '0' <= #[trigger] id[i] && id[i] <= '9') && name == #[trigger] (prefix + seq!['-'] + id) implies is_supply_of(name, uniq) by {
        assert(name.subrange(0, n) =~= prefix);
        assert(name.skip(n)[0] == '-');
        assert(name.skip(n).skip(1) =~= id);
        assert forall|i: int| 0 <= i < id.len() implies crate::text::is_digit(
            #[trigger] id[i],
        ) by {}
    }
}

/// What is found is a power supply of the device, and none listed before it is.
pub proof fn law_the_first_supply_is_found(names: &Vec<String>, uniq: &str, found: usize, i: int)
    requires
        call_ensures(find_power_supply, (names, uniq), Some(found)),
    ensures
        found < names@.len(),
        is_supply_of(names@[found as int]@, uniq@),
        0 <= i < found ==> !is_supply_of(names@[i]@, uniq@),
{
}

/// Nothing is found only when no power supply of the device is listed.
pub proof fn law_a_listed_supply_is_found(names: &Vec<String>, uniq: &str, i: int)
    requires
        call_ensures(find_power_supply, (names, uniq), None),
    ensures
        0 <= i < names@.len() ==> !is_supply_of(names@[i]@, uniq@),
{
}

} // verus!
