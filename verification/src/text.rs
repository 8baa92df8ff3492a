//! Strings: searching, splitting, and decimal numbers.

use vstd::prelude::*;
use vstd::string::*;

verus! {

/// How many characters of `s` come before the first `c`.
pub open spec fn position(s: Seq<char>, c: char) -> nat
    decreases s.len(),
{
    if s.len() == 0 || s[0] == c {
        0
    } else {
        1 + position(s.drop_first(), c)
    }
}

/// The parts of `s` between the separators. There is always at least one.
pub open spec fn split_on(s: Seq<char>, separator: char) -> Seq<Seq<char>>
    decreases s.len(),
{
    let n = position(s, separator);
    if n >= s.len() {
        seq![s]
    } else {
        seq![s.take(n as int)] + split_on(s.skip(n as int + 1), separator)
    }
}

/// What a list of strings says.
pub open spec fn texts(list: Seq<String>) -> Seq<Seq<char>> {
    list.map_values(|s: String| s@)
}

/// Whether `c` is an ASCII digit.
pub open spec fn is_digit(c: char) -> bool {
    '0' <= c <= '9'
}

/// Whether `s` is a non-empty run of ASCII digits.
pub open spec fn is_number(s: Seq<char>) -> bool {
    &&& s.len() > 0
    &&& forall|i: int| 0 <= i < s.len() ==> is_digit(#[trigger] s[i])
}

/// The value of a run of digits.
pub open spec fn number(s: Seq<char>) -> int
    recommends
        forall|i: int| 0 <= i < s.len() ==> is_digit(#[trigger] s[i]),
    decreases s.len(),
{
    if s.len() == 0 {
        0
    } else {
        10 * number(s.drop_last()) + (s.last() as int - '0' as int)
    }
}

/// The number that `s` writes: digits, after one `+` or, for a number that may
/// be negative, one `-`.
pub open spec fn signed_number(s: Seq<char>, negative_allowed: bool) -> Option<int> {
    if s.len() > 0 && s[0] == '+' {
        if is_number(s.skip(1)) {
            Some(number(s.skip(1)))
        } else {
            None
        }
    } else if s.len() > 0 && s[0] == '-' && negative_allowed {
        if is_number(s.skip(1)) {
            Some(-number(s.skip(1)))
        } else {
            None
        }
    } else if is_number(s) {
        Some(number(s))
    } else {
        None
    }
}

/// The decimal digits of `n`.
pub open spec fn digits(n: nat) -> Seq<char>
    decreases n,
{
    let last = ('0' as int + n % 10) as char;
    if n < 10 {
        seq![last]
    } else {
        digits(n / 10).push(last)
    }
}

/// The characters of `s`.
pub fn to_chars(s: &str) -> (chars: Vec<char>)
    ensures
        chars@ == s@,
{
    let mut chars: Vec<char> = Vec::new();
    for c in it: s.chars()
        invariant
            it.seq() == s@,
            chars@ == s@.take(it.index() as int),
    {
        chars.push(c);
        assert(s@.take(it.index() as int).push(c) =~= s@.take(it.index() + 1));
    }
    assert(s@.take(s@.len() as int) =~= s@);
    chars
}

/// Whether `wanted` occurs in `s`.
pub fn contains_char(s: &str, wanted: char) -> (found: bool)
    ensures
        found == s@.contains(wanted),
{
    for c in it: s.chars()
        invariant
            it.seq() == s@,
            forall|i: int| 0 <= i < it.index() ==> s@[i] != wanted,
    {
        if c == wanted {
            assert(s@[it.index() as int] == wanted);
            return true;
        }
    }
    false
}

/// Whether `s` begins with `prefix`.
pub fn starts_with(s: &str, prefix: &str) -> (yes: bool)
    ensures
        yes == prefix@.is_prefix_of(s@),
{
    let text: Vec<char> = to_chars(s);
    let head: Vec<char> = to_chars(prefix);
    if head.len() > text.len() {
        return false;
    }
    let mut i: usize = 0;
    while i < head.len()
        invariant
            i <= head@.len() <= text@.len(),
            head@ == prefix@,
            text@ == s@,
            forall|j: int| 0 <= j < i ==> head@[j] == text@[j],
        decreases head@.len() - i,
    {
        if head[i] != text[i] {
            assert(prefix@[i as int] != s@.subrange(0, prefix@.len() as int)[i as int]);
            return false;
        }
        i = i + 1;
    }
    assert(prefix@ =~= s@.subrange(0, prefix@.len() as int));
    true
}

proof fn lemma_position(s: Seq<char>, c: char, n: nat)
    requires
        n <= s.len(),
        forall|i: int| 0 <= i < n ==> s[i] != c,
        n < s.len() ==> s[n as int] == c,
    ensures
        position(s, c) == n,
    decreases n,
{
    if n > 0 {
        lemma_position(s.drop_first(), c, (n - 1) as nat);
    }
}

/// The parts of `s` between the separators, in order.
pub fn split(s: &str, separator: char) -> (parts: Vec<String>)
    ensures
        texts(parts@) == split_on(s@, separator),
{
    let text: Vec<char> = to_chars(s);
    let mut parts: Vec<String> = Vec::new();
    let mut start: usize = 0;
    let mut i: usize = 0;
    assert(texts(parts@) + split_on(s@.skip(0), separator) =~= split_on(s@, separator)) by {
        assert(s@.skip(0) =~= s@);
    }
    while i < text.len()
        invariant
            start <= i <= text@.len(),
            text@ == s@,
            forall|j: int| start <= j < i ==> s@[j] != separator,
            texts(parts@) + split_on(s@.skip(start as int), separator) == split_on(s@, separator),
        decreases text@.len() - i,
    {
        if text[i] == separator {
            let part: String = s.substring_char(start, i).to_owned();
            proof {
                let rest = s@.skip(start as int);
                lemma_position(rest, separator, (i - start) as nat);
                assert(rest.take(i - start) =~= part@);
                assert(rest.skip(i - start + 1) =~= s@.skip(i + 1));
                assert(texts(parts@.push(part)) =~= texts(parts@) + seq![part@]);
                assert(texts(parts@) + (seq![part@] + split_on(s@.skip(i + 1), separator))
                    =~= texts(parts@.push(part)) + split_on(s@.skip(i + 1), separator));
            }
            parts.push(part);
            start = i + 1;
        }
        i = i + 1;
    }
    let part: String = s.substring_char(start, text.len()).to_owned();
    proof {
        let rest = s@.skip(start as int);
        lemma_position(rest, separator, rest.len());
        assert(rest =~= part@);
        assert(texts(parts@.push(part)) =~= texts(parts@) + seq![part@]);
    }
    parts.push(part);
    parts
}

proof fn lemma_number_grows(s: Seq<char>, n: int)
    requires
        0 <= n <= s.len(),
        forall|i: int| 0 <= i < s.len() ==> is_digit(#[trigger] s[i]),
    ensures
        0 <= number(s.take(n)) <= number(s),
    decreases s.len(),
{
    if s.len() == 0 {
        assert(s.take(n) =~= s);
    } else if n == s.len() {
        assert(s.take(n) =~= s);
        assert(s.drop_last().take(n - 1) =~= s.drop_last());
        lemma_number_grows(s.drop_last(), n - 1);
    } else {
        assert(s.drop_last().take(n) =~= s.take(n));
        lemma_number_grows(s.drop_last(), n);
    }
}

/// The value of `text` from `start` on, if it is a run of digits and no more
/// than `u32::MAX`.
fn parse_digits(text: &Vec<char>, start: usize) -> (value: Option<u32>)
    requires
        start <= text@.len(),
    ensures
        match value {
            Some(value) => is_number(text@.skip(start as int)) && value == number(
                text@.skip(start as int),
            ),
            None => is_number(text@.skip(start as int)) ==> number(text@.skip(start as int))
                > u32::MAX,
        },
{
    let ghost all = text@.skip(start as int);
    if start == text.len() {
        return None;
    }
    let mut value: u64 = 0;
    let mut i: usize = start;
    assert(all.take(0) =~= Seq::<char>::empty());
    while i < text.len()
        invariant
            start < text@.len(),
            start <= i <= text@.len(),
            all == text@.skip(start as int),
            forall|j: int| 0 <= j < i - start ==> is_digit(#[trigger] all[j]),
            value == number(all.take(i - start)),
            value <= u32::MAX,
        decreases text@.len() - i,
    {
        let c: char = text[i];
        assert(c == all[i - start]);
        if c < '0' || c > '9' {
            assert(!is_digit(all[i - start]));
            return None;
        }
        let digit: u32 = c as u32 - '0' as u32;
        value = value * 10 + digit as u64;
        proof {
            assert(all.take(i - start + 1).drop_last() =~= all.take(i - start));
            assert(all.take(i - start + 1).last() == c);
        }
        if value > u32::MAX as u64 {
            proof {
                if is_number(all) {
                    lemma_number_grows(all, i - start + 1);
                }
            }
            return None;
        }
        i = i + 1;
    }
    assert(all.take(i - start) =~= all);
    Some(value as u32)
}

/// Reads an unsigned number the way `str::parse` does: digits, with at most one
/// `+` in front.
pub fn parse_u32(s: &str) -> (value: Option<u32>)
    ensures
        match value {
            Some(value) => signed_number(s@, false) == Some(value as int),
            None => match signed_number(s@, false) {
                Some(n) => n > u32::MAX,
                None => true,
            },
        },
{
    let text: Vec<char> = to_chars(s);
    assert(s@.skip(0) =~= s@);
    if text.len() > 0 && text[0] == '+' {
        parse_digits(&text, 1)
    } else {
        parse_digits(&text, 0)
    }
}

/// Reads a signed number the way `str::parse` does: digits, with at most one
/// `+` or `-` in front.
pub fn parse_i32(s: &str) -> (value: Option<i32>)
    ensures
        match value {
            Some(value) => signed_number(s@, true) == Some(value as int),
            None => match signed_number(s@, true) {
                Some(n) => n > i32::MAX || n < i32::MIN,
                None => true,
            },
        },
{
    let text: Vec<char> = to_chars(s);
    assert(s@.skip(0) =~= s@);
    let negative: bool = text.len() > 0 && text[0] == '-';
    let start: usize = if text.len() > 0 && (text[0] == '+' || text[0] == '-') {
        1
    } else {
        0
    };
    match parse_digits(&text, start) {
        Some(value) => {
            let value: i64 = if negative {
                -(value as i64)
            } else {
                value as i64
            };
            if value >= i32::MIN as i64 && value <= i32::MAX as i64 {
                Some(value as i32)
            } else {
                None
            }
        },
        None => None,
    }
}

/// What [`decimal`] writes is a number, and the one that was written.
pub proof fn lemma_digits_are_a_number(n: nat)
    ensures
        is_number(digits(n)),
        number(digits(n)) == n,
    decreases n,
{
    reveal_with_fuel(number, 2);
    if n >= 10 {
        lemma_digits_are_a_number(n / 10);
        assert(digits(n).drop_last() =~= digits(n / 10));
    } else {
        assert(digits(n).drop_last() =~= Seq::<char>::empty());
    }
}

/// The digit for `n`.
fn digit(n: usize) -> (text: &'static str)
    requires
        n < 10,
    ensures
        text@ == seq![('0' as int + n) as char],
{
    proof {
        reveal_strlit("0");
        reveal_strlit("1");
        reveal_strlit("2");
        reveal_strlit("3");
        reveal_strlit("4");
        reveal_strlit("5");
        reveal_strlit("6");
        reveal_strlit("7");
        reveal_strlit("8");
        reveal_strlit("9");
    }
    match n {
        0 => "0",
        1 => "1",
        2 => "2",
        3 => "3",
        4 => "4",
        5 => "5",
        6 => "6",
        7 => "7",
        8 => "8",
        _ => "9",
    }
}

/// `n` in decimal.
pub fn decimal(n: usize) -> (text: String)
    ensures
        text@ == digits(n as nat),
    decreases n,
{
    let mut text: String = String::new();
    if n >= 10 {
        text = decimal(n / 10);
    }
    text.append(digit(n % 10));
    assert(text@ =~= digits(n as nat));
    text
}

/// `parts` with `separator` between them.
pub open spec fn joined_by(parts: Seq<Seq<char>>, separator: char) -> Seq<char>
    decreases parts.len(),
{
    if parts.len() == 0 {
        Seq::empty()
    } else if parts.len() == 1 {
        parts[0]
    } else {
        parts[0] + seq![separator] + joined_by(parts.drop_first(), separator)
    }
}

proof fn lemma_position_is_first(s: Seq<char>, c: char)
    ensures
        position(s, c) <= s.len(),
        forall|i: int| 0 <= i < position(s, c) ==> s[i] != c,
        position(s, c) < s.len() ==> s[position(s, c) as int] == c,
    decreases s.len(),
{
    if s.len() > 0 && s[0] != c {
        let rest = s.drop_first();
        lemma_position_is_first(rest, c);
        assert forall|i: int| 0 <= i < position(s, c) implies s[i] != c by {
            if i > 0 {
                assert(s[i] == rest[i - 1]);
            }
        }
    }
}

/// Splitting undoes joining: the parts with the separator between them are the
/// text again, and no part holds the separator.
pub proof fn law_the_parts_make_the_text(s: Seq<char>, separator: char)
    ensures
        split_on(s, separator).len() > 0,
        joined_by(split_on(s, separator), separator) == s,
        forall|i: int|
            0 <= i < split_on(s, separator).len() ==> !(#[trigger] split_on(s, separator)[i]).contains(
                separator,
            ),
    decreases s.len(),
{
    let n = position(s, separator) as int;
    let parts = split_on(s, separator);
    lemma_position_is_first(s, separator);
    if n < s.len() {
        let rest = s.skip(n + 1);
        law_the_parts_make_the_text(rest, separator);
        assert(parts.drop_first() =~= split_on(rest, separator));
        assert(s.take(n) + seq![separator] + rest =~= s);
        assert forall|i: int| 0 <= i < parts.len() implies !(#[trigger] parts[i]).contains(
            separator,
        ) by {
            if i > 0 {
                assert(parts[i] == split_on(rest, separator)[i - 1]);
            }
        }
    }
}

/// A string in a list says what it says on its own.
pub proof fn law_a_list_says_what_its_strings_say(list: Seq<String>)
    ensures
        texts(list).len() == list.len(),
        forall|i: int| 0 <= i < list.len() ==> #[trigger] texts(list)[i] == list[i]@,
{
}

/// The digits are the ten from `0` to `9`, a number has at least one of them and
/// nothing else, and each further digit counts the ones before it ten times.
pub proof fn law_digits_count_by_ten(s: Seq<char>, c: char)
    ensures
        is_digit(c) <==> '0' <= c && c <= '9',
        is_number(s) <==> s.len() > 0 && forall|i: int|
            0 <= i < s.len() ==> '0' <= #[trigger] s[i] && s[i] <= '9',
        number(Seq::empty()) == 0,
        number(s.push(c)) == 10 * number(s) + (c as int - 48),
{
    assert(s.push(c).drop_last() =~= s);
    if forall|i: int| 0 <= i < s.len() ==> '0' <= #[trigger] s[i] && s[i] <= '9' {
        assert forall|i: int| 0 <= i < s.len() implies is_digit(#[trigger] s[i]) by {}
    }
    if is_number(s) {
        assert forall|i: int| 0 <= i < s.len() implies '0' <= #[trigger] s[i] && s[i] <= '9' by {
            assert(is_digit(s[i]));
        }
    }
}

/// A sign in front of a number counts once: `+` changes nothing, `-` negates it
/// where that is allowed, and nothing else is read as a number.
pub proof fn law_signs_count_once(s: Seq<char>, negative_allowed: bool)
    ensures
        is_number(s) ==> {
            &&& signed_number(s, negative_allowed) == Some(number(s))
            &&& signed_number(seq!['+'] + s, negative_allowed) == Some(number(s))
            &&& signed_number(seq!['-'] + s, true) == Some(-number(s))
            &&& signed_number(seq!['-'] + s, false) is None
        },
        signed_number(s, negative_allowed) is Some ==> {
            ||| is_number(s)
            ||| s.len() > 1 && s[0] == '+' && is_number(s.skip(1))
            ||| s.len() > 1 && s[0] == '-' && is_number(s.skip(1)) && negative_allowed
        },
{
    if is_number(s) {
        let plus = seq!['+'] + s;
        let minus = seq!['-'] + s;
        assert(is_digit(s[0]));
        assert(plus.skip(1) =~= s && minus.skip(1) =~= s);
        assert(plus[0] == '+' && minus[0] == '-');
        assert(!is_digit(minus[0]));
    }
}

/// A number is written without a leading zero, unless it is a single digit, and
/// reads back as the number it is.
pub proof fn law_decimals_read_back(n: nat)
    ensures
        is_number(digits(n)),
        number(digits(n)) == n,
        digits(n).len() == 1 || digits(n)[0] != '0',
        digits(n).len() == 1 <==> n < 10,
    decreases n,
{
    lemma_digits_are_a_number(n);
    if n >= 10 {
        law_decimals_read_back(n / 10);
        if n / 10 < 10 {
            let q = n / 10;
            assert(q % 10 == q && 1 <= q <= 9);
            assert(digits(q)[0] == ('0' as int + q) as char);
            assert(digits(q)[0] as int == 48 + q);
        }
        assert(digits(n)[0] == digits(n / 10)[0]);
    }
}

} // verus!
