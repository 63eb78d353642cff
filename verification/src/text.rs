//! Text as sequences of characters: decimal numbers, searching and replacing.
use vstd::prelude::*;

verus! {

/// `String::push` appends one character to the text.
pub assume_specification[ String::push ](text: &mut String, c: char)
    ensures
        final(text)@ == old(text)@.push(c),
;

/// The characters of a text, one by one.
pub fn to_chars(text: &str) -> (chars: Vec<char>)
    ensures
        chars@ == text@,
{
    let mut chars: Vec<char> = Vec::new();
    for c in iter: text.chars()
        invariant
            iter.seq() == text@,
            chars@ == text@.take(iter.index() as int),
    {
        chars.push(c);
        assert(text@.take(iter.index() + 1) == text@.take(iter.index() as int).push(c));
    }
    assert(text@.take(text@.len() as int) == text@);
    chars
}

// ---------------------------------------------------------------------------
// Decimal numbers
// ---------------------------------------------------------------------------

/// Whether a character is one of the ten ASCII digits.
pub open spec fn is_digit(c: char) -> bool {
    '0' <= c <= '9'
}

/// The ASCII digit for a number below ten.
pub open spec fn digit(n: nat) -> char {
    ('0' as u32 + n) as char
}

/// The number for which an ASCII digit stands.
pub open spec fn digit_value(c: char) -> nat {
    (c as u32 - '0' as u32) as nat
}

/// Whether a text is made of digits alone, and of at least one.
pub open spec fn is_number(s: Seq<char>) -> bool {
    &&& s.len() > 0
    &&& forall|i: int| 0 <= i < s.len() ==> is_digit(#[trigger] s[i])
}

/// A number in decimal notation, without leading zeros.
pub open spec fn decimal(n: nat) -> Seq<char>
    decreases n,
{
    if n < 10 {
        seq![digit(n)]
    } else {
        decimal(n / 10).push(digit(n % 10))
    }
}

/// The number that a row of digits denotes.
pub open spec fn number_value(s: Seq<char>) -> nat
    decreases s.len(),
{
    if s.len() == 0 {
        0
    } else {
        number_value(s.drop_last()) * 10 + digit_value(s.last())
    }
}

/// Decimal notation is made of digits, and reading it gives the number back.
pub proof fn decimal_round_trip(n: nat)
    ensures
        is_number(decimal(n)),
        number_value(decimal(n)) == n,
    decreases n,
{
    if n < 10 {
        assert(decimal(n).drop_last() == Seq::<char>::empty());
        assert(number_value(decimal(n).drop_last()) == 0);
    } else {
        decimal_round_trip(n / 10);
        assert(decimal(n).drop_last() == decimal(n / 10));
        assert forall|i: int| 0 <= i < decimal(n).len() implies is_digit(
            #[trigger] decimal(n)[i],
        ) by {
            if i < decimal(n / 10).len() {
                assert(decimal(n)[i] == decimal(n / 10)[i]);
            }
        }
    }
}

/// Two numbers with the same decimal notation are the same number.
pub proof fn decimal_injective(m: nat, n: nat)
    requires
        decimal(m) == decimal(n),
    ensures
        m == n,
{
    decimal_round_trip(m);
    decimal_round_trip(n);
}

/// A longer row of digits denotes no smaller number.
proof fn number_value_grows(s: Seq<char>, i: int)
    requires
        0 <= i <= s.len(),
    ensures
        number_value(s.take(i)) <= number_value(s),
    decreases s.len() - i,
{
    if i == s.len() {
        assert(s.take(i) == s);
    } else {
        number_value_grows(s, i + 1);
        assert(s.take(i + 1).drop_last() == s.take(i));
    }
}

/// The digit character for a number below ten.
fn digit_char(n: u64) -> (c: char)
    requires
        n < 10,
    ensures
        c == digit(n as nat),
{
    ('0' as u8 + n as u8) as char
}

/// A number in decimal notation.
pub fn decimal_text(n: u64) -> (text: String)
    ensures
        text@ == decimal(n as nat),
    decreases n,
{
    if n < 10 {
        let mut text = String::new();
        text.push(digit_char(n));
        assert(text@ == seq![digit(n as nat)]);
        text
    } else {
        let mut text = decimal_text(n / 10);
        text.push(digit_char(n % 10));
        text
    }
}

/// Reads a row of digits; there is no result where the number exceeds 64 bits.
pub fn parse_number(text: &str) -> (number: Option<u64>)
    requires
        is_number(text@),
    ensures
        match number {
            Some(n) => n == number_value(text@),
            None => number_value(text@) > u64::MAX,
        },
{
    let chars = to_chars(text);
    let mut value: u64 = 0;
    for i in 0..chars.len()
        invariant
            chars@ == text@,
            is_number(text@),
            value == number_value(text@.take(i as int)),
    {
        let c: char = chars[i];
        assert(is_digit(text@[i as int]));
        let d: u64 = (c as u32 - '0' as u32) as u64;
        assert(text@.take(i + 1).drop_last() == text@.take(i as int));
        proof {
            number_value_grows(text@, i + 1);
        }
        if value > (u64::MAX - d) / 10 {
            return None;
        }
        value = value * 10 + d;
    }
    assert(text@.take(text@.len() as int) == text@);
    Some(value)
}

// ---------------------------------------------------------------------------
// Searching and replacing
// ---------------------------------------------------------------------------

/// Whether `part` stands in `s` at position `i`.
pub open spec fn occurs_at(s: Seq<char>, i: int, part: Seq<char>) -> bool {
    &&& 0 <= i
    &&& i + part.len() <= s.len()
    &&& s.subrange(i, i + part.len()) == part
}

/// What `s` becomes from position `i` on when each occurrence of `from`, taken from
/// the left and without overlap, gives way to `to`.
pub open spec fn replaced_from(s: Seq<char>, i: int, from: Seq<char>, to: Seq<char>) -> Seq<char>
    decreases s.len() - i,
{
    if i < 0 || i >= s.len() {
        Seq::empty()
    } else if from.len() > 0 && occurs_at(s, i, from) {
        to + replaced_from(s, i + from.len(), from, to)
    } else {
        seq![s[i]] + replaced_from(s, i + 1, from, to)
    }
}

/// `s` with each occurrence of `from` replaced by `to`.
pub open spec fn replaced(s: Seq<char>, from: Seq<char>, to: Seq<char>) -> Seq<char> {
    replaced_from(s, 0, from, to)
}

/// Where nothing occurs, replacing it changes nothing.
pub proof fn replaced_without_occurrence(s: Seq<char>, i: int, from: Seq<char>, to: Seq<char>)
    requires
        0 <= i <= s.len(),
        forall|j: int| i <= j < s.len() ==> !occurs_at(s, j, from),
    ensures
        replaced_from(s, i, from, to) == s.skip(i),
    decreases s.len() - i,
{
    if i < s.len() {
        replaced_without_occurrence(s, i + 1, from, to);
        assert(!occurs_at(s, i, from));
        assert(s.skip(i) == seq![s[i]] + s.skip(i + 1));
    } else {
        assert(s.skip(i) == Seq::<char>::empty());
    }
}

/// Replacing a text by itself changes nothing.
pub proof fn replaced_by_itself(s: Seq<char>, i: int, part: Seq<char>)
    requires
        0 <= i <= s.len(),
    ensures
        replaced_from(s, i, part, part) == s.skip(i),
    decreases s.len() - i,
{
    if i < s.len() {
        if part.len() > 0 && occurs_at(s, i, part) {
            replaced_by_itself(s, i + part.len(), part);
            assert(s.skip(i) == s.subrange(i, i + part.len()) + s.skip(i + part.len()));
        } else {
            replaced_by_itself(s, i + 1, part);
            assert(s.skip(i) == seq![s[i]] + s.skip(i + 1));
        }
    } else {
        assert(s.skip(i) == Seq::<char>::empty());
    }
}

/// A text that is exactly the part to be replaced becomes the replacement.
pub proof fn replaced_whole(part: Seq<char>, to: Seq<char>)
    requires
        part.len() > 0,
    ensures
        replaced(part, part, to) == to,
{
    assert(part.subrange(0, part.len() as int) == part);
    assert(replaced_from(part, part.len() as int, part, to) == Seq::<char>::empty());
    assert(to + Seq::<char>::empty() == to);
}

/// Whether `part` stands in `chars` at position `i`.
fn chars_occur_at(chars: &Vec<char>, i: usize, part: &Vec<char>) -> (found: bool)
    requires
        i <= chars@.len(),
    ensures
        found == occurs_at(chars@, i as int, part@),
{
    let len: usize = chars.len();
    if part.len() > len - i {
        return false;
    }
    for k in 0..part.len()
        invariant
            len == chars@.len(),
            i + part@.len() <= len,
            forall|j: int| 0 <= j < k ==> chars@[i + j] == part@[j],
    {
        if chars[i + k] != part[k] {
            assert(chars@.subrange(i as int, i + part@.len())[k as int] != part@[k as int]);
            return false;
        }
    }
    assert(chars@.subrange(i as int, i + part@.len()) =~= part@);
    true
}

/// Replaces each occurrence of `from`, taken from the left and without overlap.
pub fn replace(text: &str, from: &str, to: &str) -> (result: String)
    requires
        from@.len() > 0,
    ensures
        result@ == replaced(text@, from@, to@),
{
    let chars = to_chars(text);
    let part = to_chars(from);
    let mut result = String::new();
    let mut i: usize = 0;
    assert(Seq::<char>::empty() + replaced(text@, from@, to@) == replaced(text@, from@, to@));
    while i < chars.len()
        invariant
            i <= chars@.len(),
            chars@ == text@,
            part@ == from@,
            from@.len() > 0,
            result@ + replaced_from(text@, i as int, from@, to@) == replaced(text@, from@, to@),
        decreases chars@.len() - i,
    {
        let ghost before = result@;
        let ghost rest = replaced_from(text@, i as int, from@, to@);
        if chars_occur_at(&chars, i, &part) {
            result.append(to);
            i = i + part.len();
            assert(before + rest == (before + to@) + replaced_from(
                text@,
                i as int,
                from@,
                to@,
            ));
        } else {
            result.push(chars[i]);
            i = i + 1;
            assert(before + rest == before.push(text@[i - 1]) + replaced_from(
                text@,
                i as int,
                from@,
                to@,
            ));
        }
    }
    assert(result@ + Seq::<char>::empty() == result@);
    result
}

/// Whether a text ends with `suffix`.
pub open spec fn has_suffix(s: Seq<char>, suffix: Seq<char>) -> bool {
    occurs_at(s, s.len() - suffix.len(), suffix)
}

/// Whether a text ends with `suffix`.
pub fn ends_with(text: &str, suffix: &str) -> (found: bool)
    ensures
        found == has_suffix(text@, suffix@),
{
    let chars = to_chars(text);
    let part = to_chars(suffix);
    if part.len() > chars.len() {
        return false;
    }
    chars_occur_at(&chars, chars.len() - part.len(), &part)
}

/// A copy of an optional text.
pub fn copy_text(text: &Option<String>) -> (copy: Option<String>)
    ensures
        copy == *text,
{
    match text {
        Some(t) => Some(t.clone()),
        None => None,
    }
}

/// A copy of some texts.
pub fn copy_texts(texts: &Vec<String>) -> (copy: Vec<String>)
    ensures
        copy@ == texts@,
{
    let mut copy: Vec<String> = Vec::new();
    for i in 0..texts.len()
        invariant
            copy@ == texts@.take(i as int),
    {
        copy.push(texts[i].clone());
        assert(texts@.take(i + 1) == texts@.take(i as int).push(texts@[i as int]));
    }
    assert(texts@.take(texts@.len() as int) == texts@);
    copy
}

} // verus!
