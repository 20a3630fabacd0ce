//! Strings as sequences of characters, and decimal numerals.

use vstd::prelude::*;

verus! {

/// `String::push` of the standard library: appends one character.
pub assume_specification[ String::push ](s: &mut String, c: char)
    ensures
        final(s)@ == old(s)@.push(c),
;

/// `String::pop` of the standard library: removes and returns the last
/// character; an empty string is left as it is.
pub assume_specification[ String::pop ](s: &mut String) -> (c: Option<char>)
    ensures
        old(s)@.len() == 0 ==> c is None && final(s)@ == old(s)@,
        old(s)@.len() > 0 ==> c == Some(old(s)@.last()) && final(s)@ == old(s)@.drop_last(),
;

/// The characters of `s`.
pub fn chars_of(s: &str) -> (chars: Vec<char>)
    ensures
        chars@ == s@,
{
    let mut chars: Vec<char> = Vec::new();
    for c in it: s.chars()
        invariant
            chars@ =~= s@.take(it.index() as int),
            it.seq() == s@,
    {
        chars.push(c);
    }
    assert(s@.take(s@.len() as int) =~= s@);
    chars
}

/// The characters `start..end` as a string.
pub fn string_of(chars: &Vec<char>, start: usize, end: usize) -> (s: String)
    requires
        start <= end <= chars.len(),
    ensures
        s@ == chars@.subrange(start as int, end as int),
{
    let mut s = String::new();
    let mut i: usize = start;
    assert(s@ =~= chars@.subrange(start as int, start as int));
    while i < end
        invariant
            start <= i <= end <= chars.len(),
            s@ == chars@.subrange(start as int, i as int),
        decreases end - i,
    {
        s.push(chars[i]);
        i += 1;
        assert(chars@.subrange(start as int, i as int) =~= chars@.subrange(
            start as int,
            i - 1,
        ).push(chars@[i - 1]));
    }
    s
}

/// Decimal digit `d` as an ASCII byte.
pub open spec fn digit(d: int) -> u8 {
    (48 + d) as u8
}

/// `n` in decimal, as ASCII bytes, without leading zeros.
pub open spec fn decimal(n: nat) -> Seq<u8>
    decreases n,
{
    if n < 10 {
        seq![digit(n as int)]
    } else {
        decimal(n / 10).push(digit((n % 10) as int))
    }
}

/// Append `n` in decimal.
pub fn push_decimal(out: &mut Vec<u8>, n: usize)
    ensures
        final(out)@ == old(out)@ + decimal(n as nat),
    decreases n,
{
    if n < 10 {
        out.push(48 + n as u8);
    } else {
        push_decimal(out, n / 10);
        out.push(48 + (n % 10) as u8);
    }
    assert(out@ =~= old(out)@ + decimal(n as nat));
}

/// ASCII bytes as characters.
pub open spec fn ascii_chars(bytes: Seq<u8>) -> Seq<char> {
    bytes.map_values(|b: u8| b as char)
}

/// Append `n` in decimal.
pub fn push_number(out: &mut String, n: u64)
    ensures
        final(out)@ == old(out)@ + ascii_chars(decimal(n as nat)),
    decreases n,
{
    if n < 10 {
        out.push((48 + n as u8) as char);
    } else {
        push_number(out, n / 10);
        out.push((48 + (n % 10) as u8) as char);
    }
    assert(out@ =~= old(out)@ + ascii_chars(decimal(n as nat)));
}

/// Append all of `bytes`.
pub fn push_bytes(out: &mut Vec<u8>, bytes: &[u8])
    ensures
        final(out)@ == old(out)@ + bytes@,
{
    let mut i: usize = 0;
    while i < bytes.len()
        invariant
            i <= bytes.len(),
            out@ =~= old(out)@ + bytes@.take(i as int),
        decreases bytes.len() - i,
    {
        out.push(bytes[i]);
        i += 1;
    }
    assert(bytes@.take(bytes@.len() as int) =~= bytes@);
}

/// `chars` without its trailing spaces.
pub open spec fn trim_end_spaces(chars: Seq<char>) -> Seq<char>
    decreases chars.len(),
{
    if chars.len() > 0 && chars.last() == ' ' {
        trim_end_spaces(chars.drop_last())
    } else {
        chars
    }
}

/// Remove the trailing spaces of `line`.
pub fn trim_spaces(line: &mut Vec<char>)
    ensures
        final(line)@ == trim_end_spaces(old(line)@),
{
    while line.len() > 0 && line[line.len() - 1] == ' '
        invariant
            trim_end_spaces(line@) == trim_end_spaces(old(line)@),
        decreases line.len(),
    {
        let ghost before = line@;
        line.pop();
        assert(line@ =~= before.drop_last());
    }
}

/// Append the characters of `more`.
pub fn push_chars(out: &mut Vec<char>, more: &Vec<char>)
    ensures
        final(out)@ == old(out)@ + more@,
{
    let mut i: usize = 0;
    while i < more.len()
        invariant
            i <= more.len(),
            out@ =~= old(out)@ + more@.take(i as int),
        decreases more.len() - i,
    {
        out.push(more[i]);
        i += 1;
    }
    assert(more@.take(more@.len() as int) =~= more@);
}

/// Does `needle` stand at position `i` of `hay`?
pub open spec fn occurs_at(hay: Seq<char>, needle: Seq<char>, i: int) -> bool {
    0 <= i && i + needle.len() <= hay.len() && hay.subrange(i, i + needle.len()) == needle
}

/// Does `needle` stand at position `i` of `hay`?
pub fn stands_at(hay: &Vec<char>, needle: &Vec<char>, i: usize) -> (found: bool)
    requires
        i + needle.len() <= hay.len(),
    ensures
        found == occurs_at(hay@, needle@, i as int),
{
    let mut k: usize = 0;
    while k < needle.len()
        invariant
            k <= needle.len(),
            i + needle.len() <= hay.len(),
            forall|j: int| 0 <= j < k ==> hay@[i + j] == needle@[j],
        decreases needle.len() - k,
    {
        if hay[i + k] != needle[k] {
            assert(hay@.subrange(i as int, i + needle@.len())[k as int] != needle@[k as int]);
            return false;
        }
        k += 1;
    }
    assert(hay@.subrange(i as int, i + needle@.len()) =~= needle@);
    true
}

/// The same characters in the same order?
pub fn same_chars(a: &Vec<char>, b: &Vec<char>) -> (same: bool)
    ensures
        same == (a@ == b@),
{
    if a.len() != b.len() {
        return false;
    }
    let mut i: usize = 0;
    while i < a.len()
        invariant
            i <= a.len(),
            a.len() == b.len(),
            forall|j: int| 0 <= j < i ==> a@[j] == b@[j],
        decreases a.len() - i,
    {
        if a[i] != b[i] {
            return false;
        }
        i += 1;
    }
    assert(a@ =~= b@);
    true
}

// ---- What holds of every text and number ----

/// The number that decimal digits spell; none where one is not a digit, and
/// none of nothing.
pub open spec fn number(digits: Seq<u8>) -> Option<int>
    decreases digits.len(),
{
    if digits.len() == 0 || !(48 <= digits.last() <= 57) {
        None
    } else if digits.len() == 1 {
        Some(digits[0] - 48)
    } else {
        match number(digits.drop_last()) {
            Some(high) => Some(10 * high + (digits.last() - 48)),
            None => None,
        }
    }
}

/// A numeral spells its number, without leading zeros.
pub proof fn law_decimal(n: nat)
    ensures
        number(decimal(n)) == Some(n as int),
        decimal(n).len() > 0,
        decimal(n).len() > 1 ==> decimal(n)[0] != 48,
        n > 0 ==> decimal(n)[0] != 48,
        forall|i: int| 0 <= i < decimal(n).len() ==> 48 <= #[trigger] decimal(n)[i] <= 57,
    decreases n,
{
    if n >= 10 {
        law_decimal(n / 10);
        assert(decimal(n).drop_last() =~= decimal(n / 10));
        assert(decimal(n)[0] == decimal(n / 10)[0]);
    }
}

/// Trimming takes spaces off the end, all of them and nothing else.
pub proof fn law_trimmed_text(chars: Seq<char>)
    ensures
        ({
            let t = trim_end_spaces(chars);
            &&& t.len() <= chars.len()
            &&& t == chars.take(t.len() as int)
            &&& t.len() > 0 ==> t.last() != ' '
            &&& forall|i: int| t.len() <= i < chars.len() ==> #[trigger] chars[i] == ' '
        }),
    decreases chars.len(),
{
    let t = trim_end_spaces(chars);
    if chars.len() > 0 && chars.last() == ' ' {
        law_trimmed_text(chars.drop_last());
        assert(t =~= chars.take(t.len() as int));
        assert forall|i: int| t.len() <= i < chars.len() implies #[trigger] chars[i] == ' ' by {
            if i < chars.len() - 1 {
                assert(chars.drop_last()[i] == chars[i]);
            }
        }
    } else {
        assert(t =~= chars.take(t.len() as int));
    }
}

/// A needle stands at a place exactly if each of its characters does.
pub proof fn law_occurrence(hay: Seq<char>, needle: Seq<char>, i: int)
    ensures
        occurs_at(hay, needle, i) <==> 0 <= i && i + needle.len() <= hay.len() && (forall|k: int|
            0 <= k < needle.len() ==> hay[i + k] == #[trigger] needle[k]),
{
    if 0 <= i && i + needle.len() <= hay.len() {
        let part = hay.subrange(i, i + needle.len());
        if occurs_at(hay, needle, i) {
            assert forall|k: int| 0 <= k < needle.len() implies hay[i + k]
                == #[trigger] needle[k] by {
                assert(part[k] == needle[k]);
            }
        } else if forall|k: int| 0 <= k < needle.len() ==> hay[i + k] == #[trigger] needle[k] {
            assert(part =~= needle);
        }
    }
}

/// ASCII bytes are the characters of the same number.
pub proof fn law_ascii(bytes: Seq<u8>, i: int)
    requires
        0 <= i < bytes.len(),
    ensures
        ascii_chars(bytes).len() == bytes.len(),
        ascii_chars(bytes)[i] as int == bytes[i],
{
}

} // verus!
