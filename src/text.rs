use vstd::prelude::*;
use vstd::string::*;

verus! {

pub open spec fn digit_char(d: int) -> char {
    seq!['0', '1', '2', '3', '4', '5', '6', '7', '8', '9'][d]
}

/// Decimal digits of a natural number, most significant first.
pub open spec fn decimal_nat(n: nat) -> Seq<char>
    decreases n,
{
    if n < 10 {
        seq![digit_char(n as int)]
    } else {
        decimal_nat(n / 10) + seq![digit_char((n % 10) as int)]
    }
}

/// Decimal text of an integer, with a leading `-` when negative.
pub open spec fn decimal(n: int) -> Seq<char> {
    if n < 0 {
        seq!['-'] + decimal_nat((-n) as nat)
    } else {
        decimal_nat(n as nat)
    }
}

fn digit(d: u64) -> (c: char)
    requires
        d < 10,
    ensures
        c == digit_char(d as int),
{
    match d {
        0 => '0',
        1 => '1',
        2 => '2',
        3 => '3',
        4 => '4',
        5 => '5',
        6 => '6',
        7 => '7',
        8 => '8',
        _ => '9',
    }
}

pub fn push_decimal_nat(out: &mut Vec<char>, n: u64)
    ensures
        final(out)@ == old(out)@ + decimal_nat(n as nat),
    decreases n,
{
    if n >= 10 {
        push_decimal_nat(out, n / 10);
        out.push(digit(n % 10));
    } else {
        out.push(digit(n));
    }
}

pub fn push_decimal(out: &mut Vec<char>, n: i64)
    requires
        n > i64::MIN,
    ensures
        final(out)@ == old(out)@ + decimal(n as int),
{
    if n < 0 {
        out.push('-');
        push_decimal_nat(out, (-n) as u64);
        assert(final(out)@ =~= old(out)@ + decimal(n as int));
    } else {
        push_decimal_nat(out, n as u64);
    }
}

/// Appends the characters of `s`.
pub fn push_text(out: &mut Vec<char>, s: &str)
    ensures
        final(out)@ == old(out)@ + s@,
{
    let n = s.unicode_len();
    let ghost start = out@;
    let mut i: usize = 0;
    while i < n
        invariant
            n == s@.len(),
            i <= n,
            out@ == start + s@.take(i as int),
        decreases n - i,
    {
        out.push(s.get_char(i));
        assert(s@.take(i + 1) =~= s@.take(i as int).push(s@[i as int]));
        i = i + 1;
    }
    assert(s@.take(n as int) =~= s@);
}

/// Relies on std's `String: FromIterator<char>`: collecting characters yields
/// a string holding exactly those characters, in order.
#[verifier::external_body]
pub(crate) fn string_from_chars(chars: &Vec<char>) -> (r: String)
    ensures
        r@ == chars@,
{
    chars.iter().collect()
}

/// UTF-16 code units of a text.
pub uninterp spec fn utf16_of(s: Seq<char>) -> Seq<u16>;

/// Relies on `str::encode_utf16` (std): the UTF-16 encoding of the text, which
/// depends on the text alone.
#[verifier::external_body]
fn encode_utf16(s: &str) -> (r: Vec<u16>)
    ensures
        r@ == utf16_of(s@),
{
    s.encode_utf16().collect()
}

/// The UTF-16 encoding of `text` followed by a zero terminator, as native
/// string parameters expect.
pub fn utf16_null_terminated(text: &str) -> (r: Vec<u16>)
    ensures
        r@ == utf16_of(text@).push(0u16),
{
    let mut v = encode_utf16(text);
    v.push(0);
    v
}

} // verus!
