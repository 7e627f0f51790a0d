//! Byte-level views of UTF-8 text and conversions between numbers and digits.
use vstd::prelude::*;
use vstd::string::*;
use vstd::utf8::*;

verus! {

broadcast use {
    is_char_boundary_start_end_of_seq,
    encode_utf8_valid_utf8,
    encode_utf8_decode_utf8,
    decode_utf8_encode_utf8,
};

/// The bytes `from..to` of `s`, borrowed.
pub fn slice(s: &str, from: usize, to: usize) -> (r: &str)
    requires
        from <= to <= s.spec_bytes().len(),
        is_char_boundary(s.spec_bytes(), from as int),
        is_char_boundary(s.spec_bytes(), to as int),
    ensures
        r.spec_bytes() == s.spec_bytes().subrange(from as int, to as int),
{
    let (head, _) = s.split_at(to);
    proof {
        let b = s.spec_bytes();
        let hb = head.spec_bytes();
        assert(hb == b.subrange(0, to as int));
        lemma_boundary_in_prefix(b, from as int, to as int);
    }
    let (_, mid) = head.split_at(from);
    proof {
        assert(mid.spec_bytes() =~= s.spec_bytes().subrange(from as int, to as int));
    }
    mid
}

/// A character boundary of `b` that lies inside the prefix `b[..to]`, with
/// `to` itself a boundary, is a boundary of that prefix.
pub proof fn lemma_boundary_in_prefix(b: Seq<u8>, i: int, to: int)
    requires
        valid_utf8(b),
        0 <= i <= to <= b.len(),
        is_char_boundary(b, i),
        is_char_boundary(b, to),
    ensures
        is_char_boundary(b.subrange(0, to), i),
    decreases b.len(),
{
    lemma_prefix_valid(b, to);
    if i == 0 {
    } else {
        let k = length_of_first_scalar(b);
        let rest = pop_first_scalar(b);
        assert(is_char_boundary(rest, i - k));
        assert(is_char_boundary(rest, to - k));
        lemma_pop_valid(b);
        let p = b.subrange(0, to);
        lemma_prefix_valid(b, to);
        assert(p.subrange(0, k) =~= b.subrange(0, k));
        lemma_first_scalar_of_prefix(b, to);
        lemma_boundary_in_prefix(rest, i - k, to - k);
        assert(pop_first_scalar(p) =~= rest.subrange(0, to - k));
    }
}

/// Popping the first scalar of valid UTF-8 leaves valid UTF-8.
pub proof fn lemma_pop_valid(b: Seq<u8>)
    requires
        valid_utf8(b),
        b.len() > 0,
    ensures
        valid_utf8(pop_first_scalar(b)),
        0 < length_of_first_scalar(b) <= b.len(),
        pop_first_scalar(b) == b.subrange(length_of_first_scalar(b), b.len() as int),
{
    reveal_with_fuel(valid_utf8, 2);
}

/// A prefix ending at a character boundary of valid UTF-8 is valid UTF-8.
pub proof fn lemma_prefix_valid(b: Seq<u8>, to: int)
    requires
        valid_utf8(b),
        0 <= to <= b.len(),
        is_char_boundary(b, to),
    ensures
        valid_utf8(b.subrange(0, to)),
        valid_utf8(b.subrange(to, b.len() as int)),
{
    valid_utf8_split(b, to);
}

/// A nonempty prefix at a boundary starts with the same scalar as the whole.
pub proof fn lemma_first_scalar_of_prefix(b: Seq<u8>, to: int)
    requires
        valid_utf8(b),
        0 < to <= b.len(),
        is_char_boundary(b, to),
    ensures
        length_of_first_scalar(b.subrange(0, to)) == length_of_first_scalar(b),
        length_of_first_scalar(b) <= to,
{
    reveal_with_fuel(valid_utf8, 2);
    lemma_prefix_valid(b, to);
    let p = b.subrange(0, to);
    assert(p[0] == b[0]);
    let k = length_of_first_scalar(b);
    lemma_pop_valid(b);
    if k > to {
        // `to` would fall inside the first scalar, which is no boundary
        assert(is_char_boundary(pop_first_scalar(b), to - k));
    }
}

/// The numeric value of an ASCII digit or letter as a digit, as
/// `char::to_digit` reads it (letters count from ten); 36 for any other byte.
pub open spec fn digit_value(c: u8) -> int {
    if 48 <= c <= 57 {
        c - 48
    } else if 97 <= c <= 122 {
        c - 87
    } else if 65 <= c <= 90 {
        c - 55
    } else {
        36
    }
}

/// Every byte of `d` is a digit of the given radix.
pub open spec fn all_digits(d: Seq<u8>, radix: int) -> bool {
    forall|i: int| 0 <= i < d.len() ==> #[trigger] digit_value(d[i]) < radix
}

/// The number that the digits `d` denote in the given radix, most
/// significant digit first.
pub open spec fn digits_value(d: Seq<u8>, radix: int) -> int
    decreases d.len(),
{
    if d.len() == 0 {
        0
    } else {
        digits_value(d.drop_last(), radix) * radix + digit_value(d.last())
    }
}

/// What `usize::from_str_radix` gives for text with the bytes `s`: an
/// optional leading `+`, then one or more digits of the radix, whose value
/// fits in `usize`; `None` for anything else.
pub open spec fn parsed_usize(s: Seq<u8>, radix: int) -> Option<usize> {
    let d = if s.len() > 0 && s[0] == 43u8 { s.drop_first() } else { s };
    if d.len() > 0 && all_digits(d, radix) && digits_value(d, radix) <= usize::MAX {
        Some(digits_value(d, radix) as usize)
    } else {
        None
    }
}

/// Calls `usize::from_str_radix(s, radix)`.
///
/// Claimed of std: it succeeds exactly on an optional `+` followed by one or
/// more digits of the radix (`0-9`, `a-z`, `A-Z` as far as the radix goes)
/// whose value fits in `usize`, and then returns that value; it panics
/// unless `2 <= radix <= 36`, which `requires` leaves out.
#[verifier::external_body]
pub(crate) fn parse_usize_radix(s: &str, radix: u32) -> (r: Option<usize>)
    requires
        2 <= radix <= 36,
    ensures
        r == parsed_usize(s.spec_bytes(), radix as int),
{
    usize::from_str_radix(s, radix).ok()
}

/// Calls `String::push`.
///
/// Claimed of std: the character is appended at the end.
#[verifier::external_body]
pub(crate) fn push_char(s: &mut String, c: char)
    ensures
        final(s)@ == old(s)@.push(c),
{
    s.push(c);
}

/// The character of the decimal digit `d`.
pub open spec fn digit_char(d: nat) -> char {
    (48 + d) as char
}

/// The decimal numeral of `n`, most significant digit first, without
/// leading zeros (`0` for zero).
pub open spec fn decimal_text(n: nat) -> Seq<char>
    decreases n,
{
    if n < 10 {
        seq![digit_char(n)]
    } else {
        decimal_text(n / 10).push(digit_char(n % 10))
    }
}

/// The decimal numeral of `n`.
pub fn decimal_string(n: usize) -> (r: String)
    ensures
        r@ == decimal_text(n as nat),
    decreases n,
{
    let d = (n % 10) as u8;
    let c = (48u8 + d) as char;
    if n < 10 {
        let mut s = String::new();
        push_char(&mut s, c);
        s
    } else {
        let mut s = decimal_string(n / 10);
        push_char(&mut s, c);
        s
    }
}

} // verus!
