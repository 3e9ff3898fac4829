//! Byte-level text pieces from which hashed and signed content is assembled:
//! decimal numerals, UTF-8 strings and quoted strings.

use vstd::prelude::*;

verus! {

/// The decimal numeral of `n` in ASCII, without leading zeros.
pub open spec fn decimal(n: nat) -> Seq<u8>
    decreases n,
{
    if n < 10 {
        seq![(48 + n) as u8]
    } else {
        decimal(n / 10).push((48 + n % 10) as u8)
    }
}

/// The decimal numeral of a nonzero `n`, and no digit at all for zero. Of
/// `n / 10` it is the digits that precede the last digit of `n`.
pub open spec fn decimal_head(n: nat) -> Seq<u8> {
    if n == 0 {
        Seq::empty()
    } else {
        decimal(n)
    }
}

/// A numeral is its leading digits followed by its last digit.
pub proof fn lemma_decimal_unfold(n: nat)
    ensures
        decimal(n) == decimal_head(n / 10).push((48 + n % 10) as u8),
{
}

/// Different numbers have different numerals.
pub proof fn lemma_decimal_injective(a: nat, b: nat)
    requires
        decimal(a) == decimal(b),
    ensures
        a == b,
    decreases a,
{
    lemma_decimal_unfold(a);
    lemma_decimal_unfold(b);
    let last = (48 + b % 10) as u8;
    let head = decimal_head(b / 10);
    assert(head.push(last).last() == last);
    assert(head.push(last).drop_last() =~= head);
    assert(decimal_head(a / 10) == head);
    if a / 10 == 0 {
        if b / 10 != 0 {
            lemma_decimal_unfold(b / 10);
        }
    } else {
        if b / 10 == 0 {
            lemma_decimal_unfold(a / 10);
        } else {
            lemma_decimal_injective(a / 10, b / 10);
        }
    }
}

/// Appends the decimal numeral of `n` to `buf`.
pub fn push_decimal(buf: &mut Vec<u8>, n: u64)
    ensures
        final(buf)@ == old(buf)@ + decimal(n as nat),
{
    let ghost before = buf@;
    let mut digits: Vec<u8> = Vec::new();
    digits.push(48 + (n % 10) as u8);
    let mut rest: u64 = n / 10;
    proof {
        lemma_decimal_unfold(n as nat);
    }
    while rest > 0
        invariant
            digits@.len() > 0,
            decimal(n as nat) == decimal_head(rest as nat) + Seq::new(
                digits@.len(),
                |j: int| digits@[digits@.len() - 1 - j],
            ),
        decreases rest,
    {
        proof {
            lemma_decimal_unfold(rest as nat);
        }
        digits.push(48 + (rest % 10) as u8);
        rest = rest / 10;
    }
    let count: usize = digits.len();
    let mut i: usize = count;
    while i > 0
        invariant
            i <= count,
            count == digits@.len(),
            buf@ == before + Seq::new(
                (count - i) as nat,
                |j: int| digits@[digits@.len() - 1 - j],
            ),
        decreases i,
    {
        i -= 1;
        buf.push(digits[i]);
    }
}

/// The UTF-8 encoding of `text`.
pub open spec fn utf8(text: Seq<char>) -> Seq<u8> {
    vstd::utf8::encode_utf8(text)
}

/// Different texts have different UTF-8 encodings.
pub proof fn lemma_utf8_injective(a: Seq<char>, b: Seq<char>)
    requires
        utf8(a) == utf8(b),
    ensures
        a == b,
{
    vstd::utf8::encode_utf8_decode_utf8(a);
    vstd::utf8::encode_utf8_decode_utf8(b);
}

/// Appends the UTF-8 bytes of `text` to `buf`.
pub fn push_str(buf: &mut Vec<u8>, text: &str)
    ensures
        final(buf)@ == old(buf)@ + utf8(text@),
{
    buf.extend_from_slice(text.as_bytes());
}

/// What `{:?}` prints for a string: the text in double quotes, with the
/// characters that must not appear literally written as escapes.
pub uninterp spec fn str_debug(text: Seq<char>) -> Seq<char>;

/// Formats `text` with `{:?}`, the `Debug` rendering of `str`. The result is
/// that rendering, which depends on the characters of `text` alone.
#[verifier::external_body]
pub(crate) fn debug_quoted(text: &str) -> (quoted: String)
    ensures
        quoted@ == str_debug(text@),
{
    format!("{:?}", text)
}

/// Appends the quoted form of `text` to `buf`.
pub fn push_quoted(buf: &mut Vec<u8>, text: &str)
    ensures
        final(buf)@ == old(buf)@ + utf8(str_debug(text@)),
{
    let quoted = debug_quoted(text);
    push_str(buf, quoted.as_str());
}

/// Equal sequences with an equal front have equal rests.
pub proof fn lemma_cancel_front(front: Seq<u8>, a: Seq<u8>, b: Seq<u8>)
    requires
        front + a == front + b,
    ensures
        a == b,
{
    assert(a =~= (front + a).subrange(front.len() as int, (front + a).len() as int));
    assert(b =~= (front + b).subrange(front.len() as int, (front + b).len() as int));
}

/// Equal sequences with an equal front and an equal back have equal middles.
pub proof fn lemma_cancel_around(front: Seq<u8>, a: Seq<u8>, b: Seq<u8>, back: Seq<u8>)
    requires
        front + a + back == front + b + back,
    ensures
        a == b,
{
    lemma_cancel_back(front + a, front + b, back);
    lemma_cancel_front(front, a, b);
}

/// Equal sequences with an equal back have equal fronts.
pub proof fn lemma_cancel_back(a: Seq<u8>, b: Seq<u8>, back: Seq<u8>)
    requires
        a + back == b + back,
    ensures
        a == b,
{
    assert(a =~= (a + back).subrange(0, a.len() as int));
    assert(b =~= (b + back).subrange(0, b.len() as int));
}

} // verus!
