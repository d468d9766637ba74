//! Decimal text of unsigned integers, as line numbers travel on the wire.
use vstd::prelude::*;

verus! {

/// The character of a decimal digit.
pub open spec fn digit_char(d: nat) -> char {
    if d == 0 { '0' } else if d == 1 { '1' } else if d == 2 { '2' } else if d == 3 { '3' }
    else if d == 4 { '4' } else if d == 5 { '5' } else if d == 6 { '6' } else if d == 7 { '7' }
    else if d == 8 { '8' } else { '9' }
}

/// Whether `c` is one of the ASCII digits `0` to `9`.
pub open spec fn is_digit(c: char) -> bool {
    '0' <= c && c <= '9'
}

/// The value of a digit character.
pub open spec fn digit_value(c: char) -> nat {
    ((c as int) - ('0' as int)) as nat
}

/// A non-empty run of digits.
pub open spec fn all_digits(s: Seq<char>) -> bool {
    s.len() > 0 && forall|i: int| 0 <= i < s.len() ==> is_digit(#[trigger] s[i])
}

/// The value of a run of digits, most significant first.
pub open spec fn digits_value(s: Seq<char>) -> nat
    decreases s.len(),
{
    if s.len() == 0 {
        0
    } else {
        digits_value(s.drop_last()) * 10 + digit_value(s.last())
    }
}

/// The shortest decimal text of `n`.
pub open spec fn decimal_text(n: nat) -> Seq<char>
    decreases n,
{
    if n < 10 {
        seq![digit_char(n)]
    } else {
        decimal_text(n / 10).push(digit_char(n % 10))
    }
}

/// The digits of an unsigned integer's text: an optional leading `+` is dropped.
pub open spec fn unsigned_digits(s: Seq<char>) -> Seq<char> {
    if s.len() > 0 && s[0] == '+' {
        s.drop_first()
    } else {
        s
    }
}

/// Whether `s` is the text of a `u32`: an optional `+`, then digits whose
/// value fits in 32 bits.
pub open spec fn is_u32_text(s: Seq<char>) -> bool {
    all_digits(unsigned_digits(s)) && digits_value(unsigned_digits(s)) <= u32::MAX
}

/// The `u32` that the text `s` stands for, where `is_u32_text(s)`.
pub open spec fn u32_of_text(s: Seq<char>) -> u32 {
    digits_value(unsigned_digits(s)) as u32
}

proof fn lemma_digit_char(d: nat)
    requires
        d < 10,
    ensures
        is_digit(digit_char(d)),
        digit_value(digit_char(d)) == d,
        digit_char(d) != '+',
{
}

/// The decimal text of `n` is a run of digits whose value is `n`.
pub proof fn lemma_decimal_text(n: nat)
    ensures
        all_digits(decimal_text(n)),
        digits_value(decimal_text(n)) == n,
        decimal_text(n)[0] != '+',
    decreases n,
{
    if n < 10 {
        lemma_digit_char(n);
        assert(decimal_text(n).drop_last() =~= Seq::<char>::empty());
        assert(digits_value(Seq::<char>::empty()) == 0);
    } else {
        lemma_decimal_text(n / 10);
        lemma_digit_char(n % 10);
        let s = decimal_text(n);
        assert(s.drop_last() =~= decimal_text(n / 10));
        assert(s.last() == digit_char(n % 10));
        assert((n / 10) * 10 + n % 10 == n);
        assert forall|i: int| 0 <= i < s.len() implies is_digit(#[trigger] s[i]) by {
            if i < s.len() - 1 {
                assert(s[i] == decimal_text(n / 10)[i]);
            }
        }
    }
}

/// Parsing the decimal text of a `u32` gives that `u32` back.
pub proof fn lemma_u32_text_round_trip(n: u32)
    ensures
        is_u32_text(decimal_text(n as nat)),
        u32_of_text(decimal_text(n as nat)) == n,
{
    lemma_decimal_text(n as nat);
}

/// A run of digits is worth at least as much as any of its prefixes.
proof fn lemma_prefix_value(s: Seq<char>, i: int)
    requires
        0 <= i <= s.len(),
    ensures
        digits_value(s.subrange(0, i)) <= digits_value(s),
    decreases s.len() - i,
{
    if i < s.len() {
        lemma_prefix_value(s, i + 1);
        assert(s.subrange(0, i + 1).drop_last() =~= s.subrange(0, i));
    } else {
        assert(s.subrange(0, i) =~= s);
    }
}

fn push_digit(d: u32, out: &mut Vec<char>)
    requires
        d < 10,
    ensures
        final(out)@ == old(out)@.push(digit_char(d as nat)),
{
    let c = if d == 0 { '0' } else if d == 1 { '1' } else if d == 2 { '2' } else if d == 3 { '3' }
        else if d == 4 { '4' } else if d == 5 { '5' } else if d == 6 { '6' } else if d == 7 { '7' }
        else if d == 8 { '8' } else { '9' };
    out.push(c);
}

fn push_decimal(n: u32, out: &mut Vec<char>)
    ensures
        final(out)@ == old(out)@ + decimal_text(n as nat),
    decreases n,
{
    if n >= 10 {
        push_decimal(n / 10, out);
    }
    push_digit(n % 10, out);
    assert(final(out)@ =~= old(out)@ + decimal_text(n as nat));
}

/// The decimal text of `n`, as `u32::to_string` writes it.
pub fn u32_text(n: u32) -> (r: String)
    ensures
        r@ == decimal_text(n as nat),
{
    let mut out: Vec<char> = Vec::new();
    push_decimal(n, &mut out);
    assert(out@ =~= decimal_text(n as nat));
    crate::text::string_of(&out)
}

/// Reads a `u32` from its text, as `str::parse::<u32>` does: an optional `+`
/// followed by decimal digits, with no other character, fitting in 32 bits.
pub fn parse_u32(s: &str) -> (r: Option<u32>)
    ensures
        r == (if is_u32_text(s@) { Some(u32_of_text(s@)) } else { None::<u32> }),
{
    let cs = crate::text::chars_of(s);
    let start: usize = if cs.len() > 0 && cs[0] == '+' { 1 } else { 0 };
    let ghost ds = unsigned_digits(s@);
    assert(ds =~= cs@.subrange(start as int, cs@.len() as int));
    if start >= cs.len() {
        return None;
    }
    let mut acc: u64 = 0;
    let mut i: usize = start;
    while i < cs.len()
        invariant
            cs@ == s@,
            ds == unsigned_digits(s@),
            start <= i <= cs@.len(),
            ds == cs@.subrange(start as int, cs@.len() as int),
            forall|j: int| 0 <= j < i - start ==> is_digit(#[trigger] ds[j]),
            acc == digits_value(ds.subrange(0, i - start)),
            acc <= u32::MAX,
        decreases cs@.len() - i,
    {
        let c = cs[i];
        if !('0' <= c && c <= '9') {
            assert(ds[i - start] == c);
            assert(!all_digits(ds));
            return None;
        }
        let d = (c as u32) - ('0' as u32);
        assert(ds.subrange(0, i + 1 - start).drop_last() =~= ds.subrange(0, i - start));
        assert(ds.subrange(0, i + 1 - start).last() == c);
        assert(d == digit_value(c));
        acc = acc * 10 + d as u64;
        assert(acc == digits_value(ds.subrange(0, i + 1 - start)));
        i = i + 1;
        if acc > u32::MAX as u64 {
            proof {
                if all_digits(ds) {
                    lemma_prefix_value(ds, i - start);
                }
            }
            return None;
        }
    }
    assert(ds.subrange(0, ds.len() as int) =~= ds);
    Some(acc as u32)
}

} // verus!
