//! Small operations on text that the engine needs: prefixes, equality,
//! decimal numbers.

use vstd::prelude::*;

verus! {

/// `String::push`: appends one character.
#[verifier::external_body]
pub(crate) fn push_char(text: &mut String, c: char)
    ensures
        final(text)@ == old(text)@.push(c),
{
    text.push(c)
}

/// Whether `text` starts with `prefix`.
pub open spec fn has_prefix(text: Seq<char>, prefix: Seq<char>) -> bool {
    prefix.len() <= text.len() && text.subrange(0, prefix.len() as int) == prefix
}

/// Whether `text` starts with `prefix`.
pub fn starts_with(text: &str, prefix: &str) -> (r: bool)
    ensures
        r == has_prefix(text@, prefix@),
{
    let n = prefix.unicode_len();
    let m = text.unicode_len();
    if n > m {
        return false;
    }
    let mut i: usize = 0;
    while i < n
        invariant
            0 <= i <= n,
            n == prefix@.len(),
            m == text@.len(),
            n <= m,
            forall|j: int| 0 <= j < i ==> text@[j] == prefix@[j],
        decreases n - i,
    {
        if text.get_char(i) != prefix.get_char(i) {
            assert(text@.subrange(0, n as int)[i as int] != prefix@[i as int]);
            return false;
        }
        i += 1;
    }
    assert(text@.subrange(0, n as int) =~= prefix@);
    true
}

/// Whether two texts are equal.
pub fn same_text(a: &str, b: &str) -> (r: bool)
    ensures
        r == (a@ == b@),
{
    let equal = a.unicode_len() == b.unicode_len() && starts_with(a, b);
    proof {
        if a@.len() == b@.len() {
            assert(a@.subrange(0, b@.len() as int) =~= a@);
        }
    }
    equal
}

/// Whether `pattern` occurs in `text`.
pub open spec fn has_part(text: Seq<char>, pattern: Seq<char>) -> bool {
    exists|i: int|
        0 <= i <= text.len() - pattern.len() && #[trigger] text.subrange(i, i + pattern.len())
            == pattern
}

/// Whether `pattern` occurs in `text`.
pub fn contains_text(text: &str, pattern: &str) -> (r: bool)
    ensures
        r == has_part(text@, pattern@),
{
    let n = pattern.unicode_len();
    let m = text.unicode_len();
    if n > m {
        return false;
    }
    let last = m - n;
    let mut i: usize = 0;
    loop
        invariant
            0 <= i <= last,
            last == m - n,
            n == pattern@.len(),
            m == text@.len(),
            n <= m,
            forall|j: int| 0 <= j < i ==> #[trigger] text@.subrange(j, j + n) != pattern@,
        decreases last - i,
    {
        let window = text.substring_char(i, i + n);
        if same_text(window, pattern) {
            return true;
        }
        if i == last {
            return false;
        }
        i += 1;
    }
}

/// The character of a decimal digit.
pub open spec fn digit_char(d: nat) -> char
    recommends
        d < 10,
{
    (('0' as u8) + (d as u8)) as char
}

/// A number in decimal, without leading zeros.
pub open spec fn decimal(n: nat) -> Seq<char>
    decreases n,
{
    if n < 10 {
        seq![digit_char(n)]
    } else {
        decimal(n / 10).push(digit_char(n % 10))
    }
}

/// Appends a number in decimal to a text.
pub fn push_decimal(text: &mut String, n: usize)
    ensures
        final(text)@ == old(text)@ + decimal(n as nat),
{
    let mut digits: Vec<char> = Vec::new();
    let mut rest = n;
    while rest >= 10
        invariant
            decimal(n as nat) == decimal(rest as nat) + digits@.reverse(),
        decreases rest,
    {
        let d = (rest % 10) as u8;
        let ghost before = digits@;
        digits.push((48u8 + d) as char);
        proof {
            assert(digits@.reverse() =~= seq![digits@.last()] + before.reverse());
            assert(decimal(rest as nat) == decimal((rest / 10) as nat).push(
                digit_char((rest % 10) as nat),
            ));
            assert(decimal((rest / 10) as nat).push(digits@.last()) + before.reverse() =~= decimal(
                (rest / 10) as nat,
            ) + digits@.reverse());
        }
        rest = rest / 10;
    }
    let ghost start = text@;
    push_char(text, (48u8 + rest as u8) as char);
    assert(text@ =~= start + decimal(rest as nat));
    let mut k: usize = digits.len();
    while k > 0
        invariant
            0 <= k <= digits@.len(),
            text@ == start + decimal(rest as nat) + digits@.reverse().take(digits@.len() - k),
        decreases k,
    {
        let c = digits[k - 1];
        let ghost shown = text@;
        push_char(text, c);
        proof {
            let r = digits@.reverse();
            assert(r[digits@.len() - k] == c);
            assert(r.take(digits@.len() - k + 1) =~= r.take(digits@.len() - k).push(c));
        }
        k -= 1;
    }
    proof {
        assert(digits@.reverse().take(digits@.len() as int) =~= digits@.reverse());
    }
}

} // verus!
