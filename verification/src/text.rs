//! Character and string primitives the code generator is built from.
use vstd::prelude::*;

verus! {

broadcast use vstd::string::group_string_axioms;

// ---------------------------------------------------------------------------
// Characters
// ---------------------------------------------------------------------------

/// `c` is an ASCII lowercase letter.
pub open spec fn is_lower(c: char) -> bool {
    'a' <= c <= 'z'
}

/// ASCII upper-casing: lowercase ASCII letters are mapped to their uppercase
/// counterpart, every other character is left alone.
pub open spec fn upper(c: char) -> char {
    if is_lower(c) {
        (c as u32 - 32) as char
    } else {
        c
    }
}

/// `c` is a decimal ASCII digit.
pub open spec fn is_digit(c: char) -> bool {
    '0' <= c <= '9'
}

/// The Unicode `White_Space` property.
pub open spec fn is_white_space(c: char) -> bool {
    ||| '\t' <= c <= '\r'
    ||| c == ' '
    ||| c == '\u{85}'
    ||| c == '\u{a0}'
    ||| c == '\u{1680}'
    ||| '\u{2000}' <= c <= '\u{200a}'
    ||| c == '\u{2028}'
    ||| c == '\u{2029}'
    ||| c == '\u{202f}'
    ||| c == '\u{205f}'
    ||| c == '\u{3000}'
}

/// ASCII upper-casing of one character.
pub fn to_ascii_upper(c: char) -> (r: char)
    ensures
        r == upper(c),
{
    if 'a' <= c && c <= 'z' {
        ((c as u8) - 32) as char
    } else {
        c
    }
}

/// Whether `c` is a decimal ASCII digit.
pub fn is_ascii_digit(c: char) -> (r: bool)
    ensures
        r == is_digit(c),
{
    '0' <= c && c <= '9'
}

/// Whether `c` has the Unicode `White_Space` property.
pub fn is_whitespace(c: char) -> (r: bool)
    ensures
        r == is_white_space(c),
{
    ('\t' <= c && c <= '\r') || c == ' ' || c == '\u{85}' || c == '\u{a0}' || c == '\u{1680}'
        || ('\u{2000}' <= c && c <= '\u{200a}') || c == '\u{2028}' || c == '\u{2029}'
        || c == '\u{202f}' || c == '\u{205f}' || c == '\u{3000}'
}

// ---------------------------------------------------------------------------
// Strings
// ---------------------------------------------------------------------------

/// The characters of `s`, in order.
pub fn chars_of(s: &str) -> (v: Vec<char>)
    ensures
        v@ == s@,
{
    let mut v: Vec<char> = Vec::new();
    for c in it: s.chars()
        invariant
            v@ == it.seq().take(it.index()),
            it.seq() == s@,
    {
        v.push(c);
    }
    v
}

/// Appends one character to a string.
///
/// Calls `String::push`; its contract claims that the string afterwards holds
/// the old characters followed by `c`, which is what std documents.
#[verifier::external_body]
pub fn push_char(s: &mut String, c: char)
    ensures
        final(s)@ == old(s)@.push(c),
{
    s.push(c)
}

/// Whether `a` and `b` hold the same characters.
pub fn same_text(a: &str, b: &str) -> (r: bool)
    ensures
        r == (a@ == b@),
{
    let x = chars_of(a);
    let y = chars_of(b);
    if x.len() != y.len() {
        return false;
    }
    let mut i: usize = 0;
    while i < x.len()
        invariant
            i <= x.len() == y.len(),
            x@ == a@,
            y@ == b@,
            forall|k: int| 0 <= k < i ==> x@[k] == y@[k],
        decreases x.len() - i,
    {
        if x[i] != y[i] {
            return false;
        }
        i += 1;
    }
    assert(x@ =~= y@);
    true
}

/// A string holding the characters of `s`.
pub fn string_of(s: &str) -> (r: String)
    ensures
        r@ == s@,
{
    let mut r = String::new();
    r.append(s);
    assert(Seq::<char>::empty() + s@ =~= s@);
    r
}

/// Appends a run of characters to a string.
pub fn push_chars(out: &mut String, v: &Vec<char>, from: usize, to: usize)
    requires
        from <= to <= v.len(),
    ensures
        final(out)@ == old(out)@ + v@.subrange(from as int, to as int),
{
    let mut i = from;
    while i < to
        invariant
            from <= i <= to <= v.len(),
            out@ == old(out)@ + v@.subrange(from as int, i as int),
        decreases to - i,
    {
        push_char(out, v[i]);
        assert(v@.subrange(from as int, i + 1) =~= v@.subrange(from as int, i as int).push(
            v@[i as int],
        ));
        i += 1;
    }
}

/// `t` when `c` holds, and nothing otherwise.
pub open spec fn only_if(c: bool, t: Seq<char>) -> Seq<char> {
    if c {
        t
    } else {
        Seq::empty()
    }
}

/// Appends `t` to `out` when `c` holds.
pub fn append_if(out: &mut String, c: bool, t: &str)
    ensures
        final(out)@ == old(out)@ + only_if(c, t@),
{
    if c {
        out.append(t);
    } else {
        assert(old(out)@ + Seq::<char>::empty() =~= old(out)@);
    }
}

/// A string holding `t` when `c` holds, and nothing otherwise.
pub fn text_if(c: bool, t: &str) -> (r: String)
    ensures
        r@ == only_if(c, t@),
{
    if c {
        string_of(t)
    } else {
        String::new()
    }
}

/// The texts `f(0, s[0])`, `f(1, s[1])`, ... written one after the other.
pub open spec fn concat_indexed<A>(s: Seq<A>, f: spec_fn(int, A) -> Seq<char>) -> Seq<char>
    decreases s.len(),
{
    if s.len() == 0 {
        Seq::empty()
    } else {
        concat_indexed(s.drop_last(), f) + f(s.len() - 1, s.last())
    }
}

/// Writing the first `i + 1` items is writing the first `i`, then item `i`.
pub proof fn lemma_concat_indexed_step<A>(s: Seq<A>, f: spec_fn(int, A) -> Seq<char>, i: int)
    requires
        0 <= i < s.len(),
    ensures
        concat_indexed(s.take(i + 1), f) == concat_indexed(s.take(i), f) + f(i, s[i]),
{
    assert(s.take(i + 1).drop_last() =~= s.take(i));
}

/// Writing all items of a sequence is writing its full prefix.
pub proof fn lemma_concat_indexed_all<A>(s: Seq<A>, f: spec_fn(int, A) -> Seq<char>)
    ensures
        concat_indexed(s.take(s.len() as int), f) == concat_indexed(s, f),
{
    assert(s.take(s.len() as int) =~= s);
}

// ---------------------------------------------------------------------------
// Decimal numbers
// ---------------------------------------------------------------------------

/// The ASCII digit for `d < 10`.
pub open spec fn digit(d: nat) -> char {
    (48 + d) as char
}

/// The decimal notation of `n`, without leading zeros.
pub open spec fn decimal(n: nat) -> Seq<char>
    decreases n,
{
    if n < 10 {
        seq![digit(n)]
    } else {
        decimal(n / 10).push(digit(n % 10))
    }
}

/// The number a string of decimal digits denotes.
pub open spec fn digits_value(s: Seq<char>) -> int
    decreases s.len(),
{
    if s.len() == 0 {
        0
    } else {
        digits_value(s.drop_last()) * 10 + (s.last() as int - '0' as int)
    }
}

/// Appends the decimal notation of `n` to `out`.
pub fn push_decimal(out: &mut String, n: u64)
    ensures
        final(out)@ == old(out)@ + decimal(n as nat),
    decreases n,
{
    if n >= 10 {
        push_decimal(out, n / 10);
    }
    let d = (n % 10) as u8;
    push_char(out, (48u8 + d) as char);
    proof {
        assert(digit((n % 10) as nat) == (48u8 + d) as char);
        if n >= 10 {
            assert(decimal(n as nat) == decimal((n / 10) as nat).push(digit((n % 10) as nat)));
        } else {
            assert(decimal(n as nat) == seq![digit(n as nat)]);
        }
        assert(final(out)@ =~= old(out)@ + decimal(n as nat));
    }
}

/// The decimal notation of `n`, as a string.
pub fn decimal_string(n: u64) -> (r: String)
    ensures
        r@ == decimal(n as nat),
{
    let mut r = String::new();
    push_decimal(&mut r, n);
    assert(Seq::<char>::empty() + decimal(n as nat) =~= decimal(n as nat));
    r
}

/// Decimal notation holds digits only, starts with `0` only when it is the
/// notation of zero, and denotes the number it was written for.
pub proof fn lemma_decimal_round_trip(n: nat)
    ensures
        decimal(n).len() >= 1,
        forall|i: int| 0 <= i < decimal(n).len() ==> is_digit(#[trigger] decimal(n)[i]),
        decimal(n)[0] == '0' <==> n == 0,
        digits_value(decimal(n)) == n,
    decreases n,
{
    if n >= 10 {
        lemma_decimal_round_trip(n / 10);
        let d = decimal(n / 10);
        assert(decimal(n).drop_last() =~= d);
        assert(decimal(n)[0] == d[0]);
        assert(digit(n % 10) as int == 48 + n % 10);
        assert(decimal(n).last() == digit(n % 10));
        assert('0' as int == 48);
        assert((n / 10) * 10 + n % 10 == n);
        assert(digits_value(decimal(n)) == digits_value(d) * 10 + (n % 10));
    } else {
        assert(decimal(n).drop_last() =~= Seq::<char>::empty());
        assert(digit(n) as int == 48 + n);
        assert('0' as int == 48);
        assert(digits_value(decimal(n).drop_last()) == 0);
        assert(digits_value(decimal(n)) == n);
    }
}

// ---------------------------------------------------------------------------
// Texts inside texts
// ---------------------------------------------------------------------------

/// `t` occurs in `s` at position `a`.
pub open spec fn occurs_at(s: Seq<char>, t: Seq<char>, a: int) -> bool {
    0 <= a && a + t.len() <= s.len() && s.subrange(a, a + t.len()) == t
}

/// `t` occurs somewhere in `s`.
pub open spec fn contains_text(s: Seq<char>, t: Seq<char>) -> bool {
    exists|a: int| occurs_at(s, t, a)
}

/// A text occurs in any text built around it.
pub proof fn lemma_contains_in(pre: Seq<char>, t: Seq<char>, post: Seq<char>)
    ensures
        contains_text(pre + t + post, t),
{
    assert((pre + t + post).subrange(pre.len() as int, (pre.len() + t.len()) as int) =~= t);
    assert(occurs_at(pre + t + post, t, pre.len() as int));
}

/// What occurs in a part of a text occurs in the text.
pub proof fn lemma_contains_trans(s: Seq<char>, u: Seq<char>, t: Seq<char>)
    requires
        contains_text(s, u),
        contains_text(u, t),
    ensures
        contains_text(s, t),
{
    let a = choose|a: int| occurs_at(s, u, a);
    let b = choose|b: int| occurs_at(u, t, b);
    assert(s.subrange(a + b, a + b + t.len()) =~= u.subrange(b, b + t.len()));
    assert(occurs_at(s, t, a + b));
}

/// Every item's text occurs in the texts of all items.
pub proof fn lemma_concat_indexed_contains<A>(s: Seq<A>, f: spec_fn(int, A) -> Seq<char>, k: int)
    requires
        0 <= k < s.len(),
    ensures
        contains_text(concat_indexed(s, f), f(k, s[k])),
    decreases s.len(),
{
    let u = s.drop_last();
    if k == s.len() - 1 {
        lemma_contains_in(concat_indexed(u, f), f(k, s[k]), Seq::empty());
        assert(concat_indexed(u, f) + f(k, s[k]) + Seq::<char>::empty() =~= concat_indexed(s, f));
    } else {
        lemma_concat_indexed_contains(u, f, k);
        assert(u[k] == s[k]);
        let last = f(s.len() - 1, s.last());
        lemma_contains_in(Seq::empty(), concat_indexed(u, f), last);
        assert(Seq::<char>::empty() + concat_indexed(u, f) + last =~= concat_indexed(s, f));
        lemma_contains_trans(concat_indexed(s, f), concat_indexed(u, f), f(k, s[k]));
    }
}

/// Different numbers have different decimal notations.
pub proof fn lemma_decimal_injective(a: nat, b: nat)
    ensures
        decimal(a) == decimal(b) <==> a == b,
{
    lemma_decimal_round_trip(a);
    lemma_decimal_round_trip(b);
}

} // verus!
