//! Turning protocol names into Rust identifiers.
use vstd::prelude::*;

use crate::text::{chars_of, is_lower, push_char, to_ascii_upper, upper};

verus! {

broadcast use vstd::string::group_string_axioms;

/// What character `i` of `s` becomes in the camel-case form of `s`:
/// underscores are dropped, the character that starts `s` or follows an
/// underscore is upper-cased, every other character is kept.
pub open spec fn camel_piece(s: Seq<char>, i: int) -> Seq<char> {
    if s[i] == '_' {
        Seq::empty()
    } else if i == 0 || s[i - 1] == '_' {
        seq![upper(s[i])]
    } else {
        seq![s[i]]
    }
}

/// The camel-case form of a snake-case name: `wl_data_device` becomes
/// `WlDataDevice`.
pub open spec fn camel(s: Seq<char>) -> Seq<char>
    decreases s.len(),
{
    if s.len() == 0 {
        Seq::empty()
    } else {
        camel(s.drop_last()) + camel_piece(s, s.len() - 1)
    }
}

/// The upper-case form of a name: `wl_surface` becomes `WL_SURFACE`.
pub open spec fn screaming(s: Seq<char>) -> Seq<char> {
    s.map_values(|c: char| upper(c))
}

/// Converts a snake-case name into camel case.
pub fn snake_to_camel(input: &str) -> (r: String)
    ensures
        r@ == camel(input@),
{
    let v = chars_of(input);
    let mut r = String::new();
    let mut i: usize = 0;
    while i < v.len()
        invariant
            i <= v.len(),
            v@ == input@,
            r@ == camel(v@.take(i as int)),
        decreases v.len() - i,
    {
        let c = v[i];
        let ghost prev = v@.take(i as int);
        let ghost next = v@.take(i + 1);
        assert(next.drop_last() =~= prev);
        if c == '_' {
            assert(camel_piece(next, i as int) =~= Seq::<char>::empty());
            assert(r@ =~= camel(next));
        } else if i == 0 || v[i - 1] == '_' {
            push_char(&mut r, to_ascii_upper(c));
            assert(camel_piece(next, i as int) =~= seq![upper(c)]);
        } else {
            push_char(&mut r, c);
            assert(camel_piece(next, i as int) =~= seq![c]);
        }
        i += 1;
    }
    assert(v@.take(v.len() as int) =~= v@);
    r
}

/// Converts a name to upper case.
pub fn snake_to_screaming(input: &str) -> (r: String)
    ensures
        r@ == screaming(input@),
{
    let v = chars_of(input);
    let mut r = String::new();
    let mut i: usize = 0;
    while i < v.len()
        invariant
            i <= v.len(),
            v@ == input@,
            r@ =~= screaming(v@.take(i as int)),
        decreases v.len() - i,
    {
        push_char(&mut r, to_ascii_upper(v[i]));
        i += 1;
    }
    assert(v@.take(v.len() as int) =~= v@);
    r
}

// ---------------------------------------------------------------------------
// Laws
// ---------------------------------------------------------------------------

/// Upper-casing never produces a lowercase letter and is idempotent; it maps
/// `_` to itself only.
pub proof fn lemma_upper(c: char)
    ensures
        !is_lower(upper(c)),
        upper(upper(c)) == upper(c),
        upper(c) == '_' <==> c == '_',
{
    if is_lower(c) {
        assert((c as u32 - 32) as char as u32 == c as u32 - 32);
    }
}

/// A camel-case name holds no underscore.
pub proof fn lemma_camel_no_underscore(s: Seq<char>)
    ensures
        forall|k: int| 0 <= k < camel(s).len() ==> #[trigger] camel(s)[k] != '_',
    decreases s.len(),
{
    if s.len() > 0 {
        lemma_camel_no_underscore(s.drop_last());
        lemma_upper(s.last());
        let a = camel(s.drop_last());
        let b = camel_piece(s, s.len() - 1);
        assert forall|k: int| 0 <= k < camel(s).len() implies #[trigger] camel(s)[k] != '_' by {
            if k >= a.len() {
                assert(camel(s)[k] == b[k - a.len()]);
            } else {
                assert(camel(s)[k] == a[k]);
            }
        }
    }
}

/// The camel-case form drops exactly the underscores: it is as long as the
/// name without them.
pub proof fn lemma_camel_len(s: Seq<char>)
    ensures
        camel(s).len() == s.filter(|c: char| c != '_').len(),
    decreases s.len(),
{
    reveal_with_fuel(Seq::<char>::filter, 1);
    if s.len() > 0 {
        lemma_camel_len(s.drop_last());
    }
}

/// A name that does not end with an underscore has a non-empty camel-case form.
proof fn lemma_camel_empty(s: Seq<char>)
    ensures
        camel(s).len() == 0 ==> s.len() == 0 || s.last() == '_',
{
}

/// The first character of a camel-case name is already upper-cased.
proof fn lemma_camel_first(s: Seq<char>)
    ensures
        camel(s).len() > 0 ==> upper(camel(s)[0]) == camel(s)[0],
    decreases s.len(),
{
    if s.len() > 0 {
        lemma_camel_first(s.drop_last());
        lemma_camel_empty(s.drop_last());
        lemma_upper(s.last());
        if camel(s.drop_last()).len() > 0 {
            assert(camel(s)[0] == camel(s.drop_last())[0]);
        }
    }
}

/// For a name without underscores, camel case only upper-cases the first
/// character.
proof fn lemma_camel_plain(t: Seq<char>)
    requires
        forall|k: int| 0 <= k < t.len() ==> #[trigger] t[k] != '_',
    ensures
        t.len() > 0 ==> camel(t) =~= t.update(0, upper(t[0])),
        t.len() == 0 ==> camel(t) =~= t,
    decreases t.len(),
{
    if t.len() > 0 {
        let u = t.drop_last();
        assert forall|k: int| 0 <= k < u.len() implies #[trigger] u[k] != '_' by {
            assert(u[k] == t[k]);
        }
        lemma_camel_plain(u);
    }
}

/// Converting to camel case twice is converting once.
pub proof fn lemma_camel_idempotent(s: Seq<char>)
    ensures
        camel(camel(s)) == camel(s),
{
    let t = camel(s);
    lemma_camel_no_underscore(s);
    lemma_camel_plain(t);
    lemma_camel_first(s);
    if t.len() > 0 {
        assert(t.update(0, upper(t[0])) =~= t);
    }
}

/// Upper-casing keeps the length, leaves no lowercase letter, and is
/// idempotent.
pub proof fn lemma_screaming(s: Seq<char>)
    ensures
        screaming(s).len() == s.len(),
        forall|k: int| 0 <= k < s.len() ==> !is_lower(#[trigger] screaming(s)[k]),
        screaming(screaming(s)) == screaming(s),
{
    assert forall|k: int| 0 <= k < s.len() implies !is_lower(#[trigger] screaming(s)[k]) by {
        lemma_upper(s[k]);
    }
    assert forall|k: int| 0 <= k < s.len() implies #[trigger] screaming(screaming(s))[k]
        == screaming(s)[k] by {
        lemma_upper(s[k]);
    }
    assert(screaming(screaming(s)) =~= screaming(s));
}

} // verus!
