//! Which protocols the generator can write, decided ahead of writing.
use vstd::prelude::*;

use crate::client_spec::{entry_ok, event_arg_ok, interface_ok, protocol_ok};
use crate::names::{camel, snake_to_camel};
use crate::protocol::{Arg, Entry, Enum, Interface, Message, Protocol, Type};
use crate::text::{chars_of, is_ascii_digit, is_digit};

verus! {

broadcast use vstd::string::group_string_axioms;

/// Why the generator cannot write a protocol.
#[derive(Clone, Copy, Debug, PartialEq, Eq, Structural)]
pub enum Unsupported {
    /// An enum entry whose name holds nothing but underscores.
    EmptyVariantName,
    /// An enum entry whose name starts with a digit, in an enum without a name.
    DigitVariantInNamelessEnum,
    /// An interface with more requests than its opcodes can number.
    TooManyRequests,
    /// An event argument that creates an object of no known interface.
    NewIdWithoutInterface,
    /// An event argument of the destructor type.
    DestructorArgument,
}

// ---------------------------------------------------------------------------
// The first problem the generator meets
// ---------------------------------------------------------------------------

/// The first problem among `f(s[0])`, `f(s[1])`, ..., if any.
pub open spec fn first_problem<A>(s: Seq<A>, f: spec_fn(A) -> Option<Unsupported>) -> Option<
    Unsupported,
>
    decreases s.len(),
{
    if s.len() == 0 {
        None
    } else {
        match first_problem(s.drop_last(), f) {
            Some(e) => Some(e),
            None => f(s.last()),
        }
    }
}

/// The problem of an enum entry: a name that is all underscores, or a name
/// starting with a digit in an enum without a name.
pub open spec fn entry_problem(enum_name: Seq<char>, e: Entry) -> Option<Unsupported> {
    if camel(e.name@).len() == 0 {
        Some(Unsupported::EmptyVariantName)
    } else if is_digit(camel(e.name@)[0]) && enum_name.len() == 0 {
        Some(Unsupported::DigitVariantInNamelessEnum)
    } else {
        None
    }
}

pub open spec fn entry_problem_fn(enum_name: Seq<char>) -> spec_fn(Entry) -> Option<Unsupported> {
    |e: Entry| entry_problem(enum_name, e)
}

/// The first problem among the entries of an enum.
pub open spec fn enum_problem(e: Enum) -> Option<Unsupported> {
    first_problem(e.entries@, entry_problem_fn(e.name@))
}

pub open spec fn enum_problem_fn() -> spec_fn(Enum) -> Option<Unsupported> {
    |e: Enum| enum_problem(e)
}

/// An event argument creating an object of no known interface.
pub open spec fn new_id_problem(a: Arg) -> Option<Unsupported> {
    if a.typ == Type::NewId && a.interface is None {
        Some(Unsupported::NewIdWithoutInterface)
    } else {
        None
    }
}

/// An event argument of the destructor type.
pub open spec fn destructor_problem(a: Arg) -> Option<Unsupported> {
    if a.typ == Type::Destructor {
        Some(Unsupported::DestructorArgument)
    } else {
        None
    }
}

pub open spec fn new_id_problem_fn() -> spec_fn(Arg) -> Option<Unsupported> {
    |a: Arg| new_id_problem(a)
}

pub open spec fn destructor_problem_fn() -> spec_fn(Arg) -> Option<Unsupported> {
    |a: Arg| destructor_problem(a)
}

/// The first argument of an event creating an object of no known interface.
pub open spec fn event_new_id_problem(m: Message) -> Option<Unsupported> {
    first_problem(m.args@, new_id_problem_fn())
}

/// The first argument of an event of the destructor type.
pub open spec fn event_destructor_problem(m: Message) -> Option<Unsupported> {
    first_problem(m.args@, destructor_problem_fn())
}

pub open spec fn event_new_id_problem_fn() -> spec_fn(Message) -> Option<Unsupported> {
    |m: Message| event_new_id_problem(m)
}

pub open spec fn event_destructor_problem_fn() -> spec_fn(Message) -> Option<Unsupported> {
    |m: Message| event_destructor_problem(m)
}

/// The first problem the generator meets in an interface, in the order it
/// writes the interface: the enum entries, then the numbering of the
/// requests, then the event enum (new-id arguments), then the event handler
/// (destructor arguments).
pub open spec fn interface_problem(i: Interface) -> Option<Unsupported> {
    match first_problem(i.enums@, enum_problem_fn()) {
        Some(e) => Some(e),
        None => if i.requests@.len() > i32::MAX {
            Some(Unsupported::TooManyRequests)
        } else {
            match first_problem(i.events@, event_new_id_problem_fn()) {
                Some(e) => Some(e),
                None => first_problem(i.events@, event_destructor_problem_fn()),
            }
        },
    }
}

pub open spec fn interface_problem_fn() -> spec_fn(Interface) -> Option<Unsupported> {
    |i: Interface| interface_problem(i)
}

/// The first problem the generator meets in a protocol, interfaces in order.
pub open spec fn protocol_problem(p: Protocol) -> Option<Unsupported> {
    first_problem(p.interfaces@, interface_problem_fn())
}

/// Looking one more item ahead.
proof fn lemma_first_problem_step<A>(s: Seq<A>, f: spec_fn(A) -> Option<Unsupported>, k: int)
    requires
        0 <= k < s.len(),
    ensures
        first_problem(s.take(k + 1), f) == match first_problem(s.take(k), f) {
            Some(e) => Some(e),
            None => f(s[k]),
        },
{
    assert(s.take(k + 1).drop_last() =~= s.take(k));
}

/// There is no first problem exactly when no item has a problem.
pub proof fn lemma_first_problem_none<A>(s: Seq<A>, f: spec_fn(A) -> Option<Unsupported>)
    ensures
        first_problem(s, f) is None <==> forall|k: int| 0 <= k < s.len() ==> (#[trigger] f(s[k])) is None,
    decreases s.len(),
{
    if s.len() > 0 {
        lemma_first_problem_none(s.drop_last(), f);
        if first_problem(s, f) is None {
            assert forall|k: int| 0 <= k < s.len() implies (#[trigger] f(s[k])) is None by {
                if k < s.len() - 1 {
                    assert(s[k] == s.drop_last()[k]);
                }
            }
        } else if first_problem(s.drop_last(), f) is Some {
            let j = choose|j: int|
                0 <= j < s.drop_last().len() && !((#[trigger] f(s.drop_last()[j])) is None);
            assert(s[j] == s.drop_last()[j]);
        } else {
            assert(f(s[s.len() - 1]) is Some);
        }
    }
}

proof fn lemma_enum_problem(e: Enum)
    ensures
        enum_problem(e) is None <==> forall|j: int|
            0 <= j < e.entries@.len() ==> entry_ok(e.name@, #[trigger] e.entries@[j]),
{
    let f = entry_problem_fn(e.name@);
    lemma_first_problem_none(e.entries@, f);
    if enum_problem(e) is None {
        assert forall|j: int| 0 <= j < e.entries@.len() implies entry_ok(
            e.name@,
            #[trigger] e.entries@[j],
        ) by {
            assert(f(e.entries@[j]) is None);
        }
    }
    if forall|j: int| 0 <= j < e.entries@.len() ==> entry_ok(e.name@, #[trigger] e.entries@[j]) {
        assert forall|j: int| 0 <= j < e.entries@.len() implies (#[trigger] f(e.entries@[j]))
            is None by {
            assert(entry_ok(e.name@, e.entries@[j]));
        }
    }
}

proof fn lemma_event_problem(m: Message)
    ensures
        (event_new_id_problem(m) is None && event_destructor_problem(m) is None) <==> forall|j: int|
            0 <= j < m.args@.len() ==> event_arg_ok(#[trigger] m.args@[j]),
{
    let f = new_id_problem_fn();
    let g = destructor_problem_fn();
    let args = m.args@;
    lemma_first_problem_none(args, f);
    lemma_first_problem_none(args, g);
    if event_new_id_problem(m) is None && event_destructor_problem(m) is None {
        assert forall|j: int| 0 <= j < args.len() implies event_arg_ok(#[trigger] args[j]) by {
            assert(f(args[j]) is None);
            assert(g(args[j]) is None);
        }
    }
    if forall|j: int| 0 <= j < args.len() ==> event_arg_ok(#[trigger] args[j]) {
        assert forall|j: int| 0 <= j < args.len() implies (#[trigger] f(args[j])) is None by {
            assert(event_arg_ok(args[j]));
        }
        assert forall|j: int| 0 <= j < args.len() implies (#[trigger] g(args[j])) is None by {
            assert(event_arg_ok(args[j]));
        }
    }
}

/// The checker names a problem of an interface exactly when the generator
/// cannot write it.
pub proof fn lemma_interface_problem(i: Interface)
    ensures
        interface_problem(i) is None <==> interface_ok(i),
{
    let fe = enum_problem_fn();
    let fn_ = event_new_id_problem_fn();
    let fd = event_destructor_problem_fn();
    lemma_first_problem_none(i.enums@, fe);
    lemma_first_problem_none(i.events@, fn_);
    lemma_first_problem_none(i.events@, fd);
    if interface_problem(i) is None {
        assert forall|k: int, j: int|
            0 <= k < i.enums@.len() && 0 <= j < i.enums@[k].entries@.len() implies entry_ok(
            i.enums@[k].name@,
            #[trigger] i.enums@[k].entries@[j],
        ) by {
            assert(fe(i.enums@[k]) is None);
            lemma_enum_problem(i.enums@[k]);
        }
        assert forall|k: int, j: int|
            0 <= k < i.events@.len() && 0 <= j < i.events@[k].args@.len() implies event_arg_ok(
            #[trigger] i.events@[k].args@[j],
        ) by {
            assert(fn_(i.events@[k]) is None);
            assert(fd(i.events@[k]) is None);
            lemma_event_problem(i.events@[k]);
        }
    }
    if interface_ok(i) {
        assert forall|k: int| 0 <= k < i.enums@.len() implies (#[trigger] fe(i.enums@[k])) is None by {
            lemma_enum_problem(i.enums@[k]);
            assert forall|j: int| 0 <= j < i.enums@[k].entries@.len() implies entry_ok(
                i.enums@[k].name@,
                #[trigger] i.enums@[k].entries@[j],
            ) by {}
        }
        assert forall|k: int| 0 <= k < i.events@.len() implies (#[trigger] fn_(i.events@[k]))
            is None by {
            lemma_event_problem(i.events@[k]);
            assert forall|j: int| 0 <= j < i.events@[k].args@.len() implies event_arg_ok(
                #[trigger] i.events@[k].args@[j],
            ) by {}
        }
        assert forall|k: int| 0 <= k < i.events@.len() implies (#[trigger] fd(i.events@[k]))
            is None by {
            lemma_event_problem(i.events@[k]);
            assert forall|j: int| 0 <= j < i.events@[k].args@.len() implies event_arg_ok(
                #[trigger] i.events@[k].args@[j],
            ) by {}
        }
    }
}

/// The checker names a problem of a protocol exactly when the generator
/// cannot write it.
pub proof fn lemma_protocol_problem(p: Protocol)
    ensures
        protocol_problem(p) is None <==> protocol_ok(p),
{
    let f = interface_problem_fn();
    lemma_first_problem_none(p.interfaces@, f);
    if protocol_problem(p) is None {
        assert forall|k: int| 0 <= k < p.interfaces@.len() implies interface_ok(
            #[trigger] p.interfaces@[k],
        ) by {
            assert(f(p.interfaces@[k]) is None);
            lemma_interface_problem(p.interfaces@[k]);
        }
    }
    if protocol_ok(p) {
        assert forall|k: int| 0 <= k < p.interfaces@.len() implies (#[trigger] f(
            p.interfaces@[k],
        )) is None by {
            assert(interface_ok(p.interfaces@[k]));
            lemma_interface_problem(p.interfaces@[k]);
        }
    }
}

// ---------------------------------------------------------------------------
// The checker
// ---------------------------------------------------------------------------

fn check_entry(enum_name: &str, e: &Entry) -> (r: Option<Unsupported>)
    ensures
        r == entry_problem(enum_name@, *e),
{
    let v = snake_to_camel(e.name.as_str());
    let vc = chars_of(v.as_str());
    if vc.len() == 0 {
        Some(Unsupported::EmptyVariantName)
    } else if is_ascii_digit(vc[0]) && enum_name.is_empty() {
        Some(Unsupported::DigitVariantInNamelessEnum)
    } else {
        None
    }
}

fn check_enum(e: &Enum) -> (r: Option<Unsupported>)
    ensures
        r == enum_problem(*e),
{
    let v = &e.entries;
    let mut k: usize = 0;
    while k < v.len()
        invariant
            k <= v@.len(),
            v@ == e.entries@,
            first_problem(v@.take(k as int), entry_problem_fn(e.name@)) is None,
        decreases v.len() - k,
    {
        let r = check_entry(e.name.as_str(), &v[k]);
        proof {
            lemma_first_problem_step(v@, entry_problem_fn(e.name@), k as int);
        }
        if r.is_some() {
            proof {
                lemma_first_problem_prefix(v@, entry_problem_fn(e.name@), k + 1);
            }
            return r;
        }
        k += 1;
    }
    assert(v@.take(v.len() as int) =~= v@);
    None
}

fn check_new_ids(m: &Message) -> (r: Option<Unsupported>)
    ensures
        r == event_new_id_problem(*m),
{
    let v = &m.args;
    let mut k: usize = 0;
    while k < v.len()
        invariant
            k <= v@.len(),
            v@ == m.args@,
            first_problem(v@.take(k as int), new_id_problem_fn()) is None,
        decreases v.len() - k,
    {
        proof {
            lemma_first_problem_step(v@, new_id_problem_fn(), k as int);
        }
        if v[k].typ == Type::NewId && v[k].interface.is_none() {
            proof {
                lemma_first_problem_prefix(v@, new_id_problem_fn(), k + 1);
            }
            return Some(Unsupported::NewIdWithoutInterface);
        }
        k += 1;
    }
    assert(v@.take(v.len() as int) =~= v@);
    None
}

fn check_destructors(m: &Message) -> (r: Option<Unsupported>)
    ensures
        r == event_destructor_problem(*m),
{
    let v = &m.args;
    let mut k: usize = 0;
    while k < v.len()
        invariant
            k <= v@.len(),
            v@ == m.args@,
            first_problem(v@.take(k as int), destructor_problem_fn()) is None,
        decreases v.len() - k,
    {
        proof {
            lemma_first_problem_step(v@, destructor_problem_fn(), k as int);
        }
        if v[k].typ == Type::Destructor {
            proof {
                lemma_first_problem_prefix(v@, destructor_problem_fn(), k + 1);
            }
            return Some(Unsupported::DestructorArgument);
        }
        k += 1;
    }
    assert(v@.take(v.len() as int) =~= v@);
    None
}

fn check_interface(i: &Interface) -> (r: Option<Unsupported>)
    ensures
        r == interface_problem(*i),
{
    let v = &i.enums;
    let mut k: usize = 0;
    while k < v.len()
        invariant
            k <= v@.len(),
            v@ == i.enums@,
            first_problem(v@.take(k as int), enum_problem_fn()) is None,
        decreases v.len() - k,
    {
        let r = check_enum(&v[k]);
        proof {
            lemma_first_problem_step(v@, enum_problem_fn(), k as int);
        }
        if r.is_some() {
            proof {
                lemma_first_problem_prefix(v@, enum_problem_fn(), k + 1);
            }
            return r;
        }
        k += 1;
    }
    assert(v@.take(v.len() as int) =~= v@);
    if i.requests.len() > 0x7fff_ffff {
        return Some(Unsupported::TooManyRequests);
    }
    let v = &i.events;
    let mut k: usize = 0;
    while k < v.len()
        invariant
            k <= v@.len(),
            v@ == i.events@,
            i.requests@.len() <= i32::MAX,
            first_problem(i.enums@, enum_problem_fn()) is None,
            first_problem(v@.take(k as int), event_new_id_problem_fn()) is None,
        decreases v.len() - k,
    {
        let r = check_new_ids(&v[k]);
        proof {
            lemma_first_problem_step(v@, event_new_id_problem_fn(), k as int);
        }
        if r.is_some() {
            proof {
                lemma_first_problem_prefix(v@, event_new_id_problem_fn(), k + 1);
            }
            return r;
        }
        k += 1;
    }
    assert(v@.take(v.len() as int) =~= v@);
    let mut k: usize = 0;
    while k < v.len()
        invariant
            k <= v@.len(),
            v@ == i.events@,
            i.requests@.len() <= i32::MAX,
            first_problem(i.enums@, enum_problem_fn()) is None,
            first_problem(i.events@, event_new_id_problem_fn()) is None,
            first_problem(v@.take(k as int), event_destructor_problem_fn()) is None,
        decreases v.len() - k,
    {
        let r = check_destructors(&v[k]);
        proof {
            lemma_first_problem_step(v@, event_destructor_problem_fn(), k as int);
        }
        if r.is_some() {
            proof {
                lemma_first_problem_prefix(v@, event_destructor_problem_fn(), k + 1);
            }
            return r;
        }
        k += 1;
    }
    assert(v@.take(v.len() as int) =~= v@);
    None
}

/// Decides whether the generator can write `p`; when it cannot, names the
/// first problem the generator would meet while writing it.
pub fn check_protocol(p: &Protocol) -> (r: Result<(), Unsupported>)
    ensures
        r is Ok <==> protocol_ok(*p),
        r == match protocol_problem(*p) {
            None => Ok(()),
            Some(e) => Err(e),
        },
{
    let v = &p.interfaces;
    let mut k: usize = 0;
    while k < v.len()
        invariant
            k <= v@.len(),
            v@ == p.interfaces@,
            first_problem(v@.take(k as int), interface_problem_fn()) is None,
        decreases v.len() - k,
    {
        let r = check_interface(&v[k]);
        proof {
            lemma_first_problem_step(v@, interface_problem_fn(), k as int);
        }
        match r {
            Some(e) => {
                proof {
                    lemma_protocol_problem(*p);
                    lemma_first_problem_prefix(v@, interface_problem_fn(), k + 1);
                }
                return Err(e);
            },
            None => {},
        }
        k += 1;
    }
    assert(v@.take(v.len() as int) =~= v@);
    proof {
        lemma_protocol_problem(*p);
    }
    Ok(())
}

/// A problem met within a prefix is the first problem of the whole sequence.
proof fn lemma_first_problem_prefix<A>(s: Seq<A>, f: spec_fn(A) -> Option<Unsupported>, n: int)
    requires
        0 <= n <= s.len(),
        first_problem(s.take(n), f) is Some,
    ensures
        first_problem(s, f) == first_problem(s.take(n), f),
    decreases s.len() - n,
{
    if n < s.len() {
        lemma_first_problem_step(s, f, n);
        lemma_first_problem_prefix(s, f, n + 1);
    } else {
        assert(s.take(n) =~= s);
    }
}

} // verus!
