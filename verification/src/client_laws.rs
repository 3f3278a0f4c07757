//! What the generated bindings say about the protocol, stated over the whole
//! generated text and proved from the generator's specification.
use vstd::prelude::*;

use crate::client_spec::{
    arg_read_fn, arg_ref_fn, client_api_text, debug_text, dispatcher_text, event_case_fn,
    event_case_text, event_decl_fn, event_decl_text, event_enum_text, event_field_fn,
    event_handler_text, event_refs_text, event_values_text, event_variant_fn, events_text,
    first_new_id, from_ptr_text, header_text, interface_fn, interface_text, method_body_text,
    method_call_text, method_doc_text, method_text, new_id_count, opt_doc_text, param_fn,
    protocol_event_text, proxy_head_text, proxy_text, request_fn, request_text, requests_text,
    ret_tail_text, ret_type_text, set_evt_text, signature_text,
};
use crate::names::{camel, screaming};
use crate::protocol::{Interface, Message, Protocol, Type};
use crate::text::{
    concat_indexed, contains_text, decimal, lemma_concat_indexed_contains, lemma_contains_in,
    lemma_contains_trans, lemma_decimal_injective, only_if,
};
use crate::util::keyword;

verus! {

broadcast use vstd::string::group_string_axioms;

// ---------------------------------------------------------------------------
// Where the parts of an interface stand in the output
// ---------------------------------------------------------------------------

/// A text built as `pre + t + post` contains `t`.
proof fn lemma_contains_parts(s: Seq<char>, pre: Seq<char>, t: Seq<char>, post: Seq<char>)
    requires
        s =~= pre + t + post,
    ensures
        contains_text(s, t),
{
    lemma_contains_in(pre, t, post);
}

/// A text contains its beginning.
proof fn lemma_contains_prefix(a: Seq<char>, b: Seq<char>)
    ensures
        contains_text(a + b, a),
{
    lemma_contains_in(Seq::empty(), a, b);
    assert(Seq::<char>::empty() + a + b =~= a + b);
}

/// A text contains its end.
proof fn lemma_contains_suffix(a: Seq<char>, b: Seq<char>)
    ensures
        contains_text(a + b, b),
{
    lemma_contains_in(a, b, Seq::empty());
    assert(a + b + Seq::<char>::empty() =~= a + b);
}

/// The text of each interface stands in the output.
proof fn lemma_interface_in_output(p: Protocol, n: int)
    requires
        0 <= n < p.interfaces@.len(),
    ensures
        contains_text(client_api_text(p), interface_text(p.name@, p.interfaces@[n])),
{
    let all = concat_indexed(p.interfaces@, interface_fn(p.name@));
    lemma_concat_indexed_contains(p.interfaces@, interface_fn(p.name@), n);
    lemma_contains_parts(
        client_api_text(p),
        header_text(p) + protocol_event_text(p) + dispatcher_text(p),
        all,
        Seq::empty(),
    );
    lemma_contains_trans(client_api_text(p), all, interface_text(p.name@, p.interfaces@[n]));
}

/// The proxy type, the events and the request methods of an interface stand
/// in the output.
proof fn lemma_interface_parts(p: Protocol, n: int)
    requires
        0 <= n < p.interfaces@.len(),
    ensures
        contains_text(client_api_text(p), proxy_text(p.name@, p.interfaces@[n])),
        contains_text(client_api_text(p), events_text(p.name@, p.interfaces@[n])),
        contains_text(client_api_text(p), requests_text(p.interfaces@[n])),
        contains_text(client_api_text(p), crate::client_spec::opcodes_text(p.interfaces@[n])),
{
    let i = p.interfaces@[n];
    let pname = p.name@;
    let it = interface_text(pname, i);
    let out = client_api_text(p);
    lemma_interface_in_output(p, n);
    let a1 = "//\n// interface "@ + i.name@ + "\n//\n\n"@ + opt_doc_text(i.description, ""@);
    let a2 = a1 + proxy_text(pname, i);
    let a3 = a2 + concat_indexed(i.enums@, crate::client_spec::enum_fn(i.name@));
    let a4 = a3 + crate::client_spec::opcodes_text(i);
    let a5 = a4 + events_text(pname, i);
    let a6 = a5 + requests_text(i);
    assert(it == a6 + crate::client_spec::drop_text(i)) by {
        reveal(interface_text);
    }
    lemma_contains_prefix(a6, crate::client_spec::drop_text(i));
    lemma_contains_trans(out, it, a6);
    lemma_contains_suffix(a5, requests_text(i));
    lemma_contains_trans(out, a6, requests_text(i));
    lemma_contains_prefix(a5, requests_text(i));
    lemma_contains_trans(out, a6, a5);
    lemma_contains_suffix(a4, events_text(pname, i));
    lemma_contains_trans(out, a5, events_text(pname, i));
    lemma_contains_prefix(a4, events_text(pname, i));
    lemma_contains_trans(out, a5, a4);
    lemma_contains_suffix(a3, crate::client_spec::opcodes_text(i));
    lemma_contains_trans(out, a4, crate::client_spec::opcodes_text(i));
    lemma_contains_prefix(a3, crate::client_spec::opcodes_text(i));
    lemma_contains_trans(out, a4, a3);
    lemma_contains_prefix(a2, concat_indexed(i.enums@, crate::client_spec::enum_fn(i.name@)));
    lemma_contains_trans(out, a3, a2);
    lemma_contains_suffix(a1, proxy_text(pname, i));
    lemma_contains_trans(out, a2, proxy_text(pname, i));
}

/// The decoder of an interface with events stands in the output.
proof fn lemma_handler_in_output(p: Protocol, n: int)
    requires
        0 <= n < p.interfaces@.len(),
        p.interfaces@[n].events@.len() > 0,
    ensures
        contains_text(client_api_text(p), event_handler_text(p.name@, p.interfaces@[n])),
        contains_text(client_api_text(p), event_enum_text(p.interfaces@[n])),
{
    let i = p.interfaces@[n];
    lemma_interface_parts(p, n);
    lemma_contains_parts(
        events_text(p.name@, i),
        event_enum_text(i),
        event_handler_text(p.name@, i),
        Seq::empty(),
    );
    lemma_contains_trans(client_api_text(p), events_text(p.name@, i), event_handler_text(p.name@, i));
    lemma_contains_parts(
        events_text(p.name@, i),
        Seq::empty(),
        event_enum_text(i),
        event_handler_text(p.name@, i),
    );
    lemma_contains_trans(client_api_text(p), events_text(p.name@, i), event_enum_text(i));
}

/// The decoder arm of event `k` stands in the output.
proof fn lemma_arm_in_output(p: Protocol, n: int, k: int)
    requires
        0 <= n < p.interfaces@.len(),
        0 <= k < p.interfaces@[n].events@.len(),
    ensures
        contains_text(
            client_api_text(p),
            event_case_text(p.interfaces@[n].name@, k, p.interfaces@[n].events@[k]),
        ),
{
    let i = p.interfaces@[n];
    let pname = p.name@;
    let cases = concat_indexed(i.events@, event_case_fn(i.name@));
    lemma_handler_in_output(p, n);
    lemma_contains_parts(
        event_handler_text(pname, i),
        "fn "@ + i.name@
            + "_implem(proxy: *mut wl_proxy, opcode: u32, args: *const wl_argument) -> Option<"@
            + camel(pname) + "ProtocolEvent> {\n    let event = match opcode {\n"@,
        cases,
        "        _ => None\n    };\n    event.map(|event| "@ + camel(pname) + "ProtocolEvent::"@
            + camel(i.name@) + "(wrap_proxy(proxy), event))\n}\n\n"@,
    );
    lemma_contains_trans(client_api_text(p), event_handler_text(pname, i), cases);
    lemma_concat_indexed_contains(i.events@, event_case_fn(i.name@), k);
    lemma_contains_trans(client_api_text(p), cases, event_case_text(i.name@, k, i.events@[k]));
}

/// The declaration of event `k` in the event enum stands in the output.
proof fn lemma_decl_in_output(p: Protocol, n: int, k: int)
    requires
        0 <= n < p.interfaces@.len(),
        0 <= k < p.interfaces@[n].events@.len(),
    ensures
        contains_text(client_api_text(p), event_decl_text(p.interfaces@[n].events@[k])),
{
    let i = p.interfaces@[n];
    let decls = concat_indexed(i.events@, event_decl_fn());
    lemma_handler_in_output(p, n);
    lemma_contains_parts(
        event_enum_text(i),
        "#[derive(Debug)]\npub enum "@ + camel(i.name@) + "Event {\n"@,
        decls,
        "}\n\n"@,
    );
    lemma_contains_trans(client_api_text(p), event_enum_text(i), decls);
    lemma_concat_indexed_contains(i.events@, event_decl_fn(), k);
    lemma_contains_trans(client_api_text(p), decls, event_decl_text(i.events@[k]));
}

/// The method of request `k` stands in the output, unless the request
/// creates more than one object.
proof fn lemma_method_in_output(p: Protocol, n: int, k: int)
    requires
        0 <= n < p.interfaces@.len(),
        0 <= k < p.interfaces@[n].requests@.len(),
        new_id_count(p.interfaces@[n].requests@[k].args@) <= 1,
    ensures
        contains_text(
            client_api_text(p),
            method_text(
                p.interfaces@[n].name@,
                p.interfaces@[n].requests@[k],
                first_new_id(p.interfaces@[n].requests@[k].args@),
            ),
        ),
{
    let i = p.interfaces@[n];
    let all = concat_indexed(i.requests@, request_fn(i.name@));
    lemma_interface_parts(p, n);
    lemma_contains_parts(requests_text(i), "impl "@ + camel(i.name@) + " {\n"@, all, "}\n\n"@);
    lemma_contains_trans(client_api_text(p), requests_text(i), all);
    lemma_concat_indexed_contains(i.requests@, request_fn(i.name@), k);
    assert(request_text(i.name@, i.requests@[k]) == method_text(
        i.name@,
        i.requests@[k],
        first_new_id(i.requests@[k].args@),
    ));
    lemma_contains_trans(client_api_text(p), all, request_text(i.name@, i.requests@[k]));
}

// ---------------------------------------------------------------------------
// Laws
// ---------------------------------------------------------------------------

/// The event decoder numbers the events of an interface in declaration
/// order: the arm for opcode `k` reads the arguments of event `k` and builds
/// event `k`, and different events get different opcodes.
pub proof fn law_event_arm_opcode(p: Protocol, n: int, k: int)
    requires
        0 <= n < p.interfaces@.len(),
        0 <= k < p.interfaces@[n].events@.len(),
    ensures
        contains_text(
            client_api_text(p),
            "        "@ + decimal(k as nat) + " => {\n"@ + concat_indexed(
                p.interfaces@[n].events@[k].args@,
                arg_read_fn(),
            ) + "            Some("@ + camel(p.interfaces@[n].name@) + "Event::"@ + camel(
                p.interfaces@[n].events@[k].name@,
            ),
        ),
        forall|j: int|
            0 <= j < p.interfaces@[n].events@.len() && j != k ==> #[trigger] decimal(j as nat)
                != decimal(k as nat),
{
    let i = p.interfaces@[n];
    let m = i.events@[k];
    let t = "        "@ + decimal(k as nat) + " => {\n"@ + concat_indexed(m.args@, arg_read_fn())
        + "            Some("@ + camel(i.name@) + "Event::"@ + camel(m.name@);
    let arm = event_case_text(i.name@, k, m);
    lemma_arm_in_output(p, n, k);
    lemma_contains_parts(arm, Seq::empty(), t, event_refs_text(m) + ")\n        },\n"@);
    lemma_contains_trans(client_api_text(p), arm, t);
    assert forall|j: int| 0 <= j < i.events@.len() && j != k implies #[trigger] decimal(j as nat)
        != decimal(k as nat) by {
        lemma_decimal_injective(j as nat, k as nat);
    }
}

/// The interfaces of a sequence that have at least one event, in order.
pub open spec fn interfaces_with_events(s: Seq<Interface>) -> Seq<Interface>
    decreases s.len(),
{
    if s.len() == 0 {
        s
    } else if s.last().events@.len() > 0 {
        interfaces_with_events(s.drop_last()).push(s.last())
    } else {
        interfaces_with_events(s.drop_last())
    }
}

/// One variant line of the protocol event enum per interface, in order.
pub open spec fn variant_lines(s: Seq<Interface>) -> Seq<char>
    decreases s.len(),
{
    if s.len() == 0 {
        Seq::empty()
    } else {
        variant_lines(s.drop_last()) + "    "@ + camel(s.last().name@) + "(ProxyId, "@ + camel(
            s.last().name@,
        ) + "Event),\n"@
    }
}

proof fn lemma_variants(s: Seq<Interface>)
    ensures
        concat_indexed(s, event_variant_fn()) == variant_lines(interfaces_with_events(s)),
    decreases s.len(),
{
    if s.len() > 0 {
        lemma_variants(s.drop_last());
        if s.last().events@.len() > 0 {
            let w = interfaces_with_events(s.drop_last());
            assert(w.push(s.last()).drop_last() =~= w);
            assert(variant_lines(w.push(s.last())) =~= variant_lines(w) + ("    "@ + camel(
                s.last().name@,
            ) + "(ProxyId, "@ + camel(s.last().name@) + "Event),\n"@));
        } else {
            assert(concat_indexed(s, event_variant_fn()) =~= concat_indexed(
                s.drop_last(),
                event_variant_fn(),
            ));
        }
    }
}

/// The protocol event enum has one variant for each interface that has at
/// least one event, in order, and none for the other interfaces.
pub proof fn law_protocol_event_variants(p: Protocol)
    ensures
        contains_text(
            client_api_text(p),
            camel(p.name@) + "ProtocolEvent {\n"@ + variant_lines(
                interfaces_with_events(p.interfaces@),
            ) + "}\n\n"@,
        ),
        forall|k: int|
            0 <= k < p.interfaces@.len() ==> (interfaces_with_events(p.interfaces@).contains(
                #[trigger] p.interfaces@[k],
            ) <== p.interfaces@[k].events@.len() > 0),
        forall|k: int|
            0 <= k < interfaces_with_events(p.interfaces@).len() ==> (#[trigger] interfaces_with_events(
                p.interfaces@,
            )[k]).events@.len() > 0,
{
    let t = camel(p.name@) + "ProtocolEvent {\n"@ + variant_lines(interfaces_with_events(p.interfaces@))
        + "}\n\n"@;
    lemma_variants(p.interfaces@);
    lemma_contains_parts(
        protocol_event_text(p),
        "/// An event generated by the protocol "@ + p.name@
            + ".\n///\n/// Each variant is composed of a `ProxyId` reffering to the proxy object\n/// and of the event data itself.\n#[derive(Debug)]\npub enum "@,
        t,
        Seq::empty(),
    );
    lemma_contains_parts(
        client_api_text(p),
        header_text(p),
        protocol_event_text(p),
        dispatcher_text(p) + concat_indexed(p.interfaces@, interface_fn(p.name@)),
    );
    lemma_contains_trans(client_api_text(p), protocol_event_text(p), t);
    lemma_with_events(p.interfaces@);
}

proof fn lemma_with_events(s: Seq<Interface>)
    ensures
        forall|k: int|
            0 <= k < s.len() && s[k].events@.len() > 0 ==> interfaces_with_events(s).contains(
                #[trigger] s[k],
            ),
        forall|k: int|
            0 <= k < interfaces_with_events(s).len() ==> (
            #[trigger] interfaces_with_events(s)[k]).events@.len() > 0,
    decreases s.len(),
{
    if s.len() > 0 {
        let u = s.drop_last();
        lemma_with_events(u);
        let w = interfaces_with_events(u);
        assert forall|k: int| 0 <= k < s.len() && s[k].events@.len() > 0 implies interfaces_with_events(
            s,
        ).contains(#[trigger] s[k]) by {
            if k < s.len() - 1 {
                assert(s[k] == u[k]);
                let j = choose|j: int| 0 <= j < w.len() && w[j] == u[k];
                if s.last().events@.len() > 0 {
                    assert(w.push(s.last())[j] == s[k]);
                }
            } else {
                assert(w.push(s.last())[w.len() as int] == s[k]);
            }
        }
        if s.last().events@.len() > 0 {
            assert forall|k: int| 0 <= k < interfaces_with_events(s).len() implies (
            #[trigger] interfaces_with_events(s)[k]).events@.len() > 0 by {
                if k < w.len() {
                    assert(w.push(s.last())[k] == w[k]);
                }
            }
        }
    }
}

/// `from_ptr` registers the event handler exactly when the interface is not
/// `wl_display` and has at least one event.
pub proof fn law_from_ptr_registers_handler(p: Protocol, n: int)
    requires
        0 <= n < p.interfaces@.len(),
    ensures
        contains_text(
            client_api_text(p),
            "    unsafe fn from_ptr(ptr: *mut wl_proxy) -> "@ + camel(p.interfaces@[n].name@)
                + " {\n"@ + (if p.interfaces@[n].name@ != "wl_display"@
                && p.interfaces@[n].events@.len() > 0 {
                "        ffi_dispatch!(WAYLAND_CLIENT_HANDLE, wl_proxy_add_dispatcher, ptr, event_dispatcher, "@
                    + p.interfaces@[n].name@ + "_implem as *const c_void, ptr::null_mut());\n"@
            } else {
                Seq::empty()
            }) + "        "@ + camel(p.interfaces@[n].name@)
                + " { ptr: ptr, evq: Arc::new((EventFifo::new(), AtomicBool::new(false))) }\n    }\n"@,
        ),
{
    let i = p.interfaces@[n];
    lemma_interface_parts(p, n);
    lemma_contains_parts(
        proxy_text(p.name@, i),
        proxy_head_text(i),
        from_ptr_text(i),
        set_evt_text(i) + debug_text(p.name@, i),
    );
    lemma_contains_trans(client_api_text(p), proxy_text(p.name@, i), from_ptr_text(i));
}

/// An event variant carries a parenthesised field list exactly when the
/// event has arguments, and the decoder builds it the same way: with the
/// values it read when there are arguments, bare otherwise.
pub proof fn law_event_variant_shape(p: Protocol, n: int, k: int)
    requires
        0 <= n < p.interfaces@.len(),
        0 <= k < p.interfaces@[n].events@.len(),
    ensures
        contains_text(
            client_api_text(p),
            "    "@ + camel(p.interfaces@[n].events@[k].name@) + (
            if p.interfaces@[n].events@[k].args@.len() == 0 {
                Seq::empty()
            } else {
                "("@ + concat_indexed(p.interfaces@[n].events@[k].args@, event_field_fn()) + ")"@
            }) + ",\n"@,
        ),
        contains_text(
            client_api_text(p),
            "Event::"@ + camel(p.interfaces@[n].events@[k].name@) + (
            if p.interfaces@[n].events@[k].args@.len() == 0 {
                Seq::empty()
            } else {
                "("@ + concat_indexed(p.interfaces@[n].events@[k].args@, arg_ref_fn()) + ")"@
            }) + ")\n        },\n"@,
        ),
{
    let i = p.interfaces@[n];
    let m = i.events@[k];
    let fields = if m.args@.len() == 0 {
        Seq::empty()
    } else {
        "("@ + concat_indexed(m.args@, event_field_fn()) + ")"@
    };
    let refs = if m.args@.len() == 0 {
        Seq::empty()
    } else {
        "("@ + concat_indexed(m.args@, arg_ref_fn()) + ")"@
    };
    let decl = "    "@ + camel(m.name@) + fields + ",\n"@;
    let built = "Event::"@ + camel(m.name@) + refs + ")\n        },\n"@;
    lemma_decl_in_output(p, n, k);
    lemma_contains_parts(
        event_decl_text(m),
        opt_doc_text(m.description, "    "@) + event_values_text(m),
        decl,
        Seq::empty(),
    );
    lemma_contains_trans(client_api_text(p), event_decl_text(m), decl);
    lemma_arm_in_output(p, n, k);
    lemma_contains_parts(
        event_case_text(i.name@, k, m),
        "        "@ + decimal(k as nat) + " => {\n"@ + concat_indexed(m.args@, arg_read_fn())
            + "            Some("@ + camel(i.name@),
        built,
        Seq::empty(),
    );
    lemma_contains_trans(client_api_text(p), event_case_text(i.name@, k, m), built);
}

/// The signature of a request method starts with its name and how it takes
/// the proxy.
proof fn lemma_signature_head(m: Message, ret: Option<Option<String>>)
    ensures
        contains_text(
            signature_text(m, ret),
            "fn "@ + m.name@ + only_if(keyword(m.name@), "_"@) + only_if(
                ret == Some(None::<String>),
                "<T: Proxy>"@,
            ) + (if m.typ == Some(Type::Destructor) {
                "(self,"@
            } else {
                "(&self,"@
            }),
        ),
{
    let generic = ret == Some(None::<String>);
    let head = "fn "@ + m.name@ + only_if(keyword(m.name@), "_"@) + only_if(generic, "<T: Proxy>"@)
        + (if m.typ == Some(Type::Destructor) {
        "(self,"@
    } else {
        "(&self,"@
    });
    lemma_contains_parts(
        signature_text(m, ret),
        "    pub "@ + only_if(generic, "unsafe "@),
        head,
        concat_indexed(m.args@, param_fn()) + only_if(generic, "version: u32,"@) + ")"@
            + ret_type_text(ret) + " {\n"@,
    );
}

/// The body of a request method ends with the destruction of the proxy, or
/// not, and the new proxy, if any.
proof fn lemma_body_tail(iface: Seq<char>, m: Message, ret: Option<Option<String>>)
    ensures
        contains_text(
            method_body_text(iface, m, ret),
            ") };\n"@ + (if m.typ == Some(Type::Destructor) {
                "        unsafe { ffi_dispatch!(WAYLAND_CLIENT_HANDLE, wl_proxy_destroy, self.ptr()) }\n"@
            } else {
                Seq::empty()
            }) + ret_tail_text(ret) + "    }\n"@,
        ),
{
    let tail = ") };\n"@ + (if m.typ == Some(Type::Destructor) {
        "        unsafe { ffi_dispatch!(WAYLAND_CLIENT_HANDLE, wl_proxy_destroy, self.ptr()) }\n"@
    } else {
        Seq::empty()
    }) + ret_tail_text(ret) + "    }\n"@;
    lemma_contains_parts(
        method_body_text(iface, m, ret),
        method_call_text(iface, m, ret),
        tail,
        Seq::empty(),
    );
}

/// A request method takes the proxy by value and destroys it exactly when
/// the request's type is destructor, whatever the request is named.
pub proof fn law_destructor_method(p: Protocol, n: int, k: int)
    requires
        0 <= n < p.interfaces@.len(),
        0 <= k < p.interfaces@[n].requests@.len(),
        new_id_count(p.interfaces@[n].requests@[k].args@) <= 1,
    ensures
        contains_text(
            client_api_text(p),
            "fn "@ + p.interfaces@[n].requests@[k].name@ + only_if(
                keyword(p.interfaces@[n].requests@[k].name@),
                "_"@,
            ) + only_if(
                first_new_id(p.interfaces@[n].requests@[k].args@) == Some(None::<String>),
                "<T: Proxy>"@,
            ) + (if p.interfaces@[n].requests@[k].typ == Some(Type::Destructor) {
                "(self,"@
            } else {
                "(&self,"@
            }),
        ),
        contains_text(
            client_api_text(p),
            ") };\n"@ + (if p.interfaces@[n].requests@[k].typ == Some(Type::Destructor) {
                "        unsafe { ffi_dispatch!(WAYLAND_CLIENT_HANDLE, wl_proxy_destroy, self.ptr()) }\n"@
            } else {
                Seq::empty()
            }) + ret_tail_text(first_new_id(p.interfaces@[n].requests@[k].args@)) + "    }\n"@,
        ),
{
    let i = p.interfaces@[n];
    let m = i.requests@[k];
    let ret = first_new_id(m.args@);
    let out = client_api_text(p);
    let mt = method_text(i.name@, m, ret);
    let sig = signature_text(m, ret);
    let body = method_body_text(i.name@, m, ret);
    lemma_method_in_output(p, n, k);
    assert(mt == method_doc_text(m) + sig + body);
    lemma_contains_prefix(method_doc_text(m) + sig, body);
    lemma_contains_trans(out, mt, method_doc_text(m) + sig);
    lemma_contains_suffix(method_doc_text(m), sig);
    lemma_contains_trans(out, method_doc_text(m) + sig, sig);
    lemma_signature_head(m, ret);
    lemma_contains_trans(
        out,
        sig,
        "fn "@ + m.name@ + only_if(keyword(m.name@), "_"@) + only_if(
            ret == Some(None::<String>),
            "<T: Proxy>"@,
        ) + (if m.typ == Some(Type::Destructor) {
            "(self,"@
        } else {
            "(&self,"@
        }),
    );
    lemma_contains_suffix(method_doc_text(m) + sig, body);
    lemma_contains_trans(out, mt, body);
    lemma_body_tail(i.name@, m, ret);
    lemma_contains_trans(
        out,
        body,
        ") };\n"@ + (if m.typ == Some(Type::Destructor) {
            "        unsafe { ffi_dispatch!(WAYLAND_CLIENT_HANDLE, wl_proxy_destroy, self.ptr()) }\n"@
        } else {
            Seq::empty()
        }) + ret_tail_text(ret) + "    }\n"@,
    );
}

/// Requests are numbered in declaration order: request `k` gets the opcode
/// constant `k`, and different requests get different opcodes.
pub proof fn law_request_opcode(p: Protocol, n: int, k: int)
    requires
        0 <= n < p.interfaces@.len(),
        0 <= k < p.interfaces@[n].requests@.len(),
    ensures
        contains_text(
            client_api_text(p),
            "const "@ + screaming(p.interfaces@[n].name@) + "_"@ + screaming(
                p.interfaces@[n].requests@[k].name@,
            ) + ": u32 = "@ + decimal(k as nat) + ";\n"@,
        ),
        forall|j: int|
            0 <= j < p.interfaces@[n].requests@.len() && j != k ==> #[trigger] decimal(j as nat)
                != decimal(k as nat),
{
    let i = p.interfaces@[n];
    let out = client_api_text(p);
    let all = concat_indexed(i.requests@, crate::client_spec::opcode_fn(i.name@));
    lemma_interface_parts(p, n);
    lemma_contains_parts(
        crate::client_spec::opcodes_text(i),
        "// "@ + i.name@ + " opcodes\n"@,
        all,
        only_if(i.requests@.len() > 0, "\n"@),
    );
    lemma_contains_trans(out, crate::client_spec::opcodes_text(i), all);
    lemma_concat_indexed_contains(i.requests@, crate::client_spec::opcode_fn(i.name@), k);
    lemma_contains_trans(
        out,
        all,
        crate::client_spec::opcode_text(i.name@, k, i.requests@[k]),
    );
    assert forall|j: int| 0 <= j < i.requests@.len() && j != k implies #[trigger] decimal(j as nat)
        != decimal(k as nat) by {
        lemma_decimal_injective(j as nat, k as nat);
    }
}

} // verus!
