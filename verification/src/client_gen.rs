//! The generator of client bindings.
//!
//! Every function here writes one part of the output and is proved to write
//! exactly the text that `client_spec` gives for it.
use vstd::prelude::*;

use crate::client_spec::{
    add_dispatcher_text, arg_read_expr, arg_read_fn, arg_ref_fn, call_arg_fn, call_arg_text,
    call_head_text, client_api_text, conversion_fn, conversion_text, debug_text,
    dispatcher_text, drop_text, entry_fn, entry_ok, entry_text, enum_fn, enum_text,
    event_arg_ok, event_case_fn, event_case_text, event_decl_fn, event_decl_text,
    event_field_fn, event_field_type, event_variant_fn, event_variant_text, events_text,
    first_new_id, from_ptr_text, header_text, interface_fn, interface_ok, interface_text,
    is_destructor, is_display, method_body_text, method_call_text, method_doc_text, method_text,
    new_id_count, opcode_fn, opcode_text, opcodes_text, opt_doc_text, param_fn, param_text,
    param_type, protocol_event_text, protocol_ok, proxy_head_text, proxy_text, request_fn,
    request_text, requests_text, ret_name, set_evt_text, signature_text, value_name_fn,
    variant_name,
};
use crate::doc::write_doc;
use crate::names::{camel, snake_to_camel, snake_to_screaming};
use crate::protocol::{Arg, Entry, Enum, Interface, Message, Protocol, Type};
use crate::text::{
    append_if, chars_of, concat_indexed, decimal_string, is_ascii_digit, is_digit,
    lemma_concat_indexed_all, lemma_concat_indexed_step, push_char, same_text,
    string_of, text_if, to_ascii_upper, upper,
};
use crate::util::is_keyword;

verus! {

broadcast use vstd::string::group_string_axioms;

/// The doc comment of an optional (summary, description) pair.
fn opt_doc(d: &Option<(String, String)>, prefix: &str) -> (r: String)
    ensures
        r@ == opt_doc_text(*d, prefix@),
{
    match d {
        Some((summary, contents)) => {
            let mut r = String::new();
            write_doc(summary.as_str(), contents.as_str(), prefix, &mut r);
            assert(r@ =~= opt_doc_text(*d, prefix@));
            r
        },
        None => String::new(),
    }
}

/// Whether an interface is `wl_display`.
fn display(name: &String) -> (r: bool)
    ensures
        r == is_display(name@),
{
    same_text(name.as_str(), "wl_display")
}

// ---------------------------------------------------------------------------
// File header and protocol-wide items
// ---------------------------------------------------------------------------

fn header(p: &Protocol) -> (r: String)
    ensures
        r@ == header_text(*p),
{
    let mut s = string_of("//\n// This file was auto-generated, do not edit directly\n//\n\n");
    let c = match &p.copyright {
        Some(t) => {
            let mut c = string_of("/*\n");
            c.append(t.as_str());
            c.append("\n*/\n\n");
            c
        },
        None => String::new(),
    };
    s.append(c.as_str());
    s.append(
        "use wayland_sys::common::*;\nuse wayland_sys::client::*;\nuse {Proxy, ProxyId, wrap_proxy};\nuse events::{EventIterator, EventFifo, get_eventiter_internals, eventiter_from_internals};\n// update if needed to the appropriate file\nuse super::interfaces::*;\n\nuse std::ffi::{CString, CStr};\nuse std::ptr;\nuse std::sync::Arc;\nuse std::sync::atomic::{AtomicBool, Ordering};\nuse libc::{c_void, c_char};\n",
    );
    s
}

fn event_variant(i: &Interface) -> (r: String)
    ensures
        r@ == event_variant_text(*i),
{
    if i.events.len() > 0 {
        let c = snake_to_camel(i.name.as_str());
        let mut s = string_of("    ");
        s.append(c.as_str());
        s.append("(ProxyId, ");
        s.append(c.as_str());
        s.append("Event),\n");
        s
    } else {
        String::new()
    }
}

fn event_variants(v: &Vec<Interface>) -> (r: String)
    ensures
        r@ == concat_indexed(v@, event_variant_fn()),
{
    let mut r = String::new();
    let mut k: usize = 0;
    while k < v.len()
        invariant
            k <= v.len(),
            r@ == concat_indexed(v@.take(k as int), event_variant_fn()),
        decreases v.len() - k,
    {
        let t = event_variant(&v[k]);
        proof {
            lemma_concat_indexed_step(v@, event_variant_fn(), k as int);
        }
        r.append(t.as_str());
        k += 1;
    }
    proof {
        lemma_concat_indexed_all(v@, event_variant_fn());
    }
    r
}

fn protocol_events(p: &Protocol) -> (r: String)
    ensures
        r@ == protocol_event_text(*p),
{
    let mut s = string_of("/// An event generated by the protocol ");
    s.append(p.name.as_str());
    s.append(
        ".\n///\n/// Each variant is composed of a `ProxyId` reffering to the proxy object\n/// and of the event data itself.\n#[derive(Debug)]\npub enum ",
    );
    let c = snake_to_camel(p.name.as_str());
    s.append(c.as_str());
    s.append("ProtocolEvent {\n");
    let t = event_variants(&p.interfaces);
    s.append(t.as_str());
    s.append("}\n\n");
    s
}

fn dispatcher(p: &Protocol) -> (r: String)
    ensures
        r@ == dispatcher_text(*p),
{
    let c = snake_to_camel(p.name.as_str());
    let mut s = string_of("type ");
    s.append(p.name.as_str());
    s.append("_dispatcher_implem = fn(*mut wl_proxy, u32, *const wl_argument) -> Option<");
    s.append(c.as_str());
    s.append(
        "ProtocolEvent>;\n\nextern \"C\" fn event_dispatcher(implem: *const c_void, proxy: *mut c_void, opcode: u32, _: *const wl_message, args: *const wl_argument) {\n    let userdata = unsafe { ffi_dispatch!(WAYLAND_CLIENT_HANDLE, wl_proxy_get_user_data, proxy as *mut wl_proxy) } as *const (EventFifo, AtomicBool);\n    if userdata.is_null() { return; }\n    let fifo: &(EventFifo, AtomicBool) = unsafe { &*userdata };\n    if !fifo.1.load(Ordering::SeqCst) { return; }\n    let implem = unsafe { ::std::mem::transmute::<_, ",
    );
    s.append(p.name.as_str());
    s.append(
        "_dispatcher_implem>(implem) };\n    let event = implem(proxy as *mut wl_proxy, opcode, args);\n    if let Some(evt) = event {\n        fifo.0.push(::Event::",
    );
    s.append(c.as_str());
    s.append("(evt));\n    }\n}\n");
    s
}

// ---------------------------------------------------------------------------
// The proxy type of an interface
// ---------------------------------------------------------------------------

fn add_dispatcher(i: &Interface) -> (r: String)
    ensures
        r@ == add_dispatcher_text(*i),
{
    if !display(&i.name) && i.events.len() > 0 {
        let mut s = string_of(
            "        ffi_dispatch!(WAYLAND_CLIENT_HANDLE, wl_proxy_add_dispatcher, ptr, event_dispatcher, ",
        );
        s.append(i.name.as_str());
        s.append("_implem as *const c_void, ptr::null_mut());\n");
        s
    } else {
        String::new()
    }
}

fn proxy_head(i: &Interface) -> (r: String)
    ensures
        r@ == proxy_head_text(*i),
{
    let c = snake_to_camel(i.name.as_str());
    let n = i.name.as_str();
    let mut s = string_of("pub struct ");
    s.append(c.as_str());
    s.append(
        " {\n    ptr: *mut wl_proxy,\n    evq: Arc<(EventFifo,AtomicBool)>\n}\n\nunsafe impl Sync for ",
    );
    s.append(c.as_str());
    s.append(" {}\nunsafe impl Send for ");
    s.append(c.as_str());
    s.append(" {}\nimpl Proxy for ");
    s.append(c.as_str());
    s.append(
        " {\n    fn ptr(&self) -> *mut wl_proxy { self.ptr }\n    fn interface() -> *mut wl_interface { unsafe { &mut ",
    );
    s.append(n);
    s.append("_interface  as *mut wl_interface } }\n    fn interface_name() -> &'static str { \"");
    s.append(n);
    s.append("\" }\n    fn version() -> u32 { ");
    let v = decimal_string(i.version as u64);
    s.append(v.as_str());
    s.append(" }\n    fn id(&self) -> ProxyId { ProxyId { id: self.ptr as usize } }\n");
    s
}

fn from_ptr(i: &Interface) -> (r: String)
    ensures
        r@ == from_ptr_text(*i),
{
    let c = snake_to_camel(i.name.as_str());
    let mut s = string_of("    unsafe fn from_ptr(ptr: *mut wl_proxy) -> ");
    s.append(c.as_str());
    s.append(" {\n");
    let d = add_dispatcher(i);
    s.append(d.as_str());
    s.append("        ");
    s.append(c.as_str());
    s.append(" { ptr: ptr, evq: Arc::new((EventFifo::new(), AtomicBool::new(false))) }\n    }\n");
    s
}

fn set_evt(i: &Interface) -> (r: String)
    ensures
        r@ == set_evt_text(*i),
{
    let mut s = string_of(
        "    fn set_evt_iterator(&mut self, evt: &EventIterator) {\n        self.evq = get_eventiter_internals(evt);\n",
    );
    append_if(
        &mut s,
        !display(&i.name),
        "        let ptr = &*self.evq as *const (EventFifo,AtomicBool);\n        unsafe { ffi_dispatch!(WAYLAND_CLIENT_HANDLE, wl_proxy_set_user_data, self.ptr, ptr as *const c_void as *mut c_void) };\n",
    );
    s.append("    }\n}\n\n");
    s
}

fn debug_impl(pname: &str, i: &Interface) -> (r: String)
    ensures
        r@ == debug_text(pname@, *i),
{
    let c = snake_to_camel(i.name.as_str());
    let mut s = string_of("impl ::std::fmt::Debug for ");
    s.append(c.as_str());
    s.append(
        " {\n    fn fmt(&self, fmt: &mut ::std::fmt::Formatter) -> Result<(), ::std::fmt::Error> {\n        fmt.write_fmt(format_args!(\"",
    );
    s.append(pname);
    s.append("::");
    s.append(i.name.as_str());
    s.append("::{}\", self.ptr as usize))\n    }\n}\n\n");
    s
}

fn proxy(pname: &str, i: &Interface) -> (r: String)
    ensures
        r@ == proxy_text(pname@, *i),
{
    let mut s = proxy_head(i);
    let f = from_ptr(i);
    s.append(f.as_str());
    let e = set_evt(i);
    s.append(e.as_str());
    let d = debug_impl(pname, i);
    s.append(d.as_str());
    s
}

// ---------------------------------------------------------------------------
// Enums
// ---------------------------------------------------------------------------

fn variant(enum_name: &str, entry_name: &str) -> (r: String)
    requires
        camel(entry_name@).len() > 0,
        is_digit(camel(entry_name@)[0]) ==> enum_name@.len() > 0,
    ensures
        r@ == variant_name(enum_name@, entry_name@),
{
    let v = snake_to_camel(entry_name);
    let vc = chars_of(v.as_str());
    if is_ascii_digit(vc[0]) {
        let ec = chars_of(enum_name);
        let mut r = String::new();
        push_char(&mut r, to_ascii_upper(ec[0]));
        r.append(v.as_str());
        assert(r@ =~= seq![upper(enum_name@[0])] + camel(entry_name@));
        r
    } else {
        v
    }
}

fn entry(enum_name: &str, e: &Entry) -> (r: String)
    requires
        entry_ok(enum_name@, *e),
    ensures
        r@ == entry_text(enum_name@, *e),
{
    let mut s = match &e.summary {
        Some(t) => {
            let mut s = string_of("    /// ");
            s.append(t.as_str());
            s.append("\n");
            s
        },
        None => String::new(),
    };
    s.append("    ");
    let v = variant(enum_name, e.name.as_str());
    s.append(v.as_str());
    s.append(" = ");
    let d = decimal_string(e.value as u64);
    s.append(d.as_str());
    s.append(",\n");
    s
}

fn entries(e: &Enum) -> (r: String)
    requires
        forall|j: int| 0 <= j < e.entries@.len() ==> entry_ok(e.name@, #[trigger] e.entries@[j]),
    ensures
        r@ == concat_indexed(e.entries@, entry_fn(e.name@)),
{
    let v = &e.entries;
    let mut r = String::new();
    let mut k: usize = 0;
    while k < v.len()
        invariant
            k <= v.len(),
            v@ == e.entries@,
            forall|j: int| 0 <= j < e.entries@.len() ==> entry_ok(e.name@, #[trigger] e.entries@[j]),
            r@ == concat_indexed(v@.take(k as int), entry_fn(e.name@)),
        decreases v.len() - k,
    {
        let t = entry(e.name.as_str(), &v[k]);
        proof {
            lemma_concat_indexed_step(v@, entry_fn(e.name@), k as int);
        }
        r.append(t.as_str());
        k += 1;
    }
    proof {
        lemma_concat_indexed_all(v@, entry_fn(e.name@));
    }
    r
}

fn enum_decl(iface: &str, e: &Enum) -> (r: String)
    requires
        forall|j: int| 0 <= j < e.entries@.len() ==> entry_ok(e.name@, #[trigger] e.entries@[j]),
    ensures
        r@ == enum_text(iface@, *e),
{
    let mut s = opt_doc(&e.description, "");
    s.append("#[repr(i32)]\npub enum ");
    let c = snake_to_camel(iface);
    s.append(c.as_str());
    let c2 = snake_to_camel(e.name.as_str());
    s.append(c2.as_str());
    s.append(" {\n");
    append_if(&mut s, e.entries.len() == 1, "    #[doc(hidden)]\n    __not_univariant = -1,\n");
    let t = entries(e);
    s.append(t.as_str());
    s.append("}\n\n");
    s
}

fn enums(i: &Interface) -> (r: String)
    requires
        interface_ok(*i),
    ensures
        r@ == concat_indexed(i.enums@, enum_fn(i.name@)),
{
    let v = &i.enums;
    let mut r = String::new();
    let mut k: usize = 0;
    while k < v.len()
        invariant
            k <= v.len(),
            v@ == i.enums@,
            interface_ok(*i),
            r@ == concat_indexed(v@.take(k as int), enum_fn(i.name@)),
        decreases v.len() - k,
    {
        assert forall|j: int| 0 <= j < v@[k as int].entries@.len() implies entry_ok(
            v@[k as int].name@,
            #[trigger] v@[k as int].entries@[j],
        ) by {
            assert(entry_ok(i.enums@[k as int].name@, i.enums@[k as int].entries@[j]));
        }
        let t = enum_decl(i.name.as_str(), &v[k]);
        proof {
            lemma_concat_indexed_step(v@, enum_fn(i.name@), k as int);
        }
        r.append(t.as_str());
        k += 1;
    }
    proof {
        lemma_concat_indexed_all(v@, enum_fn(i.name@));
    }
    r
}

// ---------------------------------------------------------------------------
// Opcodes
// ---------------------------------------------------------------------------

fn opcode(iface: &str, k: usize, m: &Message) -> (r: String)
    ensures
        r@ == opcode_text(iface@, k as int, *m),
{
    let mut s = string_of("const ");
    let a = snake_to_screaming(iface);
    s.append(a.as_str());
    s.append("_");
    let b = snake_to_screaming(m.name.as_str());
    s.append(b.as_str());
    s.append(": u32 = ");
    let d = decimal_string(k as u64);
    s.append(d.as_str());
    s.append(";\n");
    s
}

fn opcodes(i: &Interface) -> (r: String)
    ensures
        r@ == opcodes_text(*i),
{
    let v = &i.requests;
    let mut r = String::new();
    let mut k: usize = 0;
    while k < v.len()
        invariant
            k <= v.len(),
            v@ == i.requests@,
            r@ == concat_indexed(v@.take(k as int), opcode_fn(i.name@)),
        decreases v.len() - k,
    {
        let t = opcode(i.name.as_str(), k, &v[k]);
        proof {
            lemma_concat_indexed_step(v@, opcode_fn(i.name@), k as int);
        }
        r.append(t.as_str());
        k += 1;
    }
    proof {
        lemma_concat_indexed_all(v@, opcode_fn(i.name@));
    }
    let mut s = string_of("// ");
    s.append(i.name.as_str());
    s.append(" opcodes\n");
    s.append(r.as_str());
    append_if(&mut s, v.len() > 0, "\n");
    s
}

// ---------------------------------------------------------------------------
// Events
// ---------------------------------------------------------------------------

fn value_names(v: &Vec<Arg>) -> (r: String)
    ensures
        r@ == concat_indexed(v@, value_name_fn()),
{
    let mut r = String::new();
    let mut k: usize = 0;
    while k < v.len()
        invariant
            k <= v.len(),
            r@ == concat_indexed(v@.take(k as int), value_name_fn()),
        decreases v.len() - k,
    {
        let mut t = string_of(" ");
        t.append(v[k].name.as_str());
        t.append(",");
        proof {
            lemma_concat_indexed_step(v@, value_name_fn(), k as int);
        }
        r.append(t.as_str());
        k += 1;
    }
    proof {
        lemma_concat_indexed_all(v@, value_name_fn());
    }
    r
}

fn field_type(a: &Arg) -> (r: String)
    ensures
        r@ == event_field_type(*a),
{
    if a.typ == Type::NewId {
        match &a.interface {
            Some(t) => snake_to_camel(t.as_str()),
            None => String::new(),
        }
    } else {
        string_of(a.typ.rust_type())
    }
}

fn event_fields(v: &Vec<Arg>) -> (r: String)
    ensures
        r@ == concat_indexed(v@, event_field_fn()),
{
    let mut r = String::new();
    let mut k: usize = 0;
    while k < v.len()
        invariant
            k <= v.len(),
            r@ == concat_indexed(v@.take(k as int), event_field_fn()),
        decreases v.len() - k,
    {
        let mut t = field_type(&v[k]);
        t.append(",");
        proof {
            lemma_concat_indexed_step(v@, event_field_fn(), k as int);
        }
        r.append(t.as_str());
        k += 1;
    }
    proof {
        lemma_concat_indexed_all(v@, event_field_fn());
    }
    r
}

fn event_decl(m: &Message) -> (r: String)
    ensures
        r@ == event_decl_text(*m),
{
    let mut s = opt_doc(&m.description, "    ");
    let values = if m.args.len() > 0 {
        let mut t = string_of("    ///\n    /// Values:");
        let n = value_names(&m.args);
        t.append(n.as_str());
        t.append("\n");
        t
    } else {
        String::new()
    };
    s.append(values.as_str());
    s.append("    ");
    let c = snake_to_camel(m.name.as_str());
    s.append(c.as_str());
    let fields = if m.args.len() > 0 {
        let mut t = string_of("(");
        let f = event_fields(&m.args);
        t.append(f.as_str());
        t.append(")");
        t
    } else {
        String::new()
    };
    s.append(fields.as_str());
    s.append(",\n");
    s
}

fn event_decls(v: &Vec<Message>) -> (r: String)
    ensures
        r@ == concat_indexed(v@, event_decl_fn()),
{
    let mut r = String::new();
    let mut k: usize = 0;
    while k < v.len()
        invariant
            k <= v.len(),
            r@ == concat_indexed(v@.take(k as int), event_decl_fn()),
        decreases v.len() - k,
    {
        let t = event_decl(&v[k]);
        proof {
            lemma_concat_indexed_step(v@, event_decl_fn(), k as int);
        }
        r.append(t.as_str());
        k += 1;
    }
    proof {
        lemma_concat_indexed_all(v@, event_decl_fn());
    }
    r
}

fn read_expr(k: usize, a: &Arg) -> (r: String)
    requires
        event_arg_ok(*a),
    ensures
        r@ == arg_read_expr(k as int, *a),
{
    let d = decimal_string(k as u64);
    match a.typ {
        Type::Uint => {
            let mut s = string_of("*(args.offset(");
            s.append(d.as_str());
            s.append(") as *const u32)");
            s
        },
        Type::Int | Type::Fd => {
            let mut s = string_of("*(args.offset(");
            s.append(d.as_str());
            s.append(") as *const i32)");
            s
        },
        Type::Fixed => {
            let mut s = string_of("wl_fixed_to_double(*(args.offset(");
            s.append(d.as_str());
            s.append(") as *const i32))");
            s
        },
        Type::Object => {
            let mut s = string_of("wrap_proxy(*(args.offset(");
            s.append(d.as_str());
            s.append(") as *const *mut wl_proxy))");
            s
        },
        Type::String => {
            let mut s = string_of("String::from_utf8_lossy(CStr::from_ptr(*(args.offset(");
            s.append(d.as_str());
            s.append(") as *const *mut c_char)).to_bytes()).into_owned()");
            s
        },
        Type::Array => {
            let mut s = string_of("{ let array = *(args.offset(");
            s.append(d.as_str());
            s.append(
                ") as *const *mut wl_array); ::std::slice::from_raw_parts((*array).data as *const u8, (*array).size as usize).to_owned() }",
            );
            s
        },
        Type::NewId => {
            let mut s = string_of("{ let ptr = *(args.offset(");
            s.append(d.as_str());
            s.append(") as *const *mut wl_proxy); ");
            let t = field_type(a);
            s.append(t.as_str());
            s.append("::from_ptr(ptr) }");
            s
        },
        Type::Destructor => String::new(),
    }
}

fn arg_reads(v: &Vec<Arg>) -> (r: String)
    requires
        forall|j: int| 0 <= j < v@.len() ==> event_arg_ok(#[trigger] v@[j]),
    ensures
        r@ == concat_indexed(v@, arg_read_fn()),
{
    let mut r = String::new();
    let mut k: usize = 0;
    while k < v.len()
        invariant
            k <= v.len(),
            forall|j: int| 0 <= j < v@.len() ==> event_arg_ok(#[trigger] v@[j]),
            r@ == concat_indexed(v@.take(k as int), arg_read_fn()),
        decreases v.len() - k,
    {
        let mut t = string_of("            let arg_");
        let d = decimal_string(k as u64);
        t.append(d.as_str());
        t.append(" = unsafe {");
        let e = read_expr(k, &v[k]);
        t.append(e.as_str());
        t.append("};\n");
        proof {
            lemma_concat_indexed_step(v@, arg_read_fn(), k as int);
        }
        r.append(t.as_str());
        k += 1;
    }
    proof {
        lemma_concat_indexed_all(v@, arg_read_fn());
    }
    r
}

fn arg_refs(v: &Vec<Arg>) -> (r: String)
    ensures
        r@ == concat_indexed(v@, arg_ref_fn()),
{
    let mut r = String::new();
    let mut k: usize = 0;
    while k < v.len()
        invariant
            k <= v.len(),
            r@ == concat_indexed(v@.take(k as int), arg_ref_fn()),
        decreases v.len() - k,
    {
        let mut t = string_of("arg_");
        let d = decimal_string(k as u64);
        t.append(d.as_str());
        t.append(",");
        proof {
            lemma_concat_indexed_step(v@, arg_ref_fn(), k as int);
        }
        r.append(t.as_str());
        k += 1;
    }
    proof {
        lemma_concat_indexed_all(v@, arg_ref_fn());
    }
    r
}

fn event_case(iface: &str, k: usize, m: &Message) -> (r: String)
    requires
        forall|j: int| 0 <= j < m.args@.len() ==> event_arg_ok(#[trigger] m.args@[j]),
    ensures
        r@ == event_case_text(iface@, k as int, *m),
{
    let mut s = string_of("        ");
    let d = decimal_string(k as u64);
    s.append(d.as_str());
    s.append(" => {\n");
    let reads = arg_reads(&m.args);
    s.append(reads.as_str());
    s.append("            Some(");
    let c = snake_to_camel(iface);
    s.append(c.as_str());
    s.append("Event::");
    let c2 = snake_to_camel(m.name.as_str());
    s.append(c2.as_str());
    let refs = if m.args.len() > 0 {
        let mut t = string_of("(");
        let a = arg_refs(&m.args);
        t.append(a.as_str());
        t.append(")");
        t
    } else {
        String::new()
    };
    s.append(refs.as_str());
    s.append(")\n        },\n");
    s
}

fn event_cases(i: &Interface) -> (r: String)
    requires
        interface_ok(*i),
    ensures
        r@ == concat_indexed(i.events@, event_case_fn(i.name@)),
{
    let v = &i.events;
    let mut r = String::new();
    let mut k: usize = 0;
    while k < v.len()
        invariant
            k <= v.len(),
            v@ == i.events@,
            interface_ok(*i),
            r@ == concat_indexed(v@.take(k as int), event_case_fn(i.name@)),
        decreases v.len() - k,
    {
        assert forall|j: int| 0 <= j < v@[k as int].args@.len() implies event_arg_ok(
            #[trigger] v@[k as int].args@[j],
        ) by {
            assert(event_arg_ok(i.events@[k as int].args@[j]));
        }
        let t = event_case(i.name.as_str(), k, &v[k]);
        proof {
            lemma_concat_indexed_step(v@, event_case_fn(i.name@), k as int);
        }
        r.append(t.as_str());
        k += 1;
    }
    proof {
        lemma_concat_indexed_all(v@, event_case_fn(i.name@));
    }
    r
}

fn events(pname: &str, i: &Interface) -> (r: String)
    requires
        interface_ok(*i),
    ensures
        r@ == events_text(pname@, *i),
{
    if i.events.len() > 0 {
        let c = snake_to_camel(i.name.as_str());
        let pc = snake_to_camel(pname);
        let mut s = string_of("#[derive(Debug)]\npub enum ");
        s.append(c.as_str());
        s.append("Event {\n");
        let decls = event_decls(&i.events);
        s.append(decls.as_str());
        s.append("}\n\n");
        let mut h = string_of("fn ");
        h.append(i.name.as_str());
        h.append(
            "_implem(proxy: *mut wl_proxy, opcode: u32, args: *const wl_argument) -> Option<",
        );
        h.append(pc.as_str());
        h.append("ProtocolEvent> {\n    let event = match opcode {\n");
        let cases = event_cases(i);
        h.append(cases.as_str());
        h.append("        _ => None\n    };\n    event.map(|event| ");
        h.append(pc.as_str());
        h.append("ProtocolEvent::");
        h.append(c.as_str());
        h.append("(wrap_proxy(proxy), event))\n}\n\n");
        s.append(h.as_str());
        s
    } else {
        String::new()
    }
}

// ---------------------------------------------------------------------------
// Requests
// ---------------------------------------------------------------------------

/// Counts the arguments that create a new object and finds the first one.
fn scan_new_ids(v: &Vec<Arg>) -> (r: (usize, Option<usize>))
    ensures
        r.0 == new_id_count(v@),
        match r.1 {
            Some(j) => j < v@.len() && first_new_id(v@) == Some(v@[j as int].interface),
            None => first_new_id(v@) is None,
        },
{
    let mut count: usize = 0;
    let mut first: Option<usize> = None;
    let mut k: usize = 0;
    while k < v.len()
        invariant
            k <= v.len(),
            count == new_id_count(v@.take(k as int)),
            count <= k,
            match first {
                Some(j) => j < k && first_new_id(v@.take(k as int)) == Some(v@[j as int].interface),
                None => first_new_id(v@.take(k as int)) is None,
            },
        decreases v.len() - k,
    {
        assert(v@.take(k + 1).drop_last() =~= v@.take(k as int));
        if v[k].typ == Type::NewId {
            count += 1;
            if first.is_none() {
                first = Some(k);
            }
        }
        k += 1;
    }
    assert(v@.take(v.len() as int) =~= v@);
    (count, first)
}

fn clone_interface(x: &Option<String>) -> (r: Option<String>)
    ensures
        r == *x,
{
    match x {
        Some(t) => Some(t.clone()),
        None => None,
    }
}

fn ret_type_name(n: &Option<String>) -> (r: String)
    ensures
        r@ == ret_name(*n),
{
    match n {
        Some(t) => snake_to_camel(t.as_str()),
        None => string_of("T"),
    }
}

fn param_type_text(a: &Arg) -> (r: String)
    ensures
        r@ == param_type(*a),
{
    if a.typ == Type::Object {
        match &a.interface {
            Some(t) => {
                let mut s = string_of("&");
                let c = snake_to_camel(t.as_str());
                s.append(c.as_str());
                s
            },
            None => string_of("*mut ()"),
        }
    } else {
        string_of(a.typ.rust_type())
    }
}

fn param(a: &Arg) -> (r: String)
    ensures
        r@ == param_text(*a),
{
    if a.typ == Type::NewId {
        String::new()
    } else if a.allow_null {
        let mut s = string_of(" ");
        s.append(a.name.as_str());
        s.append(": Option<");
        let t = param_type_text(a);
        s.append(t.as_str());
        s.append(">,");
        s
    } else {
        let mut s = string_of(" ");
        s.append(a.name.as_str());
        s.append(": ");
        let t = param_type_text(a);
        s.append(t.as_str());
        s.append(",");
        s
    }
}

fn params(v: &Vec<Arg>) -> (r: String)
    ensures
        r@ == concat_indexed(v@, param_fn()),
{
    let mut r = String::new();
    let mut k: usize = 0;
    while k < v.len()
        invariant
            k <= v.len(),
            r@ == concat_indexed(v@.take(k as int), param_fn()),
        decreases v.len() - k,
    {
        let t = param(&v[k]);
        proof {
            lemma_concat_indexed_step(v@, param_fn(), k as int);
        }
        r.append(t.as_str());
        k += 1;
    }
    proof {
        lemma_concat_indexed_all(v@, param_fn());
    }
    r
}

fn conversion(a: &Arg) -> (r: String)
    ensures
        r@ == conversion_text(*a),
{
    let n = a.name.as_str();
    match a.typ {
        Type::String => {
            if a.allow_null {
                let mut s = string_of("        let ");
                s.append(n);
                s.append(" = ");
                s.append(n);
                s.append(
                    ".map(|t| CString::new(t).unwrap_or_else(|_| panic!(\"Got a String with interior null.\")));\n",
                );
                s
            } else {
                let mut s = string_of("        let ");
                s.append(n);
                s.append(" = CString::new(");
                s.append(n);
                s.append(").unwrap_or_else(|_| panic!(\"Got a String with interior null.\"));\n");
                s
            }
        },
        Type::Fixed => {
            let mut s = string_of("        let ");
            s.append(n);
            s.append(" = wl_fixed_from_double(");
            s.append(n);
            s.append(")\n");
            s
        },
        _ => String::new(),
    }
}

fn conversions(v: &Vec<Arg>) -> (r: String)
    ensures
        r@ == concat_indexed(v@, conversion_fn()),
{
    let mut r = String::new();
    let mut k: usize = 0;
    while k < v.len()
        invariant
            k <= v.len(),
            r@ == concat_indexed(v@.take(k as int), conversion_fn()),
        decreases v.len() - k,
    {
        let t = conversion(&v[k]);
        proof {
            lemma_concat_indexed_step(v@, conversion_fn(), k as int);
        }
        r.append(t.as_str());
        k += 1;
    }
    proof {
        lemma_concat_indexed_all(v@, conversion_fn());
    }
    r
}

fn call_head(iface: &str, req: &str, ret: &Option<Option<String>>) -> (r: String)
    ensures
        r@ == call_head_text(iface@, req@, *ret),
{
    let a = snake_to_screaming(iface);
    let b = snake_to_screaming(req);
    match ret {
        Some(Some(t)) => {
            let mut s = string_of(
                "        let ptr = unsafe { ffi_dispatch!(WAYLAND_CLIENT_HANDLE, wl_proxy_marshal_constructor, self.ptr(), ",
            );
            s.append(a.as_str());
            s.append("_");
            s.append(b.as_str());
            s.append(", &");
            s.append(t.as_str());
            s.append("_interface as *const wl_interface\n");
            s
        },
        Some(None) => {
            let mut s = string_of(
                "        let ptr = unsafe { ffi_dispatch!(WAYLAND_CLIENT_HANDLE, wl_proxy_marshal_constructor, self.ptr(), ",
            );
            s.append(a.as_str());
            s.append("_");
            s.append(b.as_str());
            s.append(", <T as Proxy>::interface()\n");
            s
        },
        None => {
            let mut s = string_of(
                "        unsafe { ffi_dispatch!(WAYLAND_CLIENT_HANDLE, wl_proxy_marshal, self.ptr(), ",
            );
            s.append(a.as_str());
            s.append("_");
            s.append(b.as_str());
            s.append("\n");
            s
        },
    }
}

fn call_arg(generic: bool, a: &Arg) -> (r: String)
    ensures
        r@ == call_arg_text(generic, *a),
{
    let n = a.name.as_str();
    match a.typ {
        Type::NewId => {
            let mut s = text_if(generic, ", (*<T as Proxy>::interface()).name, version");
            s.append(", ptr::null_mut::<wl_proxy>()");
            s
        },
        Type::String => {
            if a.allow_null {
                let mut s = string_of(", ");
                s.append(n);
                s.append(".map(|s| s.as_ptr()).unwrap_or(ptr::null())");
                s
            } else {
                let mut s = string_of(", ");
                s.append(n);
                s.append(".as_ptr()");
                s
            }
        },
        Type::Array => {
            if a.allow_null {
                let mut s = string_of(", ");
                s.append(n);
                s.append(".map(|a| &mut a as *mut wl_array).unwrap_or(ptr::null_mut())");
                s
            } else {
                let mut s = string_of(", &mut ");
                s.append(n);
                s.append(" as *mut wl_array");
                s
            }
        },
        Type::Object => {
            if a.allow_null {
                let mut s = string_of(", ");
                s.append(n);
                s.append(".map(Proxy::ptr).unwrap_or(ptr::null_mut())");
                s
            } else {
                let mut s = string_of(", ");
                s.append(n);
                s.append(".ptr()");
                s
            }
        },
        _ => {
            if a.allow_null {
                let mut s = string_of(", ");
                s.append(n);
                s.append(".unwrap_or(0)");
                s
            } else {
                let mut s = string_of(", ");
                s.append(n);
                s
            }
        },
    }
}

fn call_args(generic: bool, v: &Vec<Arg>) -> (r: String)
    ensures
        r@ == concat_indexed(v@, call_arg_fn(generic)),
{
    let mut r = String::new();
    let mut k: usize = 0;
    while k < v.len()
        invariant
            k <= v.len(),
            r@ == concat_indexed(v@.take(k as int), call_arg_fn(generic)),
        decreases v.len() - k,
    {
        let t = call_arg(generic, &v[k]);
        proof {
            lemma_concat_indexed_step(v@, call_arg_fn(generic), k as int);
        }
        r.append(t.as_str());
        k += 1;
    }
    proof {
        lemma_concat_indexed_all(v@, call_arg_fn(generic));
    }
    r
}

fn method_doc(m: &Message) -> (r: String)
    ensures
        r@ == method_doc_text(*m),
{
    let mut s = string_of("\n");
    let d = opt_doc(&m.description, "    ");
    s.append(d.as_str());
    let since = if m.since > 1 {
        let mut t = string_of("    ///\n    /// Requires interface version `>= ");
        let n = decimal_string(m.since as u64);
        t.append(n.as_str());
        t.append("`.\n");
        t
    } else {
        String::new()
    };
    s.append(since.as_str());
    s
}

fn is_generic(ret: &Option<Option<String>>) -> (r: bool)
    ensures
        r == (*ret == Some(None::<String>)),
{
    match ret {
        Some(None) => true,
        _ => false,
    }
}

fn destroys(m: &Message) -> (r: bool)
    ensures
        r == is_destructor(*m),
{
    match m.typ {
        Some(Type::Destructor) => true,
        _ => false,
    }
}

fn signature(m: &Message, ret: &Option<Option<String>>) -> (r: String)
    ensures
        r@ == signature_text(*m, *ret),
{
    let generic = is_generic(ret);
    let mut s = string_of("    pub ");
    append_if(&mut s, generic, "unsafe ");
    s.append("fn ");
    s.append(m.name.as_str());
    append_if(&mut s, is_keyword(m.name.as_str()), "_");
    append_if(&mut s, generic, "<T: Proxy>");
    s.append(
        if destroys(m) {
            "(self,"
        } else {
            "(&self,"
        },
    );
    let ps = params(&m.args);
    s.append(ps.as_str());
    append_if(&mut s, generic, "version: u32,");
    s.append(")");
    let rt = match ret {
        Some(n) => {
            let mut t = string_of(" -> ");
            let c = ret_type_name(n);
            t.append(c.as_str());
            t
        },
        None => String::new(),
    };
    s.append(rt.as_str());
    s.append(" {\n");
    s
}

fn method_call(iface: &str, m: &Message, ret: &Option<Option<String>>) -> (r: String)
    ensures
        r@ == method_call_text(iface@, *m, *ret),
{
    let generic = is_generic(ret);
    let mut s = text_if(
        generic,
        "        if version < <T as Proxy>::version() {\n            panic!(\"Tried to bind interface {} with version {} while it is only supported up to {}.\", <T as Proxy>::interface_name(), version, <T as Proxy>::version())\n        }\n",
    );
    let cs = conversions(&m.args);
    s.append(cs.as_str());
    let head = call_head(iface, m.name.as_str(), ret);
    s.append(head.as_str());
    s.append("           ");
    let args = call_args(generic, &m.args);
    s.append(args.as_str());
    s
}

fn method_body(iface: &str, m: &Message, ret: &Option<Option<String>>) -> (r: String)
    ensures
        r@ == method_body_text(iface@, *m, *ret),
{
    let mut s = method_call(iface, m, ret);
    s.append(") };\n");
    append_if(
        &mut s,
        destroys(m),
        "        unsafe { ffi_dispatch!(WAYLAND_CLIENT_HANDLE, wl_proxy_destroy, self.ptr()) }\n",
    );
    let tail = match ret {
        Some(n) => {
            let mut t = string_of("        let mut proxy: ");
            let c = ret_type_name(n);
            t.append(c.as_str());
            t.append(
                " = unsafe { Proxy::from_ptr(ptr) };\n        let evt_iter = eventiter_from_internals(self.evq.clone());\n        proxy.set_evt_iterator(&evt_iter);\n        ::std::mem::forget(evt_iter); // Don't run the destructor !\n        proxy\n",
            );
            t
        },
        None => String::new(),
    };
    s.append(tail.as_str());
    s.append("    }\n");
    s
}

fn method(iface: &str, m: &Message, ret: &Option<Option<String>>) -> (r: String)
    ensures
        r@ == method_text(iface@, *m, *ret),
{
    let mut s = method_doc(m);
    let g = signature(m, ret);
    s.append(g.as_str());
    let b = method_body(iface, m, ret);
    s.append(b.as_str());
    s
}

fn request(iface: &str, m: &Message) -> (r: String)
    ensures
        r@ == request_text(iface@, *m),
{
    let (count, first) = scan_new_ids(&m.args);
    if count > 1 {
        String::new()
    } else {
        let ret = match first {
            Some(j) => Some(clone_interface(&m.args[j].interface)),
            None => None,
        };
        method(iface, m, &ret)
    }
}

fn requests(i: &Interface) -> (r: String)
    ensures
        r@ == requests_text(*i),
{
    let v = &i.requests;
    let mut r = String::new();
    let mut k: usize = 0;
    while k < v.len()
        invariant
            k <= v.len(),
            v@ == i.requests@,
            r@ == concat_indexed(v@.take(k as int), request_fn(i.name@)),
        decreases v.len() - k,
    {
        let t = request(i.name.as_str(), &v[k]);
        proof {
            lemma_concat_indexed_step(v@, request_fn(i.name@), k as int);
        }
        r.append(t.as_str());
        k += 1;
    }
    proof {
        lemma_concat_indexed_all(v@, request_fn(i.name@));
    }
    let mut s = string_of("impl ");
    let c = snake_to_camel(i.name.as_str());
    s.append(c.as_str());
    s.append(" {\n");
    s.append(r.as_str());
    s.append("}\n\n");
    s
}

// ---------------------------------------------------------------------------
// Interfaces and the whole output
// ---------------------------------------------------------------------------

fn drop_impl(i: &Interface) -> (r: String)
    ensures
        r@ == drop_text(*i),
{
    if !display(&i.name) {
        let mut s = string_of("impl Drop for ");
        let c = snake_to_camel(i.name.as_str());
        s.append(c.as_str());
        s.append(
            " {\n    fn drop(&mut self) {\n        unsafe { ffi_dispatch!(WAYLAND_CLIENT_HANDLE, wl_proxy_destroy, self.ptr()) }\n    }\n}\n",
        );
        s
    } else {
        String::new()
    }
}

fn interface(pname: &str, i: &Interface) -> (r: String)
    requires
        interface_ok(*i),
    ensures
        r@ == interface_text(pname@, *i),
{
    let mut s = string_of("//\n// interface ");
    s.append(i.name.as_str());
    s.append("\n//\n\n");
    let d = opt_doc(&i.description, "");
    s.append(d.as_str());
    let p = proxy(pname, i);
    s.append(p.as_str());
    let e = enums(i);
    s.append(e.as_str());
    let o = opcodes(i);
    s.append(o.as_str());
    let ev = events(pname, i);
    s.append(ev.as_str());
    let rq = requests(i);
    s.append(rq.as_str());
    let dr = drop_impl(i);
    s.append(dr.as_str());
    proof {
        reveal(interface_text);
    }
    s
}

fn interfaces(p: &Protocol) -> (r: String)
    requires
        protocol_ok(*p),
    ensures
        r@ == concat_indexed(p.interfaces@, interface_fn(p.name@)),
{
    let v = &p.interfaces;
    let mut r = String::new();
    let mut k: usize = 0;
    while k < v.len()
        invariant
            k <= v.len(),
            v@ == p.interfaces@,
            protocol_ok(*p),
            r@ == concat_indexed(v@.take(k as int), interface_fn(p.name@)),
        decreases v.len() - k,
    {
        let t = interface(p.name.as_str(), &v[k]);
        proof {
            lemma_concat_indexed_step(v@, interface_fn(p.name@), k as int);
        }
        r.append(t.as_str());
        k += 1;
    }
    proof {
        lemma_concat_indexed_all(v@, interface_fn(p.name@));
    }
    r
}

/// Appends to `out` the client-side bindings of `protocol`: the file header,
/// the enum of all protocol events, the event dispatcher, and for each
/// interface its proxy type, enums, opcodes, events and request methods.
pub fn generate_client_api(protocol: Protocol, out: &mut String)
    requires
        protocol_ok(protocol),
    ensures
        final(out)@ == old(out)@ + client_api_text(protocol),
{
    let mut s = header(&protocol);
    let e = protocol_events(&protocol);
    s.append(e.as_str());
    let d = dispatcher(&protocol);
    s.append(d.as_str());
    let i = interfaces(&protocol);
    s.append(i.as_str());
    out.append(s.as_str());
}

} // verus!
