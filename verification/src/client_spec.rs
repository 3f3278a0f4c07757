//! The text of the generated client bindings, as a function of the protocol.
//!
//! Each spec function gives the exact text of one part of the output; the
//! generator in `client_gen` is proved to write exactly these texts.
use vstd::prelude::*;

use crate::doc::doc_text;
use crate::names::{camel, screaming};
use crate::protocol::{rust_type_text, Arg, Entry, Enum, Interface, Message, Protocol, Type};
use crate::text::{concat_indexed, decimal, is_digit, upper, only_if};
use crate::util::keyword;

verus! {

// ---------------------------------------------------------------------------
// Inputs the generator accepts
// ---------------------------------------------------------------------------

/// An enum entry can be turned into a variant name: its name holds a
/// character other than `_`, and when that name starts with a digit the enum
/// has a name whose first letter can prefix it.
pub open spec fn entry_ok(enum_name: Seq<char>, e: Entry) -> bool {
    &&& camel(e.name@).len() > 0
    &&& is_digit(camel(e.name@)[0]) ==> enum_name.len() > 0
}

/// An event argument can be read from the wire: it is not a destructor, and a
/// new object it creates has a known interface.
pub open spec fn event_arg_ok(a: Arg) -> bool {
    &&& a.typ != Type::Destructor
    &&& a.typ == Type::NewId ==> a.interface is Some
}

/// An interface the generator can write.
pub open spec fn interface_ok(i: Interface) -> bool {
    &&& i.requests@.len() <= i32::MAX
    &&& forall|k: int, j: int|
        0 <= k < i.events@.len() && 0 <= j < i.events@[k].args@.len() ==> event_arg_ok(
            #[trigger] i.events@[k].args@[j],
        )
    &&& forall|k: int, j: int|
        0 <= k < i.enums@.len() && 0 <= j < i.enums@[k].entries@.len() ==> entry_ok(
            i.enums@[k].name@,
            #[trigger] i.enums@[k].entries@[j],
        )
}

/// A protocol the generator can write: every interface is one it can write.
pub open spec fn protocol_ok(p: Protocol) -> bool {
    forall|k: int| 0 <= k < p.interfaces@.len() ==> interface_ok(#[trigger] p.interfaces@[k])
}

// ---------------------------------------------------------------------------
// Shared pieces
// ---------------------------------------------------------------------------

/// The doc comment of an optional (summary, description) pair.
pub open spec fn opt_doc_text(d: Option<(String, String)>, prefix: Seq<char>) -> Seq<char> {
    match d {
        Some((summary, contents)) => doc_text(summary@, contents@, prefix),
        None => Seq::empty(),
    }
}

/// The interface name of `wl_display`, which is set up differently.
pub open spec fn is_display(name: Seq<char>) -> bool {
    name == "wl_display"@
}

// ---------------------------------------------------------------------------
// File header and protocol-wide items
// ---------------------------------------------------------------------------

/// The copyright notice, when the protocol has one.
pub open spec fn copyright_text(c: Option<String>) -> Seq<char> {
    match c {
        Some(t) => "/*\n"@ + t@ + "\n*/\n\n"@,
        None => Seq::empty(),
    }
}

/// The imports the generated file needs.
pub open spec fn imports_text() -> Seq<char> {
    "use wayland_sys::common::*;\nuse wayland_sys::client::*;\nuse {Proxy, ProxyId, wrap_proxy};\nuse events::{EventIterator, EventFifo, get_eventiter_internals, eventiter_from_internals};\n// update if needed to the appropriate file\nuse super::interfaces::*;\n\nuse std::ffi::{CString, CStr};\nuse std::ptr;\nuse std::sync::Arc;\nuse std::sync::atomic::{AtomicBool, Ordering};\nuse libc::{c_void, c_char};\n"@
}

/// The banner, the copyright notice and the imports.
pub open spec fn header_text(p: Protocol) -> Seq<char> {
    "//\n// This file was auto-generated, do not edit directly\n//\n\n"@ + copyright_text(
        p.copyright,
    ) + imports_text()
}

/// The variant of the protocol event enum for an interface that has events.
pub open spec fn event_variant_text(i: Interface) -> Seq<char> {
    if i.events@.len() > 0 {
        "    "@ + camel(i.name@) + "(ProxyId, "@ + camel(i.name@) + "Event),\n"@
    } else {
        Seq::empty()
    }
}

/// `event_variant_text` for each item of a sequence, for `concat_indexed`.
pub open spec fn event_variant_fn() -> spec_fn(int, Interface) -> Seq<char> {
    |k: int, i: Interface| event_variant_text(i)
}

/// The enum of all events of the protocol.
pub open spec fn protocol_event_text(p: Protocol) -> Seq<char> {
    "/// An event generated by the protocol "@ + p.name@
        + ".\n///\n/// Each variant is composed of a `ProxyId` reffering to the proxy object\n/// and of the event data itself.\n#[derive(Debug)]\npub enum "@
        + camel(p.name@) + "ProtocolEvent {\n"@ + concat_indexed(
        p.interfaces@,
        event_variant_fn(),
    ) + "}\n\n"@
}

/// The C callback that turns a raw event into a protocol event.
pub open spec fn dispatcher_text(p: Protocol) -> Seq<char> {
    "type "@ + p.name@
        + "_dispatcher_implem = fn(*mut wl_proxy, u32, *const wl_argument) -> Option<"@
        + camel(p.name@)
        + "ProtocolEvent>;\n\nextern \"C\" fn event_dispatcher(implem: *const c_void, proxy: *mut c_void, opcode: u32, _: *const wl_message, args: *const wl_argument) {\n    let userdata = unsafe { ffi_dispatch!(WAYLAND_CLIENT_HANDLE, wl_proxy_get_user_data, proxy as *mut wl_proxy) } as *const (EventFifo, AtomicBool);\n    if userdata.is_null() { return; }\n    let fifo: &(EventFifo, AtomicBool) = unsafe { &*userdata };\n    if !fifo.1.load(Ordering::SeqCst) { return; }\n    let implem = unsafe { ::std::mem::transmute::<_, "@
        + p.name@
        + "_dispatcher_implem>(implem) };\n    let event = implem(proxy as *mut wl_proxy, opcode, args);\n    if let Some(evt) = event {\n        fifo.0.push(::Event::"@
        + camel(p.name@) + "(evt));\n    }\n}\n"@
}

// ---------------------------------------------------------------------------
// The proxy type of an interface
// ---------------------------------------------------------------------------

/// The registration of the event handler, for an interface with events.
pub open spec fn add_dispatcher_text(i: Interface) -> Seq<char> {
    if !is_display(i.name@) && i.events@.len() > 0 {
        "        ffi_dispatch!(WAYLAND_CLIENT_HANDLE, wl_proxy_add_dispatcher, ptr, event_dispatcher, "@
            + i.name@ + "_implem as *const c_void, ptr::null_mut());\n"@
    } else {
        Seq::empty()
    }
}

/// The struct, its marker impls, and the `Proxy` impl up to `from_ptr`.
pub open spec fn proxy_head_text(i: Interface) -> Seq<char> {
    "pub struct "@ + camel(i.name@)
        + " {\n    ptr: *mut wl_proxy,\n    evq: Arc<(EventFifo,AtomicBool)>\n}\n\nunsafe impl Sync for "@
        + camel(i.name@) + " {}\nunsafe impl Send for "@ + camel(i.name@)
        + " {}\nimpl Proxy for "@ + camel(i.name@)
        + " {\n    fn ptr(&self) -> *mut wl_proxy { self.ptr }\n    fn interface() -> *mut wl_interface { unsafe { &mut "@
        + i.name@
        + "_interface  as *mut wl_interface } }\n    fn interface_name() -> &'static str { \""@
        + i.name@ + "\" }\n    fn version() -> u32 { "@ + decimal(i.version as nat)
        + " }\n    fn id(&self) -> ProxyId { ProxyId { id: self.ptr as usize } }\n"@
}

/// `from_ptr`, which registers the event handler and builds the proxy.
pub open spec fn from_ptr_text(i: Interface) -> Seq<char> {
    "    unsafe fn from_ptr(ptr: *mut wl_proxy) -> "@ + camel(i.name@) + " {\n"@
        + add_dispatcher_text(i) + "        "@ + camel(i.name@)
        + " { ptr: ptr, evq: Arc::new((EventFifo::new(), AtomicBool::new(false))) }\n    }\n"@
}

/// `set_evt_iterator`, which attaches the proxy to an event queue, and the
/// end of the `Proxy` impl.
pub open spec fn set_evt_text(i: Interface) -> Seq<char> {
    "    fn set_evt_iterator(&mut self, evt: &EventIterator) {\n        self.evq = get_eventiter_internals(evt);\n"@
        + only_if(
        !is_display(i.name@),
        "        let ptr = &*self.evq as *const (EventFifo,AtomicBool);\n        unsafe { ffi_dispatch!(WAYLAND_CLIENT_HANDLE, wl_proxy_set_user_data, self.ptr, ptr as *const c_void as *mut c_void) };\n"@,
    ) + "    }\n}\n\n"@
}

/// The `Debug` impl of the proxy.
pub open spec fn debug_text(pname: Seq<char>, i: Interface) -> Seq<char> {
    "impl ::std::fmt::Debug for "@ + camel(i.name@)
        + " {\n    fn fmt(&self, fmt: &mut ::std::fmt::Formatter) -> Result<(), ::std::fmt::Error> {\n        fmt.write_fmt(format_args!(\""@
        + pname + "::"@ + i.name@ + "::{}\", self.ptr as usize))\n    }\n}\n\n"@
}

/// The struct, its `Proxy` impl and its `Debug` impl.
pub open spec fn proxy_text(pname: Seq<char>, i: Interface) -> Seq<char> {
    proxy_head_text(i) + from_ptr_text(i) + set_evt_text(i) + debug_text(pname, i)
}

// ---------------------------------------------------------------------------
// Enums
// ---------------------------------------------------------------------------

/// The variant name of an entry: its camel-case name, prefixed with the
/// upper-cased first letter of the enum when it would start with a digit.
pub open spec fn variant_name(enum_name: Seq<char>, entry_name: Seq<char>) -> Seq<char> {
    if is_digit(camel(entry_name)[0]) {
        seq![upper(enum_name[0])] + camel(entry_name)
    } else {
        camel(entry_name)
    }
}

/// The doc line of an entry's summary, if it has one.
pub open spec fn entry_summary_text(s: Option<String>) -> Seq<char> {
    match s {
        Some(t) => "    /// "@ + t@ + "\n"@,
        None => Seq::empty(),
    }
}

/// One variant of a generated enum.
pub open spec fn entry_text(enum_name: Seq<char>, e: Entry) -> Seq<char> {
    entry_summary_text(e.summary) + "    "@ + variant_name(enum_name, e.name@) + " = "@ + decimal(
        e.value as nat,
    ) + ",\n"@
}

/// `entry_text` for each item of a sequence, for `concat_indexed`.
pub open spec fn entry_fn(enum_name: Seq<char>) -> spec_fn(int, Entry) -> Seq<char> {
    |k: int, e: Entry| entry_text(enum_name, e)
}

/// A generated enum; an enum of one entry gets a hidden second variant.
pub open spec fn enum_text(iface: Seq<char>, e: Enum) -> Seq<char> {
    opt_doc_text(e.description, ""@) + "#[repr(i32)]\npub enum "@ + camel(iface) + camel(e.name@)
        + " {\n"@ + only_if(
        e.entries@.len() == 1,
        "    #[doc(hidden)]\n    __not_univariant = -1,\n"@,
    ) + concat_indexed(e.entries@, entry_fn(e.name@)) + "}\n\n"@
}

/// `enum_text` for each item of a sequence, for `concat_indexed`.
pub open spec fn enum_fn(iface: Seq<char>) -> spec_fn(int, Enum) -> Seq<char> {
    |k: int, e: Enum| enum_text(iface, e)
}

// ---------------------------------------------------------------------------
// Opcodes
// ---------------------------------------------------------------------------

/// The opcode constant of request number `k`.
pub open spec fn opcode_text(iface: Seq<char>, k: int, m: Message) -> Seq<char> {
    "const "@ + screaming(iface) + "_"@ + screaming(m.name@) + ": u32 = "@ + decimal(k as nat)
        + ";\n"@
}

/// `opcode_text` for each item of a sequence, for `concat_indexed`.
pub open spec fn opcode_fn(iface: Seq<char>) -> spec_fn(int, Message) -> Seq<char> {
    |k: int, m: Message| opcode_text(iface, k, m)
}

/// The opcodes of an interface: its requests numbered from 0 in order.
pub open spec fn opcodes_text(i: Interface) -> Seq<char> {
    "// "@ + i.name@ + " opcodes\n"@ + concat_indexed(i.requests@, opcode_fn(i.name@)) + only_if(
        i.requests@.len() > 0,
        "\n"@,
    )
}

// ---------------------------------------------------------------------------
// Events
// ---------------------------------------------------------------------------

/// One argument name in the doc comment of an event.
pub open spec fn value_name_fn() -> spec_fn(int, Arg) -> Seq<char> {
    |k: int, a: Arg| " "@ + a.name@ + ","@
}

/// The Rust type of an event argument.
pub open spec fn event_field_type(a: Arg) -> Seq<char> {
    if a.typ == Type::NewId {
        match a.interface {
            Some(t) => camel(t@),
            None => Seq::empty(),
        }
    } else {
        rust_type_text(a.typ)
    }
}

/// The field type of each argument of an event, followed by a comma.
pub open spec fn event_field_fn() -> spec_fn(int, Arg) -> Seq<char> {
    |k: int, a: Arg| event_field_type(a) + ","@
}

/// The list of argument names of an event, for its doc comment.
pub open spec fn event_values_text(m: Message) -> Seq<char> {
    if m.args@.len() > 0 {
        "    ///\n    /// Values:"@ + concat_indexed(m.args@, value_name_fn()) + "\n"@
    } else {
        Seq::empty()
    }
}

/// The field types of an event variant.
pub open spec fn event_fields_text(m: Message) -> Seq<char> {
    if m.args@.len() > 0 {
        "("@ + concat_indexed(m.args@, event_field_fn()) + ")"@
    } else {
        Seq::empty()
    }
}

/// One variant of the event enum of an interface.
pub open spec fn event_decl_text(m: Message) -> Seq<char> {
    opt_doc_text(m.description, "    "@) + event_values_text(m) + "    "@ + camel(m.name@)
        + event_fields_text(m) + ",\n"@
}

/// `event_decl_text` for each item of a sequence, for `concat_indexed`.
pub open spec fn event_decl_fn() -> spec_fn(int, Message) -> Seq<char> {
    |k: int, m: Message| event_decl_text(m)
}

/// The event enum of an interface.
pub open spec fn event_enum_text(i: Interface) -> Seq<char> {
    "#[derive(Debug)]\npub enum "@ + camel(i.name@) + "Event {\n"@ + concat_indexed(
        i.events@,
        event_decl_fn(),
    ) + "}\n\n"@
}

/// The expression that reads argument number `k` of type `a.typ`.
pub open spec fn arg_read_expr(k: int, a: Arg) -> Seq<char> {
    match a.typ {
        Type::Uint => "*(args.offset("@ + decimal(k as nat) + ") as *const u32)"@,
        Type::Int | Type::Fd => "*(args.offset("@ + decimal(k as nat) + ") as *const i32)"@,
        Type::Fixed => "wl_fixed_to_double(*(args.offset("@ + decimal(k as nat)
            + ") as *const i32))"@,
        Type::Object => "wrap_proxy(*(args.offset("@ + decimal(k as nat)
            + ") as *const *mut wl_proxy))"@,
        Type::String => "String::from_utf8_lossy(CStr::from_ptr(*(args.offset("@ + decimal(
            k as nat,
        ) + ") as *const *mut c_char)).to_bytes()).into_owned()"@,
        Type::Array => "{ let array = *(args.offset("@ + decimal(k as nat)
            + ") as *const *mut wl_array); ::std::slice::from_raw_parts((*array).data as *const u8, (*array).size as usize).to_owned() }"@,
        Type::NewId => "{ let ptr = *(args.offset("@ + decimal(k as nat)
            + ") as *const *mut wl_proxy); "@ + event_field_type(a) + "::from_ptr(ptr) }"@,
        Type::Destructor => Seq::empty(),
    }
}

/// The statement that reads argument number `k` of an event.
pub open spec fn arg_read_fn() -> spec_fn(int, Arg) -> Seq<char> {
    |k: int, a: Arg| "            let arg_"@ + decimal(k as nat) + " = unsafe {"@ + arg_read_expr(k, a) + "};\n"@
}

/// The use of the value read for argument number `k`.
pub open spec fn arg_ref_fn() -> spec_fn(int, Arg) -> Seq<char> {
    |k: int, a: Arg| "arg_"@ + decimal(k as nat) + ","@
}

/// The arguments of an event variant built from the values read.
pub open spec fn event_refs_text(m: Message) -> Seq<char> {
    if m.args@.len() > 0 {
        "("@ + concat_indexed(m.args@, arg_ref_fn()) + ")"@
    } else {
        Seq::empty()
    }
}

/// The branch of the event handler for event number `k`.
pub open spec fn event_case_text(iface: Seq<char>, k: int, m: Message) -> Seq<char> {
    "        "@ + decimal(k as nat) + " => {\n"@ + concat_indexed(m.args@, arg_read_fn())
        + "            Some("@ + camel(iface) + "Event::"@ + camel(m.name@) + event_refs_text(m)
        + ")\n        },\n"@
}

/// `event_case_text` for each item of a sequence, for `concat_indexed`.
pub open spec fn event_case_fn(iface: Seq<char>) -> spec_fn(int, Message) -> Seq<char> {
    |k: int, m: Message| event_case_text(iface, k, m)
}

/// The function that decodes the events of an interface.
pub open spec fn event_handler_text(pname: Seq<char>, i: Interface) -> Seq<char> {
    "fn "@ + i.name@
        + "_implem(proxy: *mut wl_proxy, opcode: u32, args: *const wl_argument) -> Option<"@
        + camel(pname) + "ProtocolEvent> {\n    let event = match opcode {\n"@ + concat_indexed(
        i.events@,
        event_case_fn(i.name@),
    ) + "        _ => None\n    };\n    event.map(|event| "@ + camel(pname) + "ProtocolEvent::"@
        + camel(i.name@) + "(wrap_proxy(proxy), event))\n}\n\n"@
}

/// The event enum and the event handler, for an interface with events.
pub open spec fn events_text(pname: Seq<char>, i: Interface) -> Seq<char> {
    if i.events@.len() > 0 {
        event_enum_text(i) + event_handler_text(pname, i)
    } else {
        Seq::empty()
    }
}

// ---------------------------------------------------------------------------
// Requests
// ---------------------------------------------------------------------------

/// How many arguments of a request create a new object.
pub open spec fn new_id_count(args: Seq<Arg>) -> nat
    decreases args.len(),
{
    if args.len() == 0 {
        0
    } else {
        new_id_count(args.drop_last()) + if args.last().typ == Type::NewId {
            1nat
        } else {
            0nat
        }
    }
}

/// The interface of the first argument that creates a new object, if any
/// argument does (`Some(None)` when that interface is left to the caller).
pub open spec fn first_new_id(args: Seq<Arg>) -> Option<Option<String>>
    decreases args.len(),
{
    if args.len() == 0 {
        None
    } else {
        match first_new_id(args.drop_last()) {
            Some(x) => Some(x),
            None => if args.last().typ == Type::NewId {
                Some(args.last().interface)
            } else {
                None
            },
        }
    }
}

/// The type a request returns when it creates an object.
pub open spec fn ret_name(n: Option<String>) -> Seq<char> {
    match n {
        Some(t) => camel(t@),
        None => "T"@,
    }
}

/// The type of a parameter of a request method.
pub open spec fn param_type(a: Arg) -> Seq<char> {
    if a.typ == Type::Object {
        match a.interface {
            Some(t) => "&"@ + camel(t@),
            None => "*mut ()"@,
        }
    } else {
        rust_type_text(a.typ)
    }
}

/// A parameter of a request method; new-id arguments are not parameters.
pub open spec fn param_text(a: Arg) -> Seq<char> {
    if a.typ == Type::NewId {
        Seq::empty()
    } else if a.allow_null {
        " "@ + a.name@ + ": Option<"@ + param_type(a) + ">,"@
    } else {
        " "@ + a.name@ + ": "@ + param_type(a) + ","@
    }
}

/// `param_text` for each item of a sequence, for `concat_indexed`.
pub open spec fn param_fn() -> spec_fn(int, Arg) -> Seq<char> {
    |k: int, a: Arg| param_text(a)
}

/// The conversion of a string or fixed-point argument before the call.
pub open spec fn conversion_text(a: Arg) -> Seq<char> {
    match a.typ {
        Type::String => if a.allow_null {
            "        let "@ + a.name@ + " = "@ + a.name@
                + ".map(|t| CString::new(t).unwrap_or_else(|_| panic!(\"Got a String with interior null.\")));\n"@
        } else {
            "        let "@ + a.name@ + " = CString::new("@ + a.name@
                + ").unwrap_or_else(|_| panic!(\"Got a String with interior null.\"));\n"@
        },
        Type::Fixed => "        let "@ + a.name@ + " = wl_fixed_from_double("@ + a.name@ + ")\n"@,
        _ => Seq::empty(),
    }
}

/// `conversion_text` for each item of a sequence, for `concat_indexed`.
pub open spec fn conversion_fn() -> spec_fn(int, Arg) -> Seq<char> {
    |k: int, a: Arg| conversion_text(a)
}

/// The start of the marshalling call of a request.
pub open spec fn call_head_text(iface: Seq<char>, req: Seq<char>, ret: Option<Option<String>>) -> Seq<
    char,
> {
    match ret {
        Some(Some(t)) => "        let ptr = unsafe { ffi_dispatch!(WAYLAND_CLIENT_HANDLE, wl_proxy_marshal_constructor, self.ptr(), "@
            + screaming(iface) + "_"@ + screaming(req) + ", &"@ + t@
            + "_interface as *const wl_interface\n"@,
        Some(None) => "        let ptr = unsafe { ffi_dispatch!(WAYLAND_CLIENT_HANDLE, wl_proxy_marshal_constructor, self.ptr(), "@
            + screaming(iface) + "_"@ + screaming(req) + ", <T as Proxy>::interface()\n"@,
        None => "        unsafe { ffi_dispatch!(WAYLAND_CLIENT_HANDLE, wl_proxy_marshal, self.ptr(), "@
            + screaming(iface) + "_"@ + screaming(req) + "\n"@,
    }
}

/// One argument of the marshalling call.
pub open spec fn call_arg_text(generic: bool, a: Arg) -> Seq<char> {
    match a.typ {
        Type::NewId => only_if(generic, ", (*<T as Proxy>::interface()).name, version"@)
            + ", ptr::null_mut::<wl_proxy>()"@,
        Type::String => if a.allow_null {
            ", "@ + a.name@ + ".map(|s| s.as_ptr()).unwrap_or(ptr::null())"@
        } else {
            ", "@ + a.name@ + ".as_ptr()"@
        },
        Type::Array => if a.allow_null {
            ", "@ + a.name@ + ".map(|a| &mut a as *mut wl_array).unwrap_or(ptr::null_mut())"@
        } else {
            ", &mut "@ + a.name@ + " as *mut wl_array"@
        },
        Type::Object => if a.allow_null {
            ", "@ + a.name@ + ".map(Proxy::ptr).unwrap_or(ptr::null_mut())"@
        } else {
            ", "@ + a.name@ + ".ptr()"@
        },
        _ => if a.allow_null {
            ", "@ + a.name@ + ".unwrap_or(0)"@
        } else {
            ", "@ + a.name@
        },
    }
}

/// `call_arg_text` for each item of a sequence, for `concat_indexed`.
pub open spec fn call_arg_fn(generic: bool) -> spec_fn(int, Arg) -> Seq<char> {
    |k: int, a: Arg| call_arg_text(generic, a)
}

/// The return type of a request method that creates an object.
pub open spec fn ret_type_text(ret: Option<Option<String>>) -> Seq<char> {
    match ret {
        Some(n) => " -> "@ + ret_name(n),
        None => Seq::empty(),
    }
}

/// The end of a request method that creates an object: the new proxy shares
/// the event queue of its parent.
pub open spec fn ret_tail_text(ret: Option<Option<String>>) -> Seq<char> {
    match ret {
        Some(n) => "        let mut proxy: "@ + ret_name(n)
            + " = unsafe { Proxy::from_ptr(ptr) };\n        let evt_iter = eventiter_from_internals(self.evq.clone());\n        proxy.set_evt_iterator(&evt_iter);\n        ::std::mem::forget(evt_iter); // Don't run the destructor !\n        proxy\n"@,
        None => Seq::empty(),
    }
}

/// The "requires version" note of a request added after version 1.
pub open spec fn since_text(since: u16) -> Seq<char> {
    if since > 1 {
        "    ///\n    /// Requires interface version `>= "@ + decimal(since as nat) + "`.\n"@
    } else {
        Seq::empty()
    }
}

/// Whether a message destroys its object.
pub open spec fn is_destructor(m: Message) -> bool {
    m.typ == Some(Type::Destructor)
}

/// The blank line and the doc comment before a request method.
pub open spec fn method_doc_text(m: Message) -> Seq<char> {
    "\n"@ + opt_doc_text(m.description, "    "@) + since_text(m.since)
}

/// The signature of a request method; `ret` is the interface of the object
/// it creates, if any.
pub open spec fn signature_text(m: Message, ret: Option<Option<String>>) -> Seq<char> {
    "    pub "@ + only_if(ret == Some(None::<String>), "unsafe "@) + "fn "@ + m.name@ + only_if(
        keyword(m.name@),
        "_"@,
    ) + only_if(ret == Some(None::<String>), "<T: Proxy>"@) + (if is_destructor(m) {
        "(self,"@
    } else {
        "(&self,"@
    }) + concat_indexed(m.args@, param_fn()) + only_if(ret == Some(None::<String>), "version: u32,"@)
        + ")"@ + ret_type_text(ret) + " {\n"@
}

/// The start of a request method's body: the version check of a generic
/// constructor, the argument conversions and the marshalling call.
pub open spec fn method_call_text(iface: Seq<char>, m: Message, ret: Option<Option<String>>) -> Seq<
    char,
> {
    only_if(
        ret == Some(None::<String>),
        "        if version < <T as Proxy>::version() {\n            panic!(\"Tried to bind interface {} with version {} while it is only supported up to {}.\", <T as Proxy>::interface_name(), version, <T as Proxy>::version())\n        }\n"@,
    ) + concat_indexed(m.args@, conversion_fn()) + call_head_text(iface, m.name@, ret)
        + "           "@ + concat_indexed(m.args@, call_arg_fn(ret == Some(None::<String>)))
}

/// The body of a request method: the call, then destruction of the proxy or
/// the new proxy.
pub open spec fn method_body_text(iface: Seq<char>, m: Message, ret: Option<Option<String>>) -> Seq<
    char,
> {
    method_call_text(iface, m, ret) + ") };\n"@ + only_if(
        is_destructor(m),
        "        unsafe { ffi_dispatch!(WAYLAND_CLIENT_HANDLE, wl_proxy_destroy, self.ptr()) }\n"@,
    ) + ret_tail_text(ret) + "    }\n"@
}

/// The method of a request that creates at most one object; `ret` is the
/// interface of that object.
pub open spec fn method_text(iface: Seq<char>, m: Message, ret: Option<Option<String>>) -> Seq<char> {
    method_doc_text(m) + signature_text(m, ret) + method_body_text(iface, m, ret)
}

/// The method of a request; requests creating more than one object are
/// left out.
pub open spec fn request_text(iface: Seq<char>, m: Message) -> Seq<char> {
    if new_id_count(m.args@) > 1 {
        Seq::empty()
    } else {
        method_text(iface, m, first_new_id(m.args@))
    }
}

/// `request_text` for each item of a sequence, for `concat_indexed`.
pub open spec fn request_fn(iface: Seq<char>) -> spec_fn(int, Message) -> Seq<char> {
    |k: int, m: Message| request_text(iface, m)
}

/// The impl block holding the request methods.
pub open spec fn requests_text(i: Interface) -> Seq<char> {
    "impl "@ + camel(i.name@) + " {\n"@ + concat_indexed(i.requests@, request_fn(i.name@))
        + "}\n\n"@
}

/// The `Drop` impl that destroys the proxy.
pub open spec fn drop_text(i: Interface) -> Seq<char> {
    if !is_display(i.name@) {
        "impl Drop for "@ + camel(i.name@)
            + " {\n    fn drop(&mut self) {\n        unsafe { ffi_dispatch!(WAYLAND_CLIENT_HANDLE, wl_proxy_destroy, self.ptr()) }\n    }\n}\n"@
    } else {
        Seq::empty()
    }
}

// ---------------------------------------------------------------------------
// Whole output
// ---------------------------------------------------------------------------

/// Everything written for one interface.
#[verifier::opaque]
pub open spec fn interface_text(pname: Seq<char>, i: Interface) -> Seq<char> {
    "//\n// interface "@ + i.name@ + "\n//\n\n"@ + opt_doc_text(i.description, ""@) + proxy_text(
        pname,
        i,
    ) + concat_indexed(i.enums@, enum_fn(i.name@)) + opcodes_text(i) + events_text(pname, i)
        + requests_text(i) + drop_text(i)
}

/// `interface_text` for each item of a sequence, for `concat_indexed`.
pub open spec fn interface_fn(pname: Seq<char>) -> spec_fn(int, Interface) -> Seq<char> {
    |k: int, i: Interface| interface_text(pname, i)
}

/// The client bindings of a protocol.
pub open spec fn client_api_text(p: Protocol) -> Seq<char> {
    header_text(p) + protocol_event_text(p) + dispatcher_text(p) + concat_indexed(
        p.interfaces@,
        interface_fn(p.name@),
    )
}

} // verus!
