use wayland_scanner::accept::{check_protocol, Unsupported};
use wayland_scanner::client_gen::generate_client_api;
use wayland_scanner::protocol::{Arg, Entry, Enum, Interface, Message, Protocol, Type};

fn arg(name: &str, typ: Type, interface: Option<&str>, allow_null: bool) -> Arg {
    Arg { name: name.to_string(), typ, interface: interface.map(|s| s.to_string()), allow_null }
}

fn msg(name: &str, typ: Option<Type>, since: u16, args: Vec<Arg>) -> Message {
    Message { name: name.to_string(), typ, since, description: None, args }
}

const IMPORTS: &str = "use wayland_sys::common::*;\nuse wayland_sys::client::*;\nuse {Proxy, ProxyId, wrap_proxy};\nuse events::{EventIterator, EventFifo, get_eventiter_internals, eventiter_from_internals};\n// update if needed to the appropriate file\nuse super::interfaces::*;\n\nuse std::ffi::{CString, CStr};\nuse std::ptr;\nuse std::sync::Arc;\nuse std::sync::atomic::{AtomicBool, Ordering};\nuse libc::{c_void, c_char};\n";

const BANNER: &str = "//\n// This file was auto-generated, do not edit directly\n//\n\n";

fn dispatcher(pname: &str, camel: &str) -> String {
    [
        "type ", pname, "_dispatcher_implem = fn(*mut wl_proxy, u32, *const wl_argument) -> Option<", camel, "ProtocolEvent>;\n\n",
        "extern \"C\" fn event_dispatcher(implem: *const c_void, proxy: *mut c_void, opcode: u32, _: *const wl_message, args: *const wl_argument) {\n",
        "    let userdata = unsafe { ffi_dispatch!(WAYLAND_CLIENT_HANDLE, wl_proxy_get_user_data, proxy as *mut wl_proxy) } as *const (EventFifo, AtomicBool);\n",
        "    if userdata.is_null() { return; }\n",
        "    let fifo: &(EventFifo, AtomicBool) = unsafe { &*userdata };\n",
        "    if !fifo.1.load(Ordering::SeqCst) { return; }\n",
        "    let implem = unsafe { ::std::mem::transmute::<_, ", pname, "_dispatcher_implem>(implem) };\n",
        "    let event = implem(proxy as *mut wl_proxy, opcode, args);\n",
        "    if let Some(evt) = event {\n",
        "        fifo.0.push(::Event::", camel, "(evt));\n",
        "    }\n",
        "}\n",
    ]
    .concat()
}

fn protocol_event_enum(pname: &str, camel: &str, variants: &str) -> String {
    [
        "/// An event generated by the protocol ", pname, ".\n",
        "///\n",
        "/// Each variant is composed of a `ProxyId` reffering to the proxy object\n",
        "/// and of the event data itself.\n",
        "#[derive(Debug)]\n",
        "pub enum ", camel, "ProtocolEvent {\n",
        variants,
        "}\n\n",
    ]
    .concat()
}

const NEW_PROXY_TAIL: &str = "        let evt_iter = eventiter_from_internals(self.evq.clone());\n        proxy.set_evt_iterator(&evt_iter);\n        ::std::mem::forget(evt_iter); // Don't run the destructor !\n        proxy\n";

fn foo_protocol() -> Protocol {
    Protocol {
        name: "test".to_string(),
        copyright: None,
        interfaces: vec![Interface {
            name: "wl_foo".to_string(),
            version: 3,
            description: Some(("A foo.".to_string(), "Longer\ntext.".to_string())),
            requests: vec![
                msg("destroy", Some(Type::Destructor), 1, vec![]),
                msg(
                    "get_bar",
                    None,
                    2,
                    vec![arg("id", Type::NewId, Some("wl_bar"), false), arg("label", Type::String, None, true)],
                ),
                msg(
                    "move",
                    None,
                    1,
                    vec![arg("x", Type::Fixed, None, false), arg("target", Type::Object, Some("wl_bar"), true)],
                ),
            ],
            events: vec![msg(
                "done",
                None,
                1,
                vec![arg("serial", Type::Uint, None, false), arg("child", Type::NewId, Some("wl_bar"), false)],
            )],
            enums: vec![Enum {
                name: "error".to_string(),
                description: None,
                entries: vec![Entry { name: "bad_thing".to_string(), value: 0, summary: Some("bad".to_string()) }],
            }],
        }],
    }
}

fn foo_expected() -> String {
    [
        BANNER,
        IMPORTS,
        &protocol_event_enum("test", "Test", "    WlFoo(ProxyId, WlFooEvent),\n"),
        &dispatcher("test", "Test"),
        "//\n// interface wl_foo\n//\n\n",
        "/// A foo.\n///\n/// Longer\n/// text.\n",
        "pub struct WlFoo {\n    ptr: *mut wl_proxy,\n    evq: Arc<(EventFifo,AtomicBool)>\n}\n\n",
        "unsafe impl Sync for WlFoo {}\n",
        "unsafe impl Send for WlFoo {}\n",
        "impl Proxy for WlFoo {\n",
        "    fn ptr(&self) -> *mut wl_proxy { self.ptr }\n",
        "    fn interface() -> *mut wl_interface { unsafe { &mut wl_foo_interface  as *mut wl_interface } }\n",
        "    fn interface_name() -> &'static str { \"wl_foo\" }\n",
        "    fn version() -> u32 { 3 }\n",
        "    fn id(&self) -> ProxyId { ProxyId { id: self.ptr as usize } }\n",
        "    unsafe fn from_ptr(ptr: *mut wl_proxy) -> WlFoo {\n",
        "        ffi_dispatch!(WAYLAND_CLIENT_HANDLE, wl_proxy_add_dispatcher, ptr, event_dispatcher, wl_foo_implem as *const c_void, ptr::null_mut());\n",
        "        WlFoo { ptr: ptr, evq: Arc::new((EventFifo::new(), AtomicBool::new(false))) }\n",
        "    }\n",
        "    fn set_evt_iterator(&mut self, evt: &EventIterator) {\n",
        "        self.evq = get_eventiter_internals(evt);\n",
        "        let ptr = &*self.evq as *const (EventFifo,AtomicBool);\n",
        "        unsafe { ffi_dispatch!(WAYLAND_CLIENT_HANDLE, wl_proxy_set_user_data, self.ptr, ptr as *const c_void as *mut c_void) };\n",
        "    }\n",
        "}\n\n",
        "impl ::std::fmt::Debug for WlFoo {\n",
        "    fn fmt(&self, fmt: &mut ::std::fmt::Formatter) -> Result<(), ::std::fmt::Error> {\n",
        "        fmt.write_fmt(format_args!(\"test::wl_foo::{}\", self.ptr as usize))\n",
        "    }\n",
        "}\n\n",
        "#[repr(i32)]\npub enum WlFooError {\n",
        "    #[doc(hidden)]\n",
        "    __not_univariant = -1,\n",
        "    /// bad\n",
        "    BadThing = 0,\n",
        "}\n\n",
        "// wl_foo opcodes\n",
        "const WL_FOO_DESTROY: u32 = 0;\n",
        "const WL_FOO_GET_BAR: u32 = 1;\n",
        "const WL_FOO_MOVE: u32 = 2;\n",
        "\n",
        "#[derive(Debug)]\n",
        "pub enum WlFooEvent {\n",
        "    ///\n    /// Values: serial, child,\n",
        "    Done(u32,WlBar,),\n",
        "}\n\n",
        "fn wl_foo_implem(proxy: *mut wl_proxy, opcode: u32, args: *const wl_argument) -> Option<TestProtocolEvent> {\n",
        "    let event = match opcode {\n",
        "        0 => {\n",
        "            let arg_0 = unsafe {*(args.offset(0) as *const u32)};\n",
        "            let arg_1 = unsafe {{ let ptr = *(args.offset(1) as *const *mut wl_proxy); WlBar::from_ptr(ptr) }};\n",
        "            Some(WlFooEvent::Done(arg_0,arg_1,))\n",
        "        },\n",
        "        _ => None\n",
        "    };\n",
        "    event.map(|event| TestProtocolEvent::WlFoo(wrap_proxy(proxy), event))\n",
        "}\n\n",
        "impl WlFoo {\n",
        "\n",
        "    pub fn destroy(self,) {\n",
        "        unsafe { ffi_dispatch!(WAYLAND_CLIENT_HANDLE, wl_proxy_marshal, self.ptr(), WL_FOO_DESTROY\n",
        "           ) };\n",
        "        unsafe { ffi_dispatch!(WAYLAND_CLIENT_HANDLE, wl_proxy_destroy, self.ptr()) }\n",
        "    }\n",
        "\n",
        "    ///\n    /// Requires interface version `>= 2`.\n",
        "    pub fn get_bar(&self, label: Option<String>,) -> WlBar {\n",
        "        let label = label.map(|t| CString::new(t).unwrap_or_else(|_| panic!(\"Got a String with interior null.\")));\n",
        "        let ptr = unsafe { ffi_dispatch!(WAYLAND_CLIENT_HANDLE, wl_proxy_marshal_constructor, self.ptr(), WL_FOO_GET_BAR, &wl_bar_interface as *const wl_interface\n",
        "           , ptr::null_mut::<wl_proxy>(), label.map(|s| s.as_ptr()).unwrap_or(ptr::null())) };\n",
        "        let mut proxy: WlBar = unsafe { Proxy::from_ptr(ptr) };\n",
        NEW_PROXY_TAIL,
        "    }\n",
        "\n",
        "    pub fn move_(&self, x: f64, target: Option<&WlBar>,) {\n",
        "        let x = wl_fixed_from_double(x)\n",
        "        unsafe { ffi_dispatch!(WAYLAND_CLIENT_HANDLE, wl_proxy_marshal, self.ptr(), WL_FOO_MOVE\n",
        "           , x, target.map(Proxy::ptr).unwrap_or(ptr::null_mut())) };\n",
        "    }\n",
        "}\n\n",
        "impl Drop for WlFoo {\n",
        "    fn drop(&mut self) {\n",
        "        unsafe { ffi_dispatch!(WAYLAND_CLIENT_HANDLE, wl_proxy_destroy, self.ptr()) }\n",
        "    }\n",
        "}\n",
    ]
    .concat()
}

#[test]
fn generates_interface_with_requests_events_and_enum() {
    let mut out = String::new();
    generate_client_api(foo_protocol(), &mut out);
    let expected = foo_expected();
    for (k, (a, b)) in out.lines().zip(expected.lines()).enumerate() {
        assert_eq!(a, b, "line {}", k + 1);
    }
    assert_eq!(out, expected);
}

#[test]
fn output_is_appended() {
    let mut out = String::from("// kept\n");
    generate_client_api(foo_protocol(), &mut out);
    assert_eq!(out, format!("// kept\n{}", foo_expected()));
}

fn display_protocol() -> Protocol {
    Protocol {
        name: "wayland".to_string(),
        copyright: Some("Copyright X".to_string()),
        interfaces: vec![Interface {
            name: "wl_display".to_string(),
            version: 1,
            description: None,
            requests: vec![
                msg("bind", None, 1, vec![arg("name", Type::Uint, None, false), arg("id", Type::NewId, None, false)]),
                msg(
                    "double",
                    None,
                    1,
                    vec![arg("a", Type::NewId, Some("x"), false), arg("b", Type::NewId, Some("y"), false)],
                ),
                msg(
                    "set",
                    None,
                    1,
                    vec![
                        arg("n", Type::Int, None, true),
                        arg("t", Type::String, None, false),
                        arg("buf", Type::Array, None, false),
                        arg("opt", Type::Array, None, true),
                        arg("o", Type::Object, None, false),
                        arg("f", Type::Fd, None, false),
                    ],
                ),
            ],
            events: vec![msg(
                "error",
                None,
                1,
                vec![
                    arg("code", Type::Int, None, false),
                    arg("message", Type::String, None, false),
                    arg("data", Type::Array, None, false),
                    arg("fd", Type::Fd, None, false),
                    arg("obj", Type::Object, None, false),
                    arg("v", Type::Fixed, None, false),
                ],
            )],
            enums: vec![Enum {
                name: "mode".to_string(),
                description: Some(("Modes.".to_string(), String::new())),
                entries: vec![
                    Entry { name: "2x".to_string(), value: 2, summary: None },
                    Entry { name: "normal".to_string(), value: 10, summary: None },
                ],
            }],
        }],
    }
}

fn display_expected() -> String {
    [
        BANNER,
        "/*\nCopyright X\n*/\n\n",
        IMPORTS,
        &protocol_event_enum("wayland", "Wayland", "    WlDisplay(ProxyId, WlDisplayEvent),\n"),
        &dispatcher("wayland", "Wayland"),
        "//\n// interface wl_display\n//\n\n",
        "pub struct WlDisplay {\n    ptr: *mut wl_proxy,\n    evq: Arc<(EventFifo,AtomicBool)>\n}\n\n",
        "unsafe impl Sync for WlDisplay {}\n",
        "unsafe impl Send for WlDisplay {}\n",
        "impl Proxy for WlDisplay {\n",
        "    fn ptr(&self) -> *mut wl_proxy { self.ptr }\n",
        "    fn interface() -> *mut wl_interface { unsafe { &mut wl_display_interface  as *mut wl_interface } }\n",
        "    fn interface_name() -> &'static str { \"wl_display\" }\n",
        "    fn version() -> u32 { 1 }\n",
        "    fn id(&self) -> ProxyId { ProxyId { id: self.ptr as usize } }\n",
        "    unsafe fn from_ptr(ptr: *mut wl_proxy) -> WlDisplay {\n",
        "        WlDisplay { ptr: ptr, evq: Arc::new((EventFifo::new(), AtomicBool::new(false))) }\n",
        "    }\n",
        "    fn set_evt_iterator(&mut self, evt: &EventIterator) {\n",
        "        self.evq = get_eventiter_internals(evt);\n",
        "    }\n",
        "}\n\n",
        "impl ::std::fmt::Debug for WlDisplay {\n",
        "    fn fmt(&self, fmt: &mut ::std::fmt::Formatter) -> Result<(), ::std::fmt::Error> {\n",
        "        fmt.write_fmt(format_args!(\"wayland::wl_display::{}\", self.ptr as usize))\n",
        "    }\n",
        "}\n\n",
        "/// Modes.\n///\n",
        "#[repr(i32)]\npub enum WlDisplayMode {\n",
        "    M2x = 2,\n",
        "    Normal = 10,\n",
        "}\n\n",
        "// wl_display opcodes\n",
        "const WL_DISPLAY_BIND: u32 = 0;\n",
        "const WL_DISPLAY_DOUBLE: u32 = 1;\n",
        "const WL_DISPLAY_SET: u32 = 2;\n",
        "\n",
        "#[derive(Debug)]\n",
        "pub enum WlDisplayEvent {\n",
        "    ///\n    /// Values: code, message, data, fd, obj, v,\n",
        "    Error(i32,String,Vec<u8>,::std::os::unix::io::RawFd,ProxyId,f64,),\n",
        "}\n\n",
        "fn wl_display_implem(proxy: *mut wl_proxy, opcode: u32, args: *const wl_argument) -> Option<WaylandProtocolEvent> {\n",
        "    let event = match opcode {\n",
        "        0 => {\n",
        "            let arg_0 = unsafe {*(args.offset(0) as *const i32)};\n",
        "            let arg_1 = unsafe {String::from_utf8_lossy(CStr::from_ptr(*(args.offset(1) as *const *mut c_char)).to_bytes()).into_owned()};\n",
        "            let arg_2 = unsafe {{ let array = *(args.offset(2) as *const *mut wl_array); ::std::slice::from_raw_parts((*array).data as *const u8, (*array).size as usize).to_owned() }};\n",
        "            let arg_3 = unsafe {*(args.offset(3) as *const i32)};\n",
        "            let arg_4 = unsafe {wrap_proxy(*(args.offset(4) as *const *mut wl_proxy))};\n",
        "            let arg_5 = unsafe {wl_fixed_to_double(*(args.offset(5) as *const i32))};\n",
        "            Some(WlDisplayEvent::Error(arg_0,arg_1,arg_2,arg_3,arg_4,arg_5,))\n",
        "        },\n",
        "        _ => None\n",
        "    };\n",
        "    event.map(|event| WaylandProtocolEvent::WlDisplay(wrap_proxy(proxy), event))\n",
        "}\n\n",
        "impl WlDisplay {\n",
        "\n",
        "    pub unsafe fn bind<T: Proxy>(&self, name: u32,version: u32,) -> T {\n",
        "        if version < <T as Proxy>::version() {\n",
        "            panic!(\"Tried to bind interface {} with version {} while it is only supported up to {}.\", <T as Proxy>::interface_name(), version, <T as Proxy>::version())\n",
        "        }\n",
        "        let ptr = unsafe { ffi_dispatch!(WAYLAND_CLIENT_HANDLE, wl_proxy_marshal_constructor, self.ptr(), WL_DISPLAY_BIND, <T as Proxy>::interface()\n",
        "           , name, (*<T as Proxy>::interface()).name, version, ptr::null_mut::<wl_proxy>()) };\n",
        "        let mut proxy: T = unsafe { Proxy::from_ptr(ptr) };\n",
        NEW_PROXY_TAIL,
        "    }\n",
        "\n",
        "    pub fn set(&self, n: Option<i32>, t: String, buf: Vec<u8>, opt: Option<Vec<u8>>, o: *mut (), f: ::std::os::unix::io::RawFd,) {\n",
        "        let t = CString::new(t).unwrap_or_else(|_| panic!(\"Got a String with interior null.\"));\n",
        "        unsafe { ffi_dispatch!(WAYLAND_CLIENT_HANDLE, wl_proxy_marshal, self.ptr(), WL_DISPLAY_SET\n",
        "           , n.unwrap_or(0), t.as_ptr(), &mut buf as *mut wl_array, opt.map(|a| &mut a as *mut wl_array).unwrap_or(ptr::null_mut()), o.ptr(), f) };\n",
        "    }\n",
        "}\n\n",
    ]
    .concat()
}

#[test]
fn generates_display_interface() {
    let mut out = String::new();
    generate_client_api(display_protocol(), &mut out);
    let expected = display_expected();
    for (k, (a, b)) in out.lines().zip(expected.lines()).enumerate() {
        assert_eq!(a, b, "line {}", k + 1);
    }
    assert_eq!(out, expected);
}

#[test]
fn empty_protocol() {
    let p = Protocol { name: "empty_proto".to_string(), copyright: None, interfaces: vec![] };
    let mut out = String::new();
    generate_client_api(p, &mut out);
    let expected = [
        BANNER,
        IMPORTS,
        &protocol_event_enum("empty_proto", "EmptyProto", ""),
        &dispatcher("empty_proto", "EmptyProto"),
    ]
    .concat();
    assert_eq!(out, expected);
}

#[test]
fn interface_without_messages() {
    let p = Protocol {
        name: "p".to_string(),
        copyright: None,
        interfaces: vec![Interface {
            name: "wl_region".to_string(),
            version: 12,
            description: None,
            requests: vec![],
            events: vec![],
            enums: vec![],
        }],
    };
    let mut out = String::new();
    generate_client_api(p, &mut out);
    assert!(out.contains("pub enum PProtocolEvent {\n}\n\n"));
    assert!(out.contains("    fn version() -> u32 { 12 }\n"));
    assert!(out.contains("    unsafe fn from_ptr(ptr: *mut wl_proxy) -> WlRegion {\n        WlRegion {"));
    assert!(out.contains("// wl_region opcodes\nimpl WlRegion {\n}\n\nimpl Drop for WlRegion {"));
    assert!(!out.contains("WlRegionEvent"));
}

#[test]
fn accepts_well_formed_protocols() {
    assert_eq!(check_protocol(&foo_protocol()), Ok(()));
    assert_eq!(check_protocol(&display_protocol()), Ok(()));
}

#[test]
fn rejects_empty_variant_name() {
    let mut p = foo_protocol();
    p.interfaces[0].enums[0].entries.push(Entry { name: "__".to_string(), value: 1, summary: None });
    assert_eq!(check_protocol(&p), Err(Unsupported::EmptyVariantName));
}

#[test]
fn rejects_digit_variant_in_nameless_enum() {
    let mut p = foo_protocol();
    p.interfaces[0].enums.push(Enum {
        name: String::new(),
        description: None,
        entries: vec![Entry { name: "3d".to_string(), value: 1, summary: None }],
    });
    assert_eq!(check_protocol(&p), Err(Unsupported::DigitVariantInNamelessEnum));
}

#[test]
fn rejects_event_new_id_without_interface() {
    let mut p = foo_protocol();
    p.interfaces[0].events[0].args.push(arg("x", Type::NewId, None, false));
    assert_eq!(check_protocol(&p), Err(Unsupported::NewIdWithoutInterface));
}

#[test]
fn rejects_destructor_event_argument() {
    let mut p = foo_protocol();
    p.interfaces[0].events[0].args.push(arg("x", Type::Destructor, None, false));
    assert_eq!(check_protocol(&p), Err(Unsupported::DestructorArgument));
}

#[test]
fn names_the_first_problem_met() {
    // Enum entries are written before the events of the same interface.
    let mut p = foo_protocol();
    p.interfaces[0].events[0].args.push(arg("x", Type::NewId, None, false));
    p.interfaces[0].enums[0].entries.push(Entry { name: "_".to_string(), value: 1, summary: None });
    assert_eq!(check_protocol(&p), Err(Unsupported::EmptyVariantName));

    // The event enum (new ids) is written before the event handler (destructors).
    let mut p = foo_protocol();
    p.interfaces[0].events[0].args.push(arg("d", Type::Destructor, None, false));
    p.interfaces[0].events.push(msg("later", None, 1, vec![arg("x", Type::NewId, None, false)]));
    assert_eq!(check_protocol(&p), Err(Unsupported::NewIdWithoutInterface));

    // Interfaces are written in order.
    let mut p = foo_protocol();
    p.interfaces[0].events[0].args.push(arg("d", Type::Destructor, None, false));
    let mut second = foo_protocol().interfaces.remove(0);
    second.enums[0].entries.push(Entry { name: "".to_string(), value: 1, summary: None });
    p.interfaces.push(second);
    assert_eq!(check_protocol(&p), Err(Unsupported::DestructorArgument));

    // Within one enum, entries are met in order.
    let mut p = foo_protocol();
    p.interfaces[0].enums.push(Enum {
        name: String::new(),
        description: None,
        entries: vec![
            Entry { name: "9".to_string(), value: 1, summary: None },
            Entry { name: "__".to_string(), value: 2, summary: None },
        ],
    });
    assert_eq!(check_protocol(&p), Err(Unsupported::DigitVariantInNamelessEnum));
}
