use wayland_scanner::names::{snake_to_camel, snake_to_screaming};
use wayland_scanner::protocol::Type;
use wayland_scanner::text::decimal_string;
use wayland_scanner::util::is_keyword;

#[test]
fn camel_case_of_snake_names() {
    assert_eq!(snake_to_camel("wl_data_device"), "WlDataDevice");
    assert_eq!(snake_to_camel("surface"), "Surface");
    assert_eq!(snake_to_camel(""), "");
    assert_eq!(snake_to_camel("__a__b_"), "AB");
    assert_eq!(snake_to_camel("x11_keymap"), "X11Keymap");
    assert_eq!(snake_to_camel("2x"), "2x");
    assert_eq!(snake_to_camel("already_Upper"), "AlreadyUpper");
}

#[test]
fn camel_case_is_idempotent() {
    for name in ["wl_shell_surface", "_x_", "abc", "a_1_b", ""] {
        let once = snake_to_camel(name);
        assert_eq!(snake_to_camel(&once), once);
        assert!(!once.contains('_'));
    }
}

#[test]
fn camel_case_keeps_non_ascii() {
    assert_eq!(snake_to_camel("été_ok"), "étéOk");
}

#[test]
fn screaming_case() {
    assert_eq!(snake_to_screaming("wl_surface"), "WL_SURFACE");
    assert_eq!(snake_to_screaming("set_Title2"), "SET_TITLE2");
    assert_eq!(snake_to_screaming(""), "");
    let once = snake_to_screaming("get_xdg_popup");
    assert_eq!(snake_to_screaming(&once), once);
}

#[test]
fn keywords() {
    for k in ["type", "move", "Self", "self", "fn", "yield", "abstract", "extern"] {
        assert!(is_keyword(k), "{}", k);
    }
    for k in ["destroy", "Type", "types", "", "attach", "moves"] {
        assert!(!is_keyword(k), "{}", k);
    }
}

#[test]
fn rust_types_of_arguments() {
    assert_eq!(Type::Int.rust_type(), "i32");
    assert_eq!(Type::Uint.rust_type(), "u32");
    assert_eq!(Type::Fixed.rust_type(), "f64");
    assert_eq!(Type::String.rust_type(), "String");
    assert_eq!(Type::Object.rust_type(), "ProxyId");
    assert_eq!(Type::Array.rust_type(), "Vec<u8>");
    assert_eq!(Type::Fd.rust_type(), "::std::os::unix::io::RawFd");
    assert_eq!(Type::NewId.rust_type(), "()");
    assert_eq!(Type::Destructor.rust_type(), "()");
}

#[test]
fn decimal_notation() {
    assert_eq!(decimal_string(0), "0");
    assert_eq!(decimal_string(7), "7");
    assert_eq!(decimal_string(10), "10");
    assert_eq!(decimal_string(4096), "4096");
    assert_eq!(decimal_string(u64::MAX), "18446744073709551615");
}
