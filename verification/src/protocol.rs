//! The model of a Wayland protocol description that the generator reads.
use vstd::prelude::*;

verus! {

/// The type of a message argument, or the kind of a message.
#[derive(Clone, Copy, Debug, PartialEq, Eq, Structural)]
pub enum Type {
    Int,
    Uint,
    Fixed,
    String,
    Object,
    NewId,
    Array,
    Fd,
    Destructor,
}

/// The Rust type that stands for an argument of type `t`.
pub open spec fn rust_type_text(t: Type) -> Seq<char> {
    match t {
        Type::Int => "i32"@,
        Type::Uint => "u32"@,
        Type::Fixed => "f64"@,
        Type::Array => "Vec<u8>"@,
        Type::Fd => "::std::os::unix::io::RawFd"@,
        Type::String => "String"@,
        Type::Object => "ProxyId"@,
        _ => "()"@,
    }
}

impl Type {
    /// The Rust type that stands for an argument of this type.
    pub fn rust_type(&self) -> (r: &'static str)
        ensures
            r@ == rust_type_text(*self),
    {
        match *self {
            Type::Int => "i32",
            Type::Uint => "u32",
            Type::Fixed => "f64",
            Type::Array => "Vec<u8>",
            Type::Fd => "::std::os::unix::io::RawFd",
            Type::String => "String",
            Type::Object => "ProxyId",
            _ => "()",
        }
    }
}

/// A whole protocol.
#[derive(Clone, Debug)]
pub struct Protocol {
    pub name: String,
    pub copyright: Option<String>,
    pub interfaces: Vec<Interface>,
}

/// One interface of a protocol.
#[derive(Clone, Debug)]
pub struct Interface {
    pub name: String,
    pub version: u32,
    /// Summary and long description.
    pub description: Option<(String, String)>,
    pub requests: Vec<Message>,
    pub events: Vec<Message>,
    pub enums: Vec<Enum>,
}

/// A request or an event.
#[derive(Clone, Debug)]
pub struct Message {
    pub name: String,
    /// `Some(Type::Destructor)` for a request that destroys its object.
    pub typ: Option<Type>,
    pub since: u16,
    pub description: Option<(String, String)>,
    pub args: Vec<Arg>,
}

/// An argument of a message.
#[derive(Clone, Debug)]
pub struct Arg {
    pub name: String,
    pub typ: Type,
    /// The interface of an object or new-id argument, when the protocol fixes it.
    pub interface: Option<String>,
    pub allow_null: bool,
}

/// An enumeration of an interface.
#[derive(Clone, Debug)]
pub struct Enum {
    pub name: String,
    pub description: Option<(String, String)>,
    pub entries: Vec<Entry>,
}

/// One entry of an enumeration.
#[derive(Clone, Debug)]
pub struct Entry {
    pub name: String,
    pub value: u32,
    pub summary: Option<String>,
}

} // verus!
