//! Rust keywords.
use vstd::prelude::*;

use crate::text::same_text;

verus! {

/// The words that cannot stand as a Rust identifier (reserved words
/// included).
pub open spec fn keyword(t: Seq<char>) -> bool {
    ||| t == "abstract"@ ||| t == "alignof"@ ||| t == "as"@ ||| t == "become"@
    ||| t == "box"@ ||| t == "break"@ ||| t == "const"@ ||| t == "continue"@
    ||| t == "crate"@ ||| t == "do"@ ||| t == "else"@ ||| t == "enum"@
    ||| t == "extern"@ ||| t == "false"@ ||| t == "final"@ ||| t == "fn"@
    ||| t == "for"@ ||| t == "if"@ ||| t == "impl"@ ||| t == "in"@
    ||| t == "let"@ ||| t == "loop"@ ||| t == "macro"@ ||| t == "match"@
    ||| t == "mod"@ ||| t == "move"@ ||| t == "mut"@ ||| t == "offsetof"@
    ||| t == "override"@ ||| t == "priv"@ ||| t == "proc"@ ||| t == "pub"@
    ||| t == "pure"@ ||| t == "ref"@ ||| t == "return"@ ||| t == "Self"@
    ||| t == "self"@ ||| t == "sizeof"@ ||| t == "static"@ ||| t == "struct"@
    ||| t == "super"@ ||| t == "trait"@ ||| t == "true"@ ||| t == "type"@
    ||| t == "typeof"@ ||| t == "unsafe"@ ||| t == "unsized"@ ||| t == "use"@
    ||| t == "virtual"@ ||| t == "where"@ ||| t == "while"@ ||| t == "yield"@
}

/// Whether `txt` is a Rust keyword.
pub fn is_keyword(txt: &str) -> (r: bool)
    ensures
        r == keyword(txt@),
{
    same_text(txt, "abstract") || same_text(txt, "alignof") || same_text(txt, "as")
        || same_text(txt, "become") || same_text(txt, "box") || same_text(txt, "break")
        || same_text(txt, "const") || same_text(txt, "continue") || same_text(txt, "crate")
        || same_text(txt, "do") || same_text(txt, "else") || same_text(txt, "enum")
        || same_text(txt, "extern") || same_text(txt, "false") || same_text(txt, "final")
        || same_text(txt, "fn") || same_text(txt, "for") || same_text(txt, "if")
        || same_text(txt, "impl") || same_text(txt, "in") || same_text(txt, "let")
        || same_text(txt, "loop") || same_text(txt, "macro") || same_text(txt, "match")
        || same_text(txt, "mod") || same_text(txt, "move") || same_text(txt, "mut")
        || same_text(txt, "offsetof") || same_text(txt, "override") || same_text(txt, "priv")
        || same_text(txt, "proc") || same_text(txt, "pub") || same_text(txt, "pure")
        || same_text(txt, "ref") || same_text(txt, "return") || same_text(txt, "Self")
        || same_text(txt, "self") || same_text(txt, "sizeof") || same_text(txt, "static")
        || same_text(txt, "struct") || same_text(txt, "super") || same_text(txt, "trait")
        || same_text(txt, "true") || same_text(txt, "type") || same_text(txt, "typeof")
        || same_text(txt, "unsafe") || same_text(txt, "unsized") || same_text(txt, "use")
        || same_text(txt, "virtual") || same_text(txt, "where") || same_text(txt, "while")
        || same_text(txt, "yield")
}

} // verus!
