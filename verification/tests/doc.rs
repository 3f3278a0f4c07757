use wayland_scanner::doc::write_doc;

fn doc(summary: &str, contents: &str, prefix: &str) -> String {
    let mut out = String::from("before\n");
    write_doc(summary, contents, prefix, &mut out);
    out
}

#[test]
fn doc_with_indented_lines() {
    assert_eq!(
        doc("sum", "  first line  \n\n\tsecond\r\nlast", "    "),
        "before\n    /// sum\n    ///\n    /// first line\n    ///\n    /// second\n    /// last\n"
    );
}

#[test]
fn doc_of_empty_description() {
    assert_eq!(doc("Only a summary", "", ""), "before\n/// Only a summary\n///\n");
}

#[test]
fn doc_final_newline_adds_no_line() {
    assert_eq!(doc("s", "a\n", ""), "before\n/// s\n///\n/// a\n");
    assert_eq!(doc("s", "\n", ""), "before\n/// s\n///\n///\n");
    assert_eq!(doc("s", "a\n\n", ""), "before\n/// s\n///\n/// a\n///\n");
}

#[test]
fn doc_trims_unicode_whitespace() {
    assert_eq!(
        doc("s", "\u{3000}wide\u{a0}\n \u{2028} ", "  "),
        "before\n  /// s\n  ///\n  /// wide\n  ///\n"
    );
}

#[test]
fn doc_keeps_inner_spacing() {
    assert_eq!(doc("s", "  a   b  ", "\t"), "before\n\t/// s\n\t///\n\t/// a   b\n");
}
