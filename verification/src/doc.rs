//! Doc comments of the generated code.
use vstd::prelude::*;

use crate::text::{
    chars_of, concat_indexed, is_white_space, is_whitespace, push_chars, string_of,
};

verus! {

broadcast use vstd::string::group_string_axioms;

/// The pieces of `s` between its newline characters: one more piece than
/// there are newlines.
pub open spec fn pieces(s: Seq<char>) -> Seq<Seq<char>>
    decreases s.len(),
{
    if s.len() == 0 {
        seq![Seq::empty()]
    } else if s.last() == '\n' {
        pieces(s.drop_last()).push(Seq::empty())
    } else {
        let p = pieces(s.drop_last());
        p.drop_last().push(p.last().push(s.last()))
    }
}

/// The lines of `s`: a final newline ends the last line rather than
/// starting an empty one, and an empty text has no line.
pub open spec fn lines(s: Seq<char>) -> Seq<Seq<char>> {
    let p = pieces(s);
    if p.last().len() == 0 {
        p.drop_last()
    } else {
        p
    }
}

/// `s` without its leading whitespace.
pub open spec fn trim_start(s: Seq<char>) -> Seq<char>
    decreases s.len(),
{
    if s.len() > 0 && is_white_space(s[0]) {
        trim_start(s.drop_first())
    } else {
        s
    }
}

/// `s` without its trailing whitespace.
pub open spec fn trim_end(s: Seq<char>) -> Seq<char>
    decreases s.len(),
{
    if s.len() > 0 && is_white_space(s.last()) {
        trim_end(s.drop_last())
    } else {
        s
    }
}

/// `s` without leading and trailing whitespace.
pub open spec fn trim(s: Seq<char>) -> Seq<char> {
    trim_end(trim_start(s))
}

/// The doc-comment line written for one line of a description.
pub open spec fn doc_line(prefix: Seq<char>, line: Seq<char>) -> Seq<char> {
    let t = trim(line);
    if t.len() > 0 {
        prefix + "/// "@ + t + "\n"@
    } else {
        prefix + "///\n"@
    }
}

/// `doc_line` with the prefix fixed, for writing a sequence of lines.
pub open spec fn doc_line_fn(prefix: Seq<char>) -> spec_fn(int, Seq<char>) -> Seq<char> {
    |k: int, line: Seq<char>| doc_line(prefix, line)
}

/// The doc comment for a summary and a description: the summary, an empty
/// comment line, then each line of the description, trimmed.
pub open spec fn doc_text(summary: Seq<char>, contents: Seq<char>, prefix: Seq<char>) -> Seq<char> {
    prefix + "/// "@ + summary + "\n"@ + prefix + "///\n"@ + concat_indexed(
        lines(contents),
        doc_line_fn(prefix),
    )
}

/// Adding an item to a sequence adds its text at the end.
pub proof fn lemma_concat_indexed_push<A>(s: Seq<A>, x: A, f: spec_fn(int, A) -> Seq<char>)
    ensures
        concat_indexed(s.push(x), f) == concat_indexed(s, f) + f(s.len() as int, x),
{
    assert(s.push(x).drop_last() =~= s);
}

/// Appends the doc-comment line for characters `from..to` of `v`.
fn write_doc_line(prefix: &str, v: &Vec<char>, from: usize, to: usize, out: &mut String)
    requires
        from <= to <= v.len(),
    ensures
        final(out)@ == old(out)@ + doc_line(prefix@, v@.subrange(from as int, to as int)),
{
    let ghost line = v@.subrange(from as int, to as int);
    let mut a = from;
    while a < to && is_whitespace(v[a])
        invariant
            from <= a <= to <= v.len(),
            line == v@.subrange(from as int, to as int),
            trim_start(line) == trim_start(v@.subrange(a as int, to as int)),
        decreases to - a,
    {
        assert(v@.subrange(a as int, to as int).drop_first() =~= v@.subrange(a + 1, to as int));
        a += 1;
    }
    assert(trim_start(line) == v@.subrange(a as int, to as int));
    let mut b = to;
    while b > a && is_whitespace(v[b - 1])
        invariant
            from <= a <= b <= to <= v.len(),
            trim(line) == trim_end(v@.subrange(a as int, b as int)),
        decreases b - a,
    {
        assert(v@.subrange(a as int, b as int).drop_last() =~= v@.subrange(a as int, b - 1));
        b -= 1;
    }
    assert(trim(line) == v@.subrange(a as int, b as int));
    out.append(prefix);
    if b > a {
        out.append("/// ");
        push_chars(out, v, a, b);
        out.append("\n");
    } else {
        out.append("///\n");
    }
    assert(final(out)@ =~= old(out)@ + doc_line(prefix@, line));
}

/// Appends to `out` the doc comment for `summary` and `contents`, each line
/// starting with `prefix`.
pub fn write_doc(summary: &str, contents: &str, prefix: &str, out: &mut String)
    ensures
        final(out)@ == old(out)@ + doc_text(summary@, contents@, prefix@),
{
    let mut s = string_of(prefix);
    s.append("/// ");
    s.append(summary);
    s.append("\n");
    s.append(prefix);
    s.append("///\n");
    let ghost head = s@;
    let v = chars_of(contents);
    let mut body = String::new();
    let mut start: usize = 0;
    let mut i: usize = 0;
    while i < v.len()
        invariant
            start <= i <= v.len(),
            v@ == contents@,
            pieces(v@.take(i as int)).len() >= 1,
            pieces(v@.take(i as int)).last() == v@.subrange(start as int, i as int),
            body@ == concat_indexed(pieces(v@.take(i as int)).drop_last(), doc_line_fn(prefix@)),
        decreases v.len() - i,
    {
        let ghost p = pieces(v@.take(i as int));
        assert(v@.take(i + 1).drop_last() =~= v@.take(i as int));
        if v[i] == '\n' {
            write_doc_line(prefix, &v, start, i, &mut body);
            proof {
                lemma_concat_indexed_push(p.drop_last(), p.last(), doc_line_fn(prefix@));
                assert(p.drop_last().push(p.last()) =~= p);
                assert(pieces(v@.take(i + 1)).drop_last() =~= p);
                assert(v@.subrange(i + 1, i + 1) =~= Seq::<char>::empty());
            }
            start = i + 1;
        } else {
            proof {
                assert(pieces(v@.take(i + 1)).drop_last() =~= p.drop_last());
                assert(v@.subrange(start as int, i + 1) =~= p.last().push(v@[i as int]));
            }
        }
        i += 1;
    }
    assert(v@.take(v.len() as int) =~= v@);
    let ghost p = pieces(v@);
    if start < v.len() {
        write_doc_line(prefix, &v, start, v.len(), &mut body);
        proof {
            lemma_concat_indexed_push(p.drop_last(), p.last(), doc_line_fn(prefix@));
            assert(p.drop_last().push(p.last()) =~= p);
        }
    }
    assert(body@ == concat_indexed(lines(contents@), doc_line_fn(prefix@)));
    s.append(body.as_str());
    out.append(s.as_str());
    assert(final(out)@ =~= old(out)@ + doc_text(summary@, contents@, prefix@));
}

/// The lines of a text joined again with newlines, each one ending with a
/// newline.
pub open spec fn join_lines(ls: Seq<Seq<char>>) -> Seq<char>
    decreases ls.len(),
{
    if ls.len() == 0 {
        Seq::empty()
    } else {
        join_lines(ls.drop_last()) + ls.last() + seq!['\n']
    }
}

/// The pieces of a text, joined with newlines, give the text back.
proof fn lemma_pieces_join(s: Seq<char>)
    ensures
        pieces(s).len() >= 1,
        join_lines(pieces(s).drop_last()) + pieces(s).last() == s,
        forall|k: int| 0 <= k < pieces(s).len() ==> !(#[trigger] pieces(s)[k]).contains('\n'),
    decreases s.len(),
{
    if s.len() > 0 {
        let u = s.drop_last();
        lemma_pieces_join(u);
        let p = pieces(u);
        if s.last() == '\n' {
            assert(pieces(s).drop_last() =~= p);
            assert(p.drop_last().push(p.last()) =~= p);
            assert(join_lines(p) == join_lines(p.drop_last()) + p.last() + seq!['\n']);
            assert(join_lines(p) + Seq::<char>::empty() =~= s);
            assert forall|k: int| 0 <= k < pieces(s).len() implies !(
            #[trigger] pieces(s)[k]).contains('\n') by {
                if k < p.len() {
                    assert(pieces(s)[k] == p[k]);
                } else {
                    assert(pieces(s)[k] =~= Seq::<char>::empty());
                }
            }
        } else {
            assert(pieces(s).drop_last() =~= p.drop_last());
            let j = join_lines(p.drop_last());
            assert(s =~= u.push(s.last()));
            assert(j + p.last().push(s.last()) =~= (j + p.last()).push(s.last()));
            assert forall|k: int| 0 <= k < pieces(s).len() implies !(
            #[trigger] pieces(s)[k]).contains('\n') by {
                if k < p.len() - 1 {
                    assert(pieces(s)[k] == p[k]);
                } else {
                    let q = p.last().push(s.last());
                    assert(pieces(s)[k] == q);
                    if q.contains('\n') {
                        let j = choose|j: int| 0 <= j < q.len() && q[j] == '\n';
                        assert(p.last()[j] == '\n');
                    }
                }
            }
        }
    }
}

/// Splitting a text into lines loses nothing but the line breaks: joining
/// the lines with newlines gives the text back (with a final newline added
/// when it had none), and no line holds a newline.
pub proof fn lemma_lines_join(s: Seq<char>)
    ensures
        forall|k: int| 0 <= k < lines(s).len() ==> !(#[trigger] lines(s)[k]).contains('\n'),
        s.len() == 0 || s.last() == '\n' ==> join_lines(lines(s)) == s,
        s.len() > 0 && s.last() != '\n' ==> join_lines(lines(s)) == s + seq!['\n'],
{
    lemma_pieces_join(s);
    let p = pieces(s);
    assert forall|k: int| 0 <= k < lines(s).len() implies !(#[trigger] lines(s)[k]).contains(
        '\n',
    ) by {
        assert(lines(s)[k] == p[k]);
    }
    if p.last().len() == 0 {
        assert(join_lines(p.drop_last()) + p.last() =~= join_lines(p.drop_last()));
    } else {
        assert(p.drop_last().push(p.last()) =~= p);
        assert(join_lines(p) == join_lines(p.drop_last()) + p.last() + seq!['\n']);
        if s.len() > 0 && s.last() == '\n' {
            assert(s.last() == (join_lines(p.drop_last()) + p.last()).last());
            assert(p.last()[p.last().len() - 1] == '\n');
            assert(p[p.len() - 1].contains('\n'));
        }
    }
}

/// Trimming leaves no whitespace at either end, and trimming twice is
/// trimming once.
pub proof fn lemma_trim(s: Seq<char>)
    ensures
        trim(s).len() > 0 ==> !is_white_space(trim(s)[0]),
        trim(s).len() > 0 ==> !is_white_space(trim(s).last()),
        trim(trim(s)) == trim(s),
{
    lemma_trim_start(s);
    lemma_trim_end(trim_start(s));
    let t = trim(s);
    if t.len() > 0 {
        assert(t[0] == trim_start(s)[0]);
    }
    lemma_trim_start(t);
    assert(trim_start(t) == t);
    lemma_trim_end(t);
}

proof fn lemma_trim_start(s: Seq<char>)
    ensures
        trim_start(s).len() > 0 ==> !is_white_space(trim_start(s)[0]),
        trim_start(s).len() <= s.len(),
        trim_start(s) == s.skip(s.len() - trim_start(s).len()),
    decreases s.len(),
{
    if s.len() > 0 && is_white_space(s[0]) {
        lemma_trim_start(s.drop_first());
        assert(s.drop_first().skip(s.len() - 1 - trim_start(s).len()) =~= s.skip(
            s.len() - trim_start(s).len(),
        ));
    } else {
        assert(s.skip(0) =~= s);
    }
}

proof fn lemma_trim_end(s: Seq<char>)
    ensures
        trim_end(s).len() > 0 ==> !is_white_space(trim_end(s).last()),
        trim_end(s).len() <= s.len(),
        trim_end(s) == s.take(trim_end(s).len() as int),
        s.len() > 0 && !is_white_space(s[0]) ==> trim_end(s).len() > 0 && trim_end(s)[0] == s[0],
    decreases s.len(),
{
    if s.len() > 0 && is_white_space(s.last()) {
        lemma_trim_end(s.drop_last());
        assert(s.drop_last().take(trim_end(s).len() as int) =~= s.take(
            trim_end(s).len() as int,
        ));
    } else {
        assert(s.take(s.len() as int) =~= s);
    }
}

} // verus!
