//! Documentation-comment formatting: turns a doc string, a comment style and
//! an indentation level into comment-prefixed text with no trailing line
//! break. Absent or empty doc strings produce nothing.
use vstd::prelude::*;

verus! {

/// The two comment styles: `///` for per-symbol documentation visible to
/// tooling, `//` for free-standing documentation blocks.
#[derive(Clone, Copy)]
pub enum CommentStyle {
    DoubleSlash,
    TripleSlash,
}

/// `n` space characters.
pub open spec fn spec_spaces(n: nat) -> Seq<char>
    decreases n,
{
    if n == 0 {
        Seq::empty()
    } else {
        spec_spaces((n - 1) as nat).push(' ')
    }
}

/// The comment marker of a style, including the space before the text.
pub open spec fn spec_comment_marker(style: CommentStyle) -> Seq<char> {
    match style {
        CommentStyle::DoubleSlash => "// "@,
        CommentStyle::TripleSlash => "/// "@,
    }
}

/// The full prefix put before every line of a formatted doc string.
pub open spec fn spec_comment_prefix(style: CommentStyle, indent: nat) -> Seq<char> {
    spec_spaces(indent) + spec_comment_marker(style)
}

/// The body of a formatted doc string: each character is kept, and every
/// line break is followed by a fresh copy of the comment prefix.
pub open spec fn spec_doc_body(doc: Seq<char>, prefix: Seq<char>) -> Seq<char>
    decreases doc.len(),
{
    if doc.len() == 0 {
        Seq::empty()
    } else if doc[0] == '\n' {
        seq!['\n'] + prefix + spec_doc_body(doc.skip(1), prefix)
    } else {
        seq![doc[0]] + spec_doc_body(doc.skip(1), prefix)
    }
}

/// A formatted non-empty doc string: the comment prefix, then the body with
/// every line break re-prefixed. No trailing line break.
pub open spec fn spec_format_docstring(doc: Seq<char>, style: CommentStyle, indent: nat) -> Seq<
    char,
> {
    spec_comment_prefix(style, indent) + spec_doc_body(doc, spec_comment_prefix(style, indent))
}

/// Formatting distributes over concatenation of the doc text.
pub proof fn lemma_doc_body_concat(a: Seq<char>, b: Seq<char>, prefix: Seq<char>)
    ensures
        spec_doc_body(a + b, prefix) == spec_doc_body(a, prefix) + spec_doc_body(b, prefix),
    decreases a.len(),
{
    if a.len() == 0 {
        assert(a + b =~= b);
        assert(spec_doc_body(a, prefix) + spec_doc_body(b, prefix) =~= spec_doc_body(b, prefix));
    } else {
        assert((a + b).skip(1) =~= a.skip(1) + b);
        lemma_doc_body_concat(a.skip(1), b, prefix);
        if a[0] == '\n' {
            assert(spec_doc_body(a + b, prefix) =~= spec_doc_body(a, prefix) + spec_doc_body(
                b,
                prefix,
            ));
        } else {
            assert(spec_doc_body(a + b, prefix) =~= spec_doc_body(a, prefix) + spec_doc_body(
                b,
                prefix,
            ));
        }
    }
}

/// A string of `n` spaces.
pub fn make_spaces(n: usize) -> (r: String)
    ensures
        r@ == spec_spaces(n as nat),
{
    let mut r = String::new();
    let mut i: usize = 0;
    while i < n
        invariant
            i <= n,
            r@ == spec_spaces(i as nat),
        decreases n - i,
    {
        r.append(" ");
        proof {
            reveal_strlit(" ");
            assert(" "@ =~= seq![' ']);
            assert(spec_spaces((i + 1) as nat) =~= spec_spaces(i as nat).push(' '));
            assert(r@ =~= spec_spaces((i + 1) as nat));
        }
        i = i + 1;
    }
    r
}

/// The comment prefix of a style at an indentation level.
pub fn make_comment_prefix(style: CommentStyle, indent: usize) -> (r: String)
    ensures
        r@ == spec_comment_prefix(style, indent as nat),
{
    let mut r = make_spaces(indent);
    match style {
        CommentStyle::DoubleSlash => r.append("// "),
        CommentStyle::TripleSlash => r.append("/// "),
    }
    r
}

/// Formats a doc string for emission: returns nothing when the doc string is
/// absent or empty; otherwise returns the text prefixed, line by line, with
/// the style's comment marker at the given indentation, with no trailing
/// line break.
pub fn format_docstring(docs: &Option<String>, style: CommentStyle, indent: usize) -> (r: Option<
    String,
>)
    ensures
        r is Some <==> (docs is Some && docs->0@.len() > 0),
        r is Some ==> r->0@ == spec_format_docstring(docs->0@, style, indent as nat),
{
    match docs {
        Option::None => Option::None,
        Option::Some(doc) => {
            let s = doc.as_str();
            let len = s.unicode_len();
            if len == 0 {
                return Option::None;
            }
            let prefix = make_comment_prefix(style, indent);
            let ghost p: Seq<char> = prefix@;
            let mut out = prefix.clone();
            let mut i: usize = 0;
            proof {
                assert(s@.subrange(0, 0) =~= Seq::<char>::empty());
                assert(out@ =~= p + spec_doc_body(s@.subrange(0, 0), p));
            }
            while i < len
                invariant
                    i <= len,
                    len == s@.len(),
                    prefix@ == p,
                    out@ == p + spec_doc_body(s@.subrange(0, i as int), p),
                decreases len - i,
            {
                let c = s.get_char(i);
                if c == '\n' {
                    out.append("\n");
                    out.append(prefix.as_str());
                } else {
                    let piece = s.substring_char(i, i + 1);
                    out.append(piece);
                }
                proof {
                    reveal_strlit("\n");
                    let pre = s@.subrange(0, i as int);
                    let one = s@.subrange(i as int, i + 1);
                    assert(s@.subrange(0, i + 1) =~= pre + one);
                    lemma_doc_body_concat(pre, one, p);
                    assert(one =~= seq![s@[i as int]]);
                    assert(one.skip(1) =~= Seq::<char>::empty());
                    assert(spec_doc_body(Seq::<char>::empty(), p) =~= Seq::<char>::empty());
                    assert(spec_doc_body(one.skip(1), p) =~= Seq::<char>::empty());
                    if s@[i as int] == '\n' {
                        assert("\n"@ =~= seq!['\n']);
                        assert(spec_doc_body(one, p) =~= seq!['\n'] + p);
                        assert(out@ =~= p + spec_doc_body(s@.subrange(0, i + 1), p));
                    } else {
                        assert(spec_doc_body(one, p) =~= one);
                        assert(out@ =~= p + spec_doc_body(s@.subrange(0, i + 1), p));
                    }
                }
                i = i + 1;
            }
            proof {
                assert(s@.subrange(0, len as int) =~= s@);
            }
            Option::Some(out)
        },
    }
}

} // verus!
