//! The grammar of property paths, read from text, and the proof that the
//! text of a path's property tree reads back as the path.
//!
//! The reader covers the paths that are written without white space from
//! IRIs in angle brackets, parentheses and the operators `^`, `/`, `|`,
//! `*`, `+` and `?`. Operators bind as the query language has them: a
//! repetition binds tighter than `^`, `^` tighter than `/`, and `/`
//! tighter than `|`; `/` and `|` group to the left.

use crate::model::{Modifier, PropertyView};
use crate::path::{PathView, child_paths, decomposed, modified, path_text, with_modifier};
use crate::text::join;
use vstd::prelude::*;

verus! {

/// A character that may stand inside the angle brackets of an IRI.
pub open spec fn iri_char(c: char) -> bool {
    c != '<' && c != '>' && c != '"' && c != '{' && c != '}' && c != '|' && c != '^' && c != '`'
        && c != '\\' && (c as int) > 0x20
}

/// The number of characters at the head of `s` that may stand inside an
/// IRI.
pub open spec fn iri_length(s: Seq<char>) -> nat
    decreases s.len(),
{
    if s.len() > 0 && iri_char(s[0]) {
        1 + iri_length(s.drop_first())
    } else {
        0
    }
}

/// An IRI in angle brackets.
pub open spec fn is_iri_ref(s: Seq<char>) -> bool {
    &&& s.len() >= 2
    &&& s[0] == '<'
    &&& s[s.len() - 1] == '>'
    &&& forall|i: int| 1 <= i < s.len() - 1 ==> iri_char(#[trigger] s[i])
}

/// Nothing follows, or what follows closes the operand that was read: a
/// `/`, a `|` or a `)`.
pub open spec fn at_path_end(rest: Seq<char>) -> bool {
    rest.len() == 0 || rest[0] == '/' || rest[0] == '|' || rest[0] == ')'
}

/// Reads an IRI in angle brackets, or a path in parentheses.
pub open spec fn parse_primary(s: Seq<char>) -> Option<(PathView, Seq<char>)>
    decreases s.len(), 0nat,
{
    if s.len() == 0 {
        None
    } else if s[0] == '<' {
        let k = iri_length(s.skip(1)) as int;
        if k + 1 < s.len() && s[k + 1] == '>' {
            Some((PathView::NamedNode(s.take(k + 2)), s.skip(k + 2)))
        } else {
            None
        }
    } else if s[0] == '(' {
        match parse_alternative(s.skip(1)) {
            Some((p, rest)) => if rest.len() > 0 && rest[0] == ')' {
                Some((p, rest.skip(1)))
            } else {
                None
            },
            None => None,
        }
    } else {
        None
    }
}

/// Reads a primary and the repetition mark behind it, if there is one. A
/// `?` is a mark only where the operand ends with it.
pub open spec fn parse_elt(s: Seq<char>) -> Option<(PathView, Seq<char>)>
    decreases s.len(), 1nat,
{
    match parse_primary(s) {
        Some((p, rest)) => if rest.len() > 0 && rest[0] == '*' {
            Some((PathView::ZeroOrMore(Box::new(p)), rest.skip(1)))
        } else if rest.len() > 0 && rest[0] == '+' {
            Some((PathView::OneOrMore(Box::new(p)), rest.skip(1)))
        } else if rest.len() > 0 && rest[0] == '?' && at_path_end(rest.skip(1)) {
            Some((PathView::ZeroOrOne(Box::new(p)), rest.skip(1)))
        } else {
            Some((p, rest))
        },
        None => None,
    }
}

/// Reads an element, or `^` and the element that it reverses.
pub open spec fn parse_elt_or_inverse(s: Seq<char>) -> Option<(PathView, Seq<char>)>
    decreases s.len(), 2nat,
{
    if s.len() > 0 && s[0] == '^' {
        match parse_elt(s.skip(1)) {
            Some((p, rest)) => Some((PathView::Reverse(Box::new(p)), rest)),
            None => None,
        }
    } else {
        parse_elt(s)
    }
}

/// Reads what follows the head `left` of a sequence: as long as a `/`
/// comes, one more element, joined to what was read before it.
pub open spec fn sequence_tail(left: PathView, s: Seq<char>) -> Option<(PathView, Seq<char>)>
    decreases s.len(), 3nat,
{
    if s.len() > 0 && s[0] == '/' {
        match parse_elt_or_inverse(s.skip(1)) {
            Some((right, rest)) => if rest.len() < s.len() {
                sequence_tail(PathView::Sequence(Box::new(left), Box::new(right)), rest)
            } else {
                None
            },
            None => None,
        }
    } else {
        Some((left, s))
    }
}

/// Reads elements with `/` between them.
pub open spec fn parse_sequence(s: Seq<char>) -> Option<(PathView, Seq<char>)>
    decreases s.len(), 4nat,
{
    match parse_elt_or_inverse(s) {
        Some((first, rest)) => if rest.len() <= s.len() {
            sequence_tail(first, rest)
        } else {
            None
        },
        None => None,
    }
}

/// Reads what follows the head `left` of an alternative: as long as a `|`
/// comes, one more sequence, joined to what was read before it.
pub open spec fn alternative_tail(left: PathView, s: Seq<char>) -> Option<(PathView, Seq<char>)>
    decreases s.len(), 5nat,
{
    if s.len() > 0 && s[0] == '|' {
        match parse_sequence(s.skip(1)) {
            Some((right, rest)) => if rest.len() < s.len() {
                alternative_tail(PathView::Alternative(Box::new(left), Box::new(right)), rest)
            } else {
                None
            },
            None => None,
        }
    } else {
        Some((left, s))
    }
}

/// Reads sequences with `|` between them.
pub open spec fn parse_alternative(s: Seq<char>) -> Option<(PathView, Seq<char>)>
    decreases s.len(), 6nat,
{
    match parse_sequence(s) {
        Some((first, rest)) => if rest.len() <= s.len() {
            alternative_tail(first, rest)
        } else {
            None
        },
        None => None,
    }
}

/// The path that the whole of `s` reads as, if it reads as one.
pub open spec fn parse_path(s: Seq<char>) -> Option<PathView> {
    match parse_alternative(s) {
        Some((p, rest)) => if rest.len() == 0 {
            Some(p)
        } else {
            None
        },
        None => None,
    }
}

/// A named node, a sequence or an alternative: a path without an operator
/// of one operand at its top.
pub open spec fn is_plain(p: PathView) -> bool {
    p is NamedNode || p is Sequence || p is Alternative
}

/// The paths that a property tree holds in full: those built from IRIs in
/// angle brackets by sequence, alternative, repetition and reverse, where
/// no repetition or reverse applies directly to the result of another. (A
/// property tree has room for one modifier at each node.)
pub open spec fn representable(p: PathView) -> bool
    decreases p,
{
    match p {
        PathView::NamedNode(n) => is_iri_ref(n),
        PathView::Sequence(a, b) => representable(*a) && representable(*b),
        PathView::Alternative(a, b) => representable(*a) && representable(*b),
        PathView::Reverse(a) => is_plain(*a) && representable(*a),
        PathView::ZeroOrMore(a) => is_plain(*a) && representable(*a),
        PathView::OneOrMore(a) => is_plain(*a) && representable(*a),
        PathView::ZeroOrOne(a) => is_plain(*a) && representable(*a),
        PathView::NegatedPropertySet(_) => false,
    }
}

/// The text of a path with every sequence and alternative in parentheses.
pub open spec fn bracketed(p: PathView) -> Seq<char>
    decreases p,
{
    match p {
        PathView::NamedNode(n) => n,
        PathView::Sequence(a, b) => seq!['('] + bracketed(*a) + seq!['/'] + bracketed(*b) + seq![
            ')',
        ],
        PathView::Alternative(a, b) => seq!['('] + bracketed(*a) + seq!['|'] + bracketed(*b)
            + seq![')'],
        PathView::Reverse(a) => seq!['^'] + bracketed(*a),
        PathView::ZeroOrMore(a) => bracketed(*a) + seq!['*'],
        PathView::OneOrMore(a) => bracketed(*a) + seq!['+'],
        PathView::ZeroOrOne(a) => bracketed(*a) + seq!['?'],
        PathView::NegatedPropertySet(_) => Seq::empty(),
    }
}

/// The texts of the marks of the path grammar.
proof fn lemma_marks()
    ensures
        "("@ == seq!['('],
        ")"@ == seq![')'],
        "^"@ == seq!['^'],
        "*"@ == seq!['*'],
        "+"@ == seq!['+'],
        "?"@ == seq!['?'],
        "/"@ == seq!['/'],
        "|"@ == seq!['|'],
{
    reveal_strlit("(");
    reveal_strlit(")");
    reveal_strlit("^");
    reveal_strlit("*");
    reveal_strlit("+");
    reveal_strlit("?");
    reveal_strlit("/");
    reveal_strlit("|");
    assert("("@ =~= seq!['(']);
    assert(")"@ =~= seq![')']);
    assert("^"@ =~= seq!['^']);
    assert("*"@ =~= seq!['*']);
    assert("+"@ =~= seq!['+']);
    assert("?"@ =~= seq!['?']);
    assert("/"@ =~= seq!['/']);
    assert("|"@ =~= seq!['|']);
}

/// The text of a tree under a modifier, where the tree has none of its
/// own, is the tree's text under that modifier.
proof fn lemma_text_of_modified(q: PropertyView, m: Modifier)
    requires
        q.modifier is None,
    ensures
        path_text(modified(q, m)) == with_modifier(path_text(q), Some(m)),
{
    assert(child_paths(modified(q, m)) =~= child_paths(q));
}

/// The text of the property tree of a representable path is the path's
/// text with every sequence and alternative in parentheses.
pub proof fn lemma_text_is_bracketed(p: PathView)
    requires
        representable(p),
    ensures
        path_text(decomposed(p)) == bracketed(p),
    decreases p,
{
    lemma_marks();
    match p {
        PathView::NamedNode(n) => {},
        PathView::Sequence(a, b) => {
            lemma_text_is_bracketed(*a);
            lemma_text_is_bracketed(*b);
            let parts = child_paths(decomposed(p));
            assert(parts =~= seq![bracketed(*a), bracketed(*b)]);
            assert(parts.drop_last() =~= seq![bracketed(*a)]);
            assert(join(parts.drop_last(), "/"@) == bracketed(*a));
            assert(join(parts, "/"@) == bracketed(*a) + "/"@ + bracketed(*b));
        },
        PathView::Alternative(a, b) => {
            lemma_text_is_bracketed(*a);
            lemma_text_is_bracketed(*b);
            let parts = child_paths(decomposed(p));
            assert(parts =~= seq![bracketed(*a), bracketed(*b)]);
            assert(parts.drop_last() =~= seq![bracketed(*a)]);
            assert(join(parts.drop_last(), "|"@) == bracketed(*a));
            assert(join(parts, "|"@) == bracketed(*a) + "|"@ + bracketed(*b));
        },
        PathView::Reverse(a) => {
            lemma_text_is_bracketed(*a);
            lemma_text_of_modified(decomposed(*a), Modifier::Reverse);
        },
        PathView::ZeroOrMore(a) => {
            lemma_text_is_bracketed(*a);
            lemma_text_of_modified(decomposed(*a), Modifier::ZeroOrMore);
        },
        PathView::OneOrMore(a) => {
            lemma_text_is_bracketed(*a);
            lemma_text_of_modified(decomposed(*a), Modifier::OneOrMore);
        },
        PathView::ZeroOrOne(a) => {
            lemma_text_is_bracketed(*a);
            lemma_text_of_modified(decomposed(*a), Modifier::ZeroOrOne);
        },
        PathView::NegatedPropertySet(_) => {},
    }
}

/// The length of the run of IRI characters at the head of `s`, once it is
/// known where the run ends.
proof fn lemma_iri_run(s: Seq<char>, k: int)
    requires
        0 <= k <= s.len(),
        forall|j: int| 0 <= j < k ==> iri_char(#[trigger] s[j]),
        k == s.len() || !iri_char(s[k]),
    ensures
        iri_length(s) == k,
    decreases k,
{
    if k > 0 {
        let t = s.drop_first();
        assert forall|j: int| 0 <= j < k - 1 implies iri_char(#[trigger] t[j]) by {
            assert(t[j] == s[j + 1]);
        }
        lemma_iri_run(t, k - 1);
    }
}

/// An IRI in angle brackets at the head of a text is read as a named
/// node, and nothing more is taken.
proof fn lemma_read_iri(n: Seq<char>, rest: Seq<char>)
    requires
        is_iri_ref(n),
    ensures
        parse_primary(n + rest) == Some((PathView::NamedNode(n), rest)),
{
    let s = n + rest;
    let body = s.skip(1);
    let k = n.len() - 2;
    assert forall|j: int| 0 <= j < k implies iri_char(#[trigger] body[j]) by {
        assert(body[j] == n[j + 1]);
    }
    assert(body[k] == n[n.len() - 1]);
    lemma_iri_run(body, k);
    assert(s[0] == '<');
    assert(s[k + 1] == '>');
    assert(s.take(k + 2) =~= n);
    assert(s.skip(k + 2) =~= rest);
}

/// The first character of the text of a plain representable path is `<`
/// or `(`.
proof fn lemma_plain_head(p: PathView)
    requires
        representable(p),
        is_plain(p),
    ensures
        bracketed(p).len() > 0,
        bracketed(p)[0] == '<' || bracketed(p)[0] == '(',
{
}

/// A plain path's text at the head of any text is read as that path by
/// `parse_primary`, and nothing more is taken.
proof fn lemma_read_primary(p: PathView, rest: Seq<char>)
    requires
        representable(p),
        is_plain(p),
    ensures
        parse_primary(bracketed(p) + rest) == Some((p, rest)),
    decreases p, 0nat,
{
    match p {
        PathView::NamedNode(n) => {
            lemma_read_iri(n, rest);
        },
        PathView::Sequence(a, b) => {
            let s = bracketed(p) + rest;
            let r2 = seq![')'] + rest;
            let r1 = seq!['/'] + bracketed(*b) + r2;
            let s1 = bracketed(*a) + r1;
            assert(s.skip(1) =~= s1);
            lemma_read_item(*a, r1);
            assert(r1.skip(1) =~= bracketed(*b) + r2);
            lemma_read_item(*b, r2);
            assert(sequence_tail(p, r2) == Some((p, r2)));
            assert(sequence_tail(*a, r1) == Some((p, r2)));
            assert(parse_sequence(s1) == Some((p, r2)));
            assert(alternative_tail(p, r2) == Some((p, r2)));
            assert(parse_alternative(s1) == Some((p, r2)));
            assert(r2.skip(1) =~= rest);
        },
        PathView::Alternative(a, b) => {
            let s = bracketed(p) + rest;
            let r2 = seq![')'] + rest;
            let r1 = seq!['|'] + bracketed(*b) + r2;
            let s1 = bracketed(*a) + r1;
            let s2 = bracketed(*b) + r2;
            assert(s.skip(1) =~= s1);
            lemma_read_item(*a, r1);
            assert(sequence_tail(*a, r1) == Some((*a, r1)));
            assert(parse_sequence(s1) == Some((*a, r1)));
            assert(r1.skip(1) =~= s2);
            lemma_read_item(*b, r2);
            assert(sequence_tail(*b, r2) == Some((*b, r2)));
            assert(parse_sequence(s2) == Some((*b, r2)));
            assert(alternative_tail(p, r2) == Some((p, r2)));
            assert(alternative_tail(*a, r1) == Some((p, r2)));
            assert(parse_alternative(s1) == Some((p, r2)));
            assert(r2.skip(1) =~= rest);
        },
        _ => {},
    }
}

/// A representable path's text, followed by the end of an operand, is
/// read as that path by `parse_elt_or_inverse`, and nothing more is taken.
proof fn lemma_read_item(p: PathView, rest: Seq<char>)
    requires
        representable(p),
        at_path_end(rest),
    ensures
        parse_elt_or_inverse(bracketed(p) + rest) == Some((p, rest)),
    decreases p, 1nat,
{
    let s = bracketed(p) + rest;
    match p {
        PathView::Reverse(a) => {
            lemma_plain_head(*a);
            assert(s.skip(1) =~= bracketed(*a) + rest);
            lemma_read_primary(*a, rest);
            assert(parse_elt(bracketed(*a) + rest) == Some((*a, rest)));
        },
        PathView::ZeroOrMore(a) => {
            lemma_plain_head(*a);
            let marked = seq!['*'] + rest;
            assert(s =~= bracketed(*a) + marked);
            lemma_read_primary(*a, marked);
            assert(marked.skip(1) =~= rest);
            assert(parse_elt(s) == Some((p, rest)));
            assert(s[0] == bracketed(*a)[0]);
        },
        PathView::OneOrMore(a) => {
            lemma_plain_head(*a);
            let marked = seq!['+'] + rest;
            assert(s =~= bracketed(*a) + marked);
            lemma_read_primary(*a, marked);
            assert(marked.skip(1) =~= rest);
            assert(parse_elt(s) == Some((p, rest)));
            assert(s[0] == bracketed(*a)[0]);
        },
        PathView::ZeroOrOne(a) => {
            lemma_plain_head(*a);
            let marked = seq!['?'] + rest;
            assert(s =~= bracketed(*a) + marked);
            lemma_read_primary(*a, marked);
            assert(marked.skip(1) =~= rest);
            assert(parse_elt(s) == Some((p, rest)));
            assert(s[0] == bracketed(*a)[0]);
        },
        PathView::NegatedPropertySet(_) => {},
        _ => {
            lemma_plain_head(p);
            lemma_read_primary(p, rest);
            assert(parse_elt(s) == Some((p, rest)));
            assert(s[0] == bracketed(p)[0]);
        },
    }
}

/// Decomposing a path into a property tree and writing the tree's text
/// loses nothing: for every path built from IRIs by sequence,
/// alternative, repetition and reverse, in which no repetition or reverse
/// applies directly to the result of another, the text reads back as the
/// path itself.
pub proof fn lemma_path_round_trip(path: PathView)
    requires
        representable(path),
    ensures
        parse_path(path_text(decomposed(path))) == Some(path),
{
    lemma_text_is_bracketed(path);
    let text = bracketed(path);
    let rest = Seq::<char>::empty();
    assert(text + rest =~= text);
    lemma_read_item(path, rest);
    assert(sequence_tail(path, rest) == Some((path, rest)));
    assert(parse_sequence(text) == Some((path, rest)));
    assert(alternative_tail(path, rest) == Some((path, rest)));
    assert(parse_alternative(text) == Some((path, rest)));
}

} // verus!
