//! The expressions of `liquid_core`, carried through as opaque values, and
//! the text that stands for them.

use vstd::prelude::*;
use liquid_core::Expression;

verus! {

#[verifier::external_type_specification]
#[verifier::external_body]
pub struct ExExpression(liquid_core::Expression);

/// The displayable form of an expression: a literal as source text, a
/// variable as its path.
pub uninterp spec fn expression_text(e: Expression) -> Seq<char>;

/// The displayable forms of `values`, in order.
pub open spec fn expression_texts(values: Seq<Expression>) -> Seq<Seq<char>> {
    values.map_values(|e: Expression| expression_text(e))
}

/// The parts of `parts` in order, with `sep` between each two neighbours.
pub open spec fn joined(parts: Seq<Seq<char>>, sep: Seq<char>) -> Seq<char>
    decreases parts.len(),
{
    if parts.len() == 0 {
        Seq::empty()
    } else if parts.len() == 1 {
        parts[0]
    } else {
        joined(parts.drop_last(), sep) + sep + parts.last()
    }
}

/// Calls `itertools::join` on the expressions: each is formatted by its
/// `Display` impl, and `sep` stands between each two neighbours.
#[verifier::external_body]
pub(crate) fn join_expressions(values: &Vec<Expression>, sep: &str) -> (text: String)
    ensures
        text@ == joined(values@.map_values(|e: Expression| expression_text(e)), sep@),
{
    itertools::join(values.iter(), sep)
}

/// Formats an expression with its `Display` impl.
#[verifier::external_body]
pub(crate) fn expression_string(value: &Expression) -> (text: String)
    ensures
        text@ == expression_text(*value),
{
    value.to_string()
}

/// The views of `parts`, in order.
pub open spec fn text_views(parts: Seq<String>) -> Seq<Seq<char>> {
    parts.map_values(|part: String| part@)
}

/// Calls `itertools::join` on texts: they follow each other with `sep`
/// between each two neighbours.
#[verifier::external_body]
pub(crate) fn join_texts(parts: &Vec<String>, sep: &str) -> (text: String)
    ensures
        text@ == joined(parts@.map_values(|part: String| part@), sep@),
{
    itertools::join(parts.iter(), sep)
}

/// Whether no part of `parts` holds the character `c`.
pub open spec fn all_free_of(parts: Seq<Seq<char>>, c: char) -> bool {
    forall|i: int| 0 <= i < parts.len() ==> !(#[trigger] parts[i]).contains(c)
}

/// A text joined of parts that do not hold the separator tells the parts:
/// two lists of such parts, neither of them empty, that join to the same
/// text are the same list.
pub proof fn lemma_joined_tells_the_parts(a: Seq<Seq<char>>, b: Seq<Seq<char>>, c: char)
    requires
        a.len() >= 1,
        b.len() >= 1,
        all_free_of(a, c),
        all_free_of(b, c),
        joined(a, seq![c]) == joined(b, seq![c]),
    ensures
        a == b,
    decreases a.len(),
{
    let sep = seq![c];
    let s = joined(a, sep);
    if a.len() == 1 && b.len() == 1 {
        assert(a =~= b);
    } else if a.len() == 1 {
        let xb = joined(b.drop_last(), sep);
        assert(s == xb + sep + b.last());
        assert(s[xb.len() as int] == c);
        assert(a[0].contains(c));
    } else if b.len() == 1 {
        let xa = joined(a.drop_last(), sep);
        assert(s == xa + sep + a.last());
        assert(s[xa.len() as int] == c);
        assert(b[0].contains(c));
    } else {
        let xa = joined(a.drop_last(), sep);
        let ya = a.last();
        let xb = joined(b.drop_last(), sep);
        let yb = b.last();
        assert(s == xa + sep + ya);
        assert(s == xb + sep + yb);
        assert(s.len() == xa.len() + 1 + ya.len());
        assert(s.len() == xb.len() + 1 + yb.len());
        if ya.len() < yb.len() {
            let p = xa.len() as int;
            assert(s[p] == c);
            assert(s[p] == yb[p - xb.len() - 1]);
            assert(yb.contains(c));
        } else if yb.len() < ya.len() {
            let p = xb.len() as int;
            assert(s[p] == c);
            assert(s[p] == ya[p - xa.len() - 1]);
            assert(ya.contains(c));
        }
        assert(ya.len() == yb.len());
        assert(ya =~= yb) by {
            assert forall|i: int| 0 <= i < ya.len() implies ya[i] == yb[i] by {
                assert(s[xa.len() + 1 + i] == ya[i]);
                assert(s[xb.len() + 1 + i] == yb[i]);
            }
        }
        assert(xa =~= xb) by {
            assert forall|i: int| 0 <= i < xa.len() implies xa[i] == xb[i] by {
                assert(s[i] == xa[i]);
                assert(s[i] == xb[i]);
            }
        }
        assert(all_free_of(a.drop_last(), c)) by {
            assert forall|i: int| 0 <= i < a.drop_last().len() implies !(
            #[trigger] a.drop_last()[i]).contains(c) by {
                assert(a.drop_last()[i] == a[i]);
            }
        }
        assert(all_free_of(b.drop_last(), c)) by {
            assert forall|i: int| 0 <= i < b.drop_last().len() implies !(
            #[trigger] b.drop_last()[i]).contains(c) by {
                assert(b.drop_last()[i] == b[i]);
            }
        }
        lemma_joined_tells_the_parts(a.drop_last(), b.drop_last(), c);
        assert(a =~= a.drop_last().push(ya));
        assert(b =~= b.drop_last().push(yb));
    }
}

} // verus!
