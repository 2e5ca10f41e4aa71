//! Properties that hold across the operations of the library.
use vstd::prelude::*;

use crate::allowed::{spec_combine, spec_is_allowed, spec_is_empty, NamesView};
use crate::document::{spec_parse_document, spec_parse_nodes};
use crate::lexer::{
    first_from, is_ident_char, lemma_find2, lemma_first_from, lemma_skip_space, skip_space, starts2,
    stops_at, Stop,
};
use crate::attributes::{spec_parse_attributes, str_literal, FieldAttributesView, HandelingView};
use crate::case::{char_is_uppercase, char_lowercase, spec_pascal_to_kebab};
use crate::derive::{default_code, spec_gen_constructor, FieldsView, NamedFieldView};
use crate::error::ConfigErrorView;
use crate::impls::{conversion_message, int_outcome};
use crate::number::{digits_end, exponent_ok, float_literal_ok, is_decimal_digit};
use crate::node::{
    args_agree, children_agree, first_prop, first_prop_from, lemma_first_present_prop,
    lemma_present_nodes_empty, prop_named,
    props_within, spec_eq_no_span, spec_terminate_error, NodeView, PropView,
};
use crate::parse_node::{spec_parse_attrs, spec_parse_children, spec_parse_node, spec_parse_property};
use crate::parse_value::{spec_parse_ident_string, spec_parse_value};
use crate::source::bspan;
use crate::span::{Span, Spanned};
use crate::value::ValueView;

verus! {

// ----- allowed node names -----

/// Combined node names allow a name exactly when one of the two parts allows it.
pub proof fn law_combine_allows(a: NamesView, b: NamesView, name: Seq<char>)
    ensures
        spec_is_allowed(spec_combine(a, b), name) <==> (spec_is_allowed(a, name) || spec_is_allowed(
            b,
            name,
        )),
{
    match (a, b) {
        (NamesView::Names(x), NamesView::Names(y)) => {
            if (x + y).contains(name) {
                let k = choose|k: int| 0 <= k < (x + y).len() && (x + y)[k] == name;
                if k < x.len() {
                    assert(x[k] == name);
                } else {
                    assert(y[k - x.len()] == name);
                }
            }
            if x.contains(name) {
                let k = choose|k: int| 0 <= k < x.len() && x[k] == name;
                assert((x + y)[k] == name);
            }
            if y.contains(name) {
                let k = choose|k: int| 0 <= k < y.len() && y[k] == name;
                assert((x + y)[x.len() + k] == name);
            }
        },
        _ => {},
    }
}

/// Combined node names allow no name exactly when neither part allows one.
pub proof fn law_combine_empty(a: NamesView, b: NamesView)
    ensures
        spec_is_empty(spec_combine(a, b)) <==> (spec_is_empty(a) && spec_is_empty(b)),
{
}

/// Node names are empty exactly when they allow no name at all.
pub proof fn law_empty_allows_nothing(a: NamesView)
    ensures
        spec_is_empty(a) <==> forall|name: Seq<char>| !#[trigger] spec_is_allowed(a, name),
{
    match a {
        NamesView::Any => {
            assert(spec_is_allowed(a, Seq::empty()));
        },
        NamesView::Names(ns) => {
            if ns.len() > 0 {
                assert(ns.contains(ns[0]));
                assert(spec_is_allowed(a, ns[0]));
            }
        },
    }
}

/// The names made from a single name allow exactly that name.
pub proof fn law_single_allows(single: Seq<char>, name: Seq<char>)
    ensures
        spec_is_allowed(NamesView::Names(seq![single]), name) <==> name == single,
{
    if name == single {
        assert(seq![single][0] == name);
    }
}

// ----- nodes -----

/// Proof that the first property named `name` at or after `k` is the one at the
/// end when no earlier property from `k` on has that name.
proof fn lemma_first_prop_pushed(ps: Seq<Option<PropView>>, x: Option<PropView>, name: Seq<char>, k: int)
    requires
        0 <= k <= ps.len(),
        prop_named(x, name),
        forall|j: int| k <= j < ps.len() ==> !prop_named(#[trigger] ps[j], name),
    ensures
        first_prop_from(ps.push(x), name, k) == Some(ps.len() as int),
    decreases ps.len() - k,
{
    if k < ps.len() {
        assert(ps.push(x)[k] == ps[k]);
        lemma_first_prop_pushed(ps, x, name, k + 1);
    }
}

/// A property added with `with_prop` is the one `consume_optional_property`
/// finds for its name, unless a property of that name is still there.
pub proof fn law_with_prop_read_back(v: NodeView, name: Seq<char>, value: ValueView)
    requires
        first_prop(v.properties, name) is None,
    ensures
        ({
            let added = Some((name, Spanned { span: Span { start: 0, end: 0 }, inner: value }));
            let w = NodeView { properties: v.properties.push(added), ..v };
            &&& first_prop(w.properties, name) == Some(v.properties.len() as int)
            &&& w.properties[v.properties.len() as int] == added
        }),
{
    let added = Some((name, Spanned { span: Span { start: 0, end: 0 }, inner: value }));
    crate::node::lemma_first_prop_from(v.properties, name, 0);
    lemma_first_prop_pushed(v.properties, added, name, 0);
}

/// The argument added last with `with_arg` is the one `consume_optional_argument`
/// takes, and taking it leaves the arguments there were before.
pub proof fn law_with_arg_read_back(v: NodeView, value: ValueView)
    ensures
        ({
            let added = Spanned { span: Span { start: 0, end: 0 }, inner: value };
            &&& v.arguments.push(added).last() == added
            &&& v.arguments.push(added).drop_last() == v.arguments
        }),
{
    let added = Spanned { span: Span { start: 0, end: 0 }, inner: value };
    assert(v.arguments.push(added).drop_last() =~= v.arguments);
}

/// Terminating a node succeeds exactly when all its arguments, properties
/// and children have been consumed.
pub proof fn law_terminate_ok_iff_consumed(v: NodeView)
    ensures
        spec_terminate_error(v) is None <==> (v.arguments.len() == 0 && (forall|i: int|
            0 <= i < v.children.len() ==> #[trigger] v.children[i] is None) && forall|i: int|
            0 <= i < v.properties.len() ==> #[trigger] v.properties[i] is None),
{
    lemma_present_nodes_empty(v.children);
    lemma_first_present_prop(v.properties, 0);
}

// ----- whitespace and comments -----

/// Proof that scanning again from where a scan stopped does not move.
proof fn lemma_first_from_stays(s: Seq<char>, i: int, stop: Stop)
    requires
        0 <= i <= s.len(),
    ensures
        first_from(s, first_from(s, i, stop), stop) == first_from(s, i, stop),
{
    lemma_first_from(s, i, stop);
}

/// Skipping whitespace and comments a second time does not move the position.
pub proof fn law_skip_space_idempotent(s: Seq<char>, i: int, newlines: bool)
    requires
        0 <= i <= s.len(),
    ensures
        skip_space(s, skip_space(s, i, newlines), newlines) == skip_space(s, i, newlines),
    decreases s.len() - i,
{
    let stop = if newlines {
        Stop::NonWhitespace
    } else {
        Stop::NonWhitespaceOrNewline
    };
    let j = first_from(s, i, stop);
    lemma_first_from(s, i, stop);
    lemma_first_from_stays(s, i, stop);
    if starts2(s, j, '/', '*') {
        lemma_find2(s, j + 2, '*', '/');
        match find2_of(s, j) {
            Some(m) => law_skip_space_idempotent(s, m + 2, newlines),
            None => law_skip_space_idempotent(s, j + 2, newlines),
        }
    } else if starts2(s, j, '/', '/') {
        lemma_first_from(s, j + 2, Stop::Newline);
        let k = first_from(s, j + 2, Stop::Newline);
        if newlines {
            law_skip_space_idempotent(s, k, newlines);
        } else {
            lemma_first_from(s, k, stop);
            if k < s.len() {
                assert(stops_at(stop, s[k]));
                assert(first_from(s, k, stop) == k);
            }
        }
    }
}

/// What skipping whitespace (line feeds too when `newlines`) stops at.
pub open spec fn space_stop(newlines: bool) -> Stop {
    if newlines {
        Stop::NonWhitespace
    } else {
        Stop::NonWhitespaceOrNewline
    }
}

/// Skipping whitespace and comments moves forward and stops at the end of the
/// text or at a character that is neither skipped whitespace nor the start of
/// a comment.
pub proof fn law_skip_space_stops(s: Seq<char>, i: int, newlines: bool)
    requires
        0 <= i <= s.len(),
    ensures
        ({
            let r = skip_space(s, i, newlines);
            &&& i <= r <= s.len()
            &&& r == s.len() || (stops_at(space_stop(newlines), s[r]) && !starts2(s, r, '/', '*')
                && !starts2(s, r, '/', '/'))
        }),
    decreases s.len() - i,
{
    let stop = space_stop(newlines);
    let j = first_from(s, i, stop);
    lemma_first_from(s, i, stop);
    lemma_skip_space(s, i, newlines);
    if starts2(s, j, '/', '*') {
        lemma_find2(s, j + 2, '*', '/');
        match find2_of(s, j) {
            Some(m) => law_skip_space_stops(s, m + 2, newlines),
            None => law_skip_space_stops(s, j + 2, newlines),
        }
    } else if starts2(s, j, '/', '/') {
        lemma_first_from(s, j + 2, Stop::Newline);
        let k = first_from(s, j + 2, Stop::Newline);
        if newlines {
            law_skip_space_stops(s, k, newlines);
        }
    }
}

/// Where the block comment opened at `j` closes.
spec fn find2_of(s: Seq<char>, j: int) -> Option<int> {
    crate::lexer::find2(s, j + 2, '*', '/')
}

// ----- parsing -----

/// Every property of `ps` is there.
pub open spec fn props_present(ps: Seq<Option<PropView>>) -> bool {
    forall|k: int| 0 <= k < ps.len() ==> (#[trigger] ps[k]) is Some
}

/// `name` is a non-empty identifier of the text `s`: it holds no whitespace
/// or punctuation, and it is the characters of `s` that its span covers.
pub open spec fn name_from(s: Seq<char>, name: Spanned<Seq<char>>) -> bool {
    &&& name.inner.len() > 0
    &&& forall|k: int|
        0 <= k < name.inner.len() ==> !stops_at(Stop::WhitespaceOrPunct, #[trigger] name.inner[k])
    &&& exists|p: int|
        0 <= p && p + name.inner.len() <= s.len() && name.inner == #[trigger] s.subrange(
            p,
            p + name.inner.len(),
        ) && name.span == bspan(s, p, p + name.inner.len())
}

/// A node as parsing makes it of the text `s`: its name is an identifier of
/// `s`, all its arguments are there and counted, all its properties and
/// children are there, and so are those of its children, all the way down.
pub open spec fn complete_node(s: Seq<char>, n: NodeView) -> bool
    decreases n, 0int,
{
    &&& name_from(s, n.name)
    &&& n.argument_count == n.arguments.len()
    &&& props_present(n.properties)
    &&& complete_children(s, n.children, n.children.len() as int)
}

/// The first `k` children of `cs` are there and complete.
pub open spec fn complete_children(s: Seq<char>, cs: Seq<Option<NodeView>>, k: int) -> bool
    decreases cs, k,
{
    if k <= 0 {
        true
    } else if k > cs.len() {
        false
    } else {
        complete_children(s, cs, k - 1) && match cs[k - 1] {
            Some(c) => complete_node(s, c),
            None => false,
        }
    }
}

/// Proof that adding a child leaves the completeness of the first `k` unchanged.
proof fn lemma_complete_children_push(s: Seq<char>, cs: Seq<Option<NodeView>>, x: Option<NodeView>, k: int)
    requires
        0 <= k <= cs.len(),
    ensures
        complete_children(s, cs.push(x), k) == complete_children(s, cs, k),
    decreases k,
{
    if k > 0 {
        assert(cs.push(x)[k - 1] == cs[k - 1]);
        lemma_complete_children_push(s, cs, x, k - 1);
    }
}

/// Proof that the properties read while parsing the arguments and properties
/// of a node are all there.
proof fn lemma_attrs_present(
    s: Seq<char>,
    pos: int,
    args: Seq<Spanned<ValueView>>,
    props: Seq<Option<PropView>>,
    argmode: bool,
)
    requires
        props_present(props),
    ensures
        spec_parse_attrs(s, pos, args, props, argmode) matches Ok((_, ps, _)) ==> props_present(ps),
    decreases s.len() - pos,
{
    if 0 <= pos <= s.len() {
        let p = skip_space(s, pos, false);
        if !(p >= s.len() || s[p] == '{' || s[p] == '}' || s[p] == '\n') {
            match spec_parse_property(s, p) {
                Ok((Some(prop), p2)) => if pos < p2 <= s.len() {
                    assert(props_present(props.push(Some(prop)))) by {
                        assert forall|k: int| 0 <= k < props.push(Some(prop)).len() implies (
                        #[trigger] props.push(Some(prop))[k]) is Some by {
                            if k < props.len() {
                                assert(props.push(Some(prop))[k] == props[k]);
                            }
                        }
                    }
                    lemma_attrs_present(s, p2, args, props.push(Some(prop)), false);
                },
                Ok((None, _)) => match spec_parse_value(s, p) {
                    Ok((Some(v), p2)) => if argmode && pos < p2 <= s.len() {
                        lemma_attrs_present(s, p2, args.push(v), props, true);
                    },
                    _ => {},
                },
                _ => {},
            }
        }
    }
}

/// Proof that a node read by [`spec_parse_node`] is complete.
proof fn lemma_node_complete(s: Seq<char>, pos: int)
    ensures
        spec_parse_node(s, pos) matches Ok((Some(n), _)) ==> complete_node(s, n),
    decreases s.len() - pos, 0int,
{
    if 0 <= pos <= s.len() {
        let p = skip_space(s, pos, true);
        let j = crate::lexer::ident_end(s, p);
        lemma_skip_space(s, pos, true);
        lemma_first_from(s, p, Stop::WhitespaceOrPunct);
        if j > p {
            let name = Spanned { span: bspan(s, p, j), inner: s.subrange(p, j) };
            assert(name_from(s, name)) by {
                assert forall|k: int| 0 <= k < name.inner.len() implies !stops_at(
                    Stop::WhitespaceOrPunct,
                    #[trigger] name.inner[k],
                ) by {
                    assert(name.inner[k] == s[p + k]);
                }
                assert(p + name.inner.len() == j);
                assert(name.inner == s.subrange(p, p + name.inner.len()));
            }
            lemma_attrs_present(s, j, Seq::empty(), Seq::empty(), true);
            crate::parse_node::lemma_parse_attrs_pos(s, j, Seq::empty(), Seq::empty(), true);
            match spec_parse_attrs(s, j, Seq::empty(), Seq::empty(), true) {
                Ok((args, props, q)) => {
                    lemma_skip_space(s, q, false);
                    let q2 = skip_space(s, q, false);
                    if q2 < s.len() && s[q2] == '{' {
                        lemma_children_complete(
                            s,
                            q2 + 1,
                            crate::source::bspan(s, q2, q2 + 1),
                            Seq::empty(),
                        );
                    }
                },
                Err(_) => {},
            }
        }
    }
}

/// Proof that the children read by [`spec_parse_children`] after complete
/// children `acc` are all there and complete.
proof fn lemma_children_complete(s: Seq<char>, pos: int, opening: Span, acc: Seq<Option<NodeView>>)
    requires
        complete_children(s, acc, acc.len() as int),
    ensures
        spec_parse_children(s, pos, opening, acc) matches Ok((cs, _)) ==> complete_children(
            s,
            cs,
            cs.len() as int,
        ),
    decreases s.len() - pos, 1int,
{
    if 0 <= pos <= s.len() {
        let p = skip_space(s, pos, true);
        lemma_skip_space(s, pos, true);
        if p < s.len() && s[p] != '}' {
            lemma_node_complete(s, p);
            match spec_parse_node(s, p) {
                Ok((Some(n), p2)) => if pos < p2 <= s.len() {
                    let next = acc.push(Some(n));
                    lemma_complete_children_push(s, acc, Some(n), acc.len() as int);
                    assert(next[acc.len() as int] == Some(n));
                    lemma_children_complete(s, p2, opening, next);
                },
                _ => {},
            }
        }
    }
}

/// Every node that parsing reads is complete: its name is a non-empty
/// identifier without whitespace or punctuation, equal to the characters of
/// the text its span covers; all its arguments are there and counted, and all
/// its properties and children are there, all the way down.
pub proof fn law_parsed_node_complete(s: Seq<char>, pos: int)
    ensures
        spec_parse_node(s, pos) matches Ok((Some(n), _)) ==> complete_node(s, n),
{
    lemma_node_complete(s, pos);
}

/// Proof that the nodes read by [`spec_parse_nodes`] after complete nodes
/// `acc` are all there and complete.
proof fn lemma_nodes_complete(s: Seq<char>, pos: int, acc: Seq<Option<NodeView>>)
    requires
        complete_children(s, acc, acc.len() as int),
    ensures
        spec_parse_nodes(s, pos, acc) matches Ok(cs) ==> complete_children(s, cs, cs.len() as int),
    decreases s.len() - pos,
{
    if 0 <= pos < s.len() {
        lemma_node_complete(s, pos);
        match spec_parse_node(s, pos) {
            Ok((Some(n), p2)) => {
                let next = acc.push(Some(n));
                lemma_complete_children_push(s, acc, Some(n), acc.len() as int);
                assert(next[acc.len() as int] == Some(n));
                let p3 = skip_space(s, p2, true);
                if pos < p3 <= s.len() {
                    lemma_nodes_complete(s, p3, next);
                }
            },
            _ => {},
        }
    }
}

/// Every node of a parsed document is there and complete (see
/// [`law_parsed_node_complete`]).
pub proof fn law_parsed_document_complete(s: Seq<char>, start: int)
    ensures
        spec_parse_document(s, start) matches Ok(nodes) ==> complete_children(s, nodes, nodes.len() as int),
{
    lemma_nodes_complete(s, skip_space(s, start, true), Seq::empty());
}

/// An unquoted string holds only the lower case ASCII letters, `_` and `-`.
pub proof fn law_ident_string_chars(s: Seq<char>, i: int)
    requires
        0 <= i <= s.len(),
    ensures
        spec_parse_ident_string(s, i) matches Ok((Some(v), _)) ==> (v.inner matches ValueView::String(
            t,
        ) && forall|k: int| 0 <= k < t.len() ==> is_ident_char(#[trigger] t[k])),
{
    lemma_first_from(s, i, Stop::Whitespace);
    lemma_first_from(s, i, Stop::NonIdentChar);
    let j = first_from(s, i, Stop::Whitespace);
    let k = first_from(s, i, Stop::NonIdentChar);
    if j > i && k >= j {
        let t = s.subrange(i, j);
        assert forall|m: int| 0 <= m < t.len() implies is_ident_char(#[trigger] t[m]) by {
            assert(t[m] == s[i + m]);
            assert(!stops_at(Stop::NonIdentChar, s[i + m]));
        }
    }
}

// ----- comparison without spans -----

/// Each property still in `ps` is the first of its name still there.
pub open spec fn props_first_of_name(ps: Seq<Option<PropView>>) -> bool {
    forall|k: int|
        0 <= k < ps.len() && (#[trigger] ps[k]) is Some ==> first_prop(ps, ps[k]->Some_0.0) == Some(k)
}

/// No two properties still in the node share a name, in the node and in all
/// the children still there, all the way down.
pub open spec fn names_unique(n: NodeView) -> bool
    decreases n, 0int,
{
    &&& props_first_of_name(n.properties)
    &&& children_names_unique(n.children, n.children.len() as int)
}

/// [`names_unique`] holds of the children among the first `k` of `cs` that are
/// still there.
pub open spec fn children_names_unique(cs: Seq<Option<NodeView>>, k: int) -> bool
    decreases cs, k,
{
    if k <= 0 {
        true
    } else if k > cs.len() {
        false
    } else {
        children_names_unique(cs, k - 1) && match cs[k - 1] {
            Some(c) => names_unique(c),
            None => true,
        }
    }
}

/// Proof that [`children_names_unique`] of a prefix holds of each child in it.
proof fn lemma_children_names_unique(cs: Seq<Option<NodeView>>, k: int, i: int)
    requires
        children_names_unique(cs, k),
        0 <= i < k,
    ensures
        cs[i] matches Some(c) ==> names_unique(c),
    decreases k,
{
    if i < k - 1 {
        lemma_children_names_unique(cs, k - 1, i);
    }
}

/// Proof that a node equals itself disregarding spans.
proof fn lemma_eq_no_span_refl(n: NodeView)
    requires
        names_unique(n),
    ensures
        spec_eq_no_span(n, n),
    decreases n, 0int,
{
    assert(props_within(n.properties, n.properties));
    assert(args_agree(n.arguments, n.arguments));
    lemma_children_agree_refl(n.children, 0);
}

/// Proof that children that are gone make no difference to the comparison of
/// children with themselves.
proof fn lemma_children_agree_skip(cs: Seq<Option<NodeView>>, a: int, b: int)
    requires
        0 <= b <= a,
        forall|k: int| b <= k < a ==> (#[trigger] cs[k]) is None,
    ensures
        children_agree(cs, a, cs, b) == children_agree(cs, a, cs, a),
    decreases cs.len() - a, a - b,
{
    if a < cs.len() {
        if cs[a] is None {
            lemma_children_agree_skip(cs, a + 1, b);
            lemma_children_agree_skip(cs, a + 1, a);
        } else if b < a {
            lemma_children_agree_skip(cs, a, b + 1);
        }
    }
}

/// Proof that children agree with themselves from `i` on.
proof fn lemma_children_agree_refl(cs: Seq<Option<NodeView>>, i: int)
    requires
        0 <= i,
        children_names_unique(cs, cs.len() as int),
    ensures
        children_agree(cs, i, cs, i),
    decreases cs, cs.len() - i, 1int,
{
    if i < cs.len() {
        lemma_children_agree_refl(cs, i + 1);
        match cs[i] {
            Some(c) => {
                lemma_children_names_unique(cs, cs.len() as int, i);
                lemma_eq_no_span_refl(c);
            },
            None => {
                lemma_children_agree_skip(cs, i + 1, i);
            },
        }
    }
}

/// A node equals itself disregarding spans when no two of its properties
/// still there share a name, all the way down.
pub proof fn law_eq_no_span_reflexive(n: NodeView)
    requires
        names_unique(n),
    ensures
        spec_eq_no_span(n, n),
{
    lemma_eq_no_span_refl(n);
}

/// Two properties lists that differ at most in spans: the same slots are
/// there, with the same names and values.
pub open spec fn props_same_but_spans(a: Seq<Option<PropView>>, b: Seq<Option<PropView>>) -> bool {
    &&& a.len() == b.len()
    &&& forall|k: int|
        0 <= k < a.len() ==> match (#[trigger] a[k], b[k]) {
            (Some((n1, v1)), Some((n2, v2))) => n1 == n2 && v1.inner == v2.inner,
            (None, None) => true,
            _ => false,
        }
}

/// Two nodes that differ at most in spans, all the way down.
pub open spec fn same_but_spans(a: NodeView, b: NodeView) -> bool
    decreases a, 0int,
{
    &&& a.name.inner == b.name.inner
    &&& a.arguments.len() == b.arguments.len()
    &&& forall|k: int|
        0 <= k < a.arguments.len() ==> (#[trigger] a.arguments[k]).inner == b.arguments[k].inner
    &&& a.argument_count == b.argument_count
    &&& props_same_but_spans(a.properties, b.properties)
    &&& a.children.len() == b.children.len()
    &&& children_same_but_spans(a.children, b.children, a.children.len() as int)
}

/// The first `k` children of `a` and `b` differ at most in spans.
pub open spec fn children_same_but_spans(a: Seq<Option<NodeView>>, b: Seq<Option<NodeView>>, k: int) -> bool
    decreases a, k,
{
    if k <= 0 {
        true
    } else if k > a.len() || k > b.len() {
        false
    } else {
        children_same_but_spans(a, b, k - 1) && match (a[k - 1], b[k - 1]) {
            (Some(x), Some(y)) => same_but_spans(x, y),
            (None, None) => true,
            _ => false,
        }
    }
}

/// Proof that [`children_same_but_spans`] of a prefix holds at each index in it.
proof fn lemma_children_same_at(a: Seq<Option<NodeView>>, b: Seq<Option<NodeView>>, k: int, i: int)
    requires
        children_same_but_spans(a, b, k),
        0 <= i < k,
    ensures
        i < a.len() && i < b.len(),
        match (a[i], b[i]) {
            (Some(x), Some(y)) => same_but_spans(x, y),
            (None, None) => true,
            _ => false,
        },
    decreases k,
{
    if i < k - 1 {
        lemma_children_same_at(a, b, k - 1, i);
    }
}

/// Proof that looking a property up by name sees no spans.
proof fn lemma_first_prop_same(a: Seq<Option<PropView>>, b: Seq<Option<PropView>>, name: Seq<char>, k: int)
    requires
        props_same_but_spans(a, b),
        0 <= k,
    ensures
        first_prop_from(a, name, k) == first_prop_from(b, name, k),
    decreases a.len() - k,
{
    if k < a.len() {
        assert(prop_named(a[k], name) == prop_named(b[k], name));
        lemma_first_prop_same(a, b, name, k + 1);
    }
}

/// Proof that [`props_within`] sees no spans.
proof fn lemma_props_within_same(
    a: Seq<Option<PropView>>,
    b: Seq<Option<PropView>>,
    a2: Seq<Option<PropView>>,
    b2: Seq<Option<PropView>>,
)
    requires
        props_same_but_spans(a, a2),
        props_same_but_spans(b, b2),
    ensures
        props_within(a, b) == props_within(a2, b2),
{
    assert forall|k: int| 0 <= k < a.len() && (#[trigger] a[k]) is Some implies within_at_agrees(a, b, a2, b2, k) by {
        let n = a[k]->Some_0.0;
        assert(a2[k] is Some && a2[k]->Some_0.0 == n && a2[k]->Some_0.1.inner == a[k]->Some_0.1.inner);
        lemma_first_prop_same(b, b2, n, 0);
        crate::node::lemma_first_prop_from(b, n, 0);
        match first_prop(b, n) {
            Some(i) => {
                assert(b[i] is Some);
                assert(b2[i] is Some && b2[i]->Some_0.1.inner == b[i]->Some_0.1.inner);
            },
            None => {},
        }
    }
    if props_within(a, b) {
        assert forall|k: int| 0 <= k < a2.len() && (#[trigger] a2[k]) is Some implies match first_prop(
            b2,
            a2[k]->Some_0.0,
        ) {
            Some(i) => b2[i]->Some_0.1.inner == a2[k]->Some_0.1.inner,
            None => false,
        } by {
            assert(a[k] is Some);
            assert(within_at_agrees(a, b, a2, b2, k));
        }
    }
    if props_within(a2, b2) {
        assert forall|k: int| 0 <= k < a.len() && (#[trigger] a[k]) is Some implies match first_prop(
            b,
            a[k]->Some_0.0,
        ) {
            Some(i) => b[i]->Some_0.1.inner == a[k]->Some_0.1.inner,
            None => false,
        } by {
            assert(a2[k] is Some);
            assert(within_at_agrees(a, b, a2, b2, k));
        }
    }
}

/// At the `k`th property, the check of [`props_within`] gives the same answer
/// for `a`, `b` as for `a2`, `b2`.
spec fn within_at_agrees(
    a: Seq<Option<PropView>>,
    b: Seq<Option<PropView>>,
    a2: Seq<Option<PropView>>,
    b2: Seq<Option<PropView>>,
    k: int,
) -> bool {
    (match first_prop(b, a[k]->Some_0.0) {
        Some(i) => b[i]->Some_0.1.inner == a[k]->Some_0.1.inner,
        None => false,
    }) == (match first_prop(b2, a2[k]->Some_0.0) {
        Some(i) => b2[i]->Some_0.1.inner == a2[k]->Some_0.1.inner,
        None => false,
    })
}

/// Proof that the comparison of nodes sees no spans.
proof fn lemma_eq_no_span_same(a: NodeView, b: NodeView, a2: NodeView, b2: NodeView)
    requires
        same_but_spans(a, a2),
        same_but_spans(b, b2),
    ensures
        spec_eq_no_span(a, b) == spec_eq_no_span(a2, b2),
    decreases a, 0int,
{
    lemma_props_within_same(a.properties, b.properties, a2.properties, b2.properties);
    assert(args_agree(a.arguments, b.arguments) == args_agree(a2.arguments, b2.arguments)) by {
        if args_agree(a.arguments, b.arguments) {
            assert forall|k: int| 0 <= k < a2.arguments.len() && k < b2.arguments.len() implies (
            #[trigger] a2.arguments[k]).inner == b2.arguments[k].inner by {
                assert(a.arguments[k].inner == b.arguments[k].inner);
            }
        }
        if args_agree(a2.arguments, b2.arguments) {
            assert forall|k: int| 0 <= k < a.arguments.len() && k < b.arguments.len() implies (
            #[trigger] a.arguments[k]).inner == b.arguments[k].inner by {
                assert(a2.arguments[k].inner == b2.arguments[k].inner);
            }
        }
    }
    lemma_children_agree_same(a.children, 0, b.children, 0, a2.children, b2.children);
}

/// Proof that the comparison of children sees no spans.
proof fn lemma_children_agree_same(
    ac: Seq<Option<NodeView>>,
    i: int,
    bc: Seq<Option<NodeView>>,
    j: int,
    ac2: Seq<Option<NodeView>>,
    bc2: Seq<Option<NodeView>>,
)
    requires
        ac.len() == ac2.len(),
        bc.len() == bc2.len(),
        children_same_but_spans(ac, ac2, ac.len() as int),
        children_same_but_spans(bc, bc2, bc.len() as int),
    ensures
        children_agree(ac, i, bc, j) == children_agree(ac2, i, bc2, j),
    decreases ac, (ac.len() - i) + (bc.len() - j), 1int,
{
    if 0 <= i < ac.len() && 0 <= j < bc.len() {
        lemma_children_same_at(ac, ac2, ac.len() as int, i);
        lemma_children_same_at(bc, bc2, bc.len() as int, j);
        if ac[i] is None {
            lemma_children_agree_same(ac, i + 1, bc, j, ac2, bc2);
        } else if bc[j] is None {
            lemma_children_agree_same(ac, i, bc, j + 1, ac2, bc2);
        } else {
            lemma_eq_no_span_same(ac[i]->Some_0, bc[j]->Some_0, ac2[i]->Some_0, bc2[j]->Some_0);
            lemma_children_agree_same(ac, i + 1, bc, j + 1, ac2, bc2);
        }
    }
}

/// Comparing nodes without spans never looks at a span: nodes that differ
/// from `a` and `b` only in spans compare as `a` and `b` do.
pub proof fn law_eq_no_span_ignores_spans(a: NodeView, b: NodeView, a2: NodeView, b2: NodeView)
    requires
        same_but_spans(a, a2),
        same_but_spans(b, b2),
    ensures
        spec_eq_no_span(a, b) == spec_eq_no_span(a2, b2),
{
    lemma_eq_no_span_same(a, b, a2, b2);
}

// ----- node names from type names -----

/// A name without upper case characters is its own kebab-case form.
pub proof fn law_kebab_lower_unchanged(s: Seq<char>)
    requires
        forall|k: int| 0 <= k < s.len() ==> !char_is_uppercase(#[trigger] s[k]),
    ensures
        spec_pascal_to_kebab(s) == s,
    decreases s.len(),
{
    if s.len() > 0 {
        let t = s.drop_last();
        assert forall|k: int| 0 <= k < t.len() implies !char_is_uppercase(#[trigger] t[k]) by {
            assert(t[k] == s[k]);
        }
        law_kebab_lower_unchanged(t);
        assert(!char_is_uppercase(s[s.len() - 1]));
        assert(t.push(s.last()) =~= s);
    }
}

/// A character after the first that is upper case becomes `-` followed by its
/// lower case mapping.
pub proof fn law_kebab_upper_gets_dash(s: Seq<char>, c: char)
    requires
        s.len() > 0,
        char_is_uppercase(c),
    ensures
        spec_pascal_to_kebab(s.push(c)) == spec_pascal_to_kebab(s) + seq!['-'] + char_lowercase(c),
{
    assert(s.push(c).drop_last() =~= s);
    assert(seq!['-'] + char_lowercase(c) =~= seq!['-'].add(char_lowercase(c)));
    assert(spec_pascal_to_kebab(s) + (seq!['-'] + char_lowercase(c)) =~= spec_pascal_to_kebab(s)
        + seq!['-'] + char_lowercase(c));
}

/// An upper case first character becomes its lower case mapping, with no `-`.
pub proof fn law_kebab_first_upper(c: char)
    requires
        char_is_uppercase(c),
    ensures
        spec_pascal_to_kebab(seq![c]) == char_lowercase(c),
{
    assert(seq![c].drop_last() =~= Seq::<char>::empty());
    reveal_with_fuel(spec_pascal_to_kebab, 2);
    assert(Seq::<char>::empty() + char_lowercase(c) =~= char_lowercase(c));
}

/// A character that is not upper case is kept as it is.
pub proof fn law_kebab_other_kept(s: Seq<char>, c: char)
    requires
        !char_is_uppercase(c),
    ensures
        spec_pascal_to_kebab(s.push(c)) == spec_pascal_to_kebab(s).push(c),
{
    assert(s.push(c).drop_last() =~= s);
    assert(spec_pascal_to_kebab(s) + seq![c] =~= spec_pascal_to_kebab(s).push(c));
}

// ----- comparing nodes -----

/// Nodes with different names never compare equal.
pub proof fn law_eq_no_span_same_name(a: NodeView, b: NodeView)
    requires
        spec_eq_no_span(a, b),
    ensures
        a.name.inner == b.name.inner,
{
}

// ----- integers read into integer types -----

/// An integer is read into a type whose values range from `min` to `max`
/// (both included) exactly when it lies in that range, and is then read
/// unchanged; outside it the conversion error comes.
pub proof fn law_int_read_iff_in_range(v: Spanned<ValueView>, ty: Seq<char>, min: int, max: int, i: i64)
    requires
        v.inner == ValueView::Int(i),
    ensures
        min <= i <= max ==> int_outcome(v, ty, min, max) == Ok::<int, ConfigErrorView>(i as int),
        !(min <= i <= max) ==> int_outcome(v, ty, min, max) == Err::<int, ConfigErrorView>(
            ConfigErrorView::Message { span: v.span, message: conversion_message(ty) },
        ),
{
}

/// The bounds of an integer type are read: `0` into every unsigned type and
/// the least value into every signed type.
pub proof fn law_int_bounds_read(v: Spanned<ValueView>, ty: Seq<char>, min: int, max: int)
    requires
        min <= max,
        v.inner == ValueView::Int(min as i64) || v.inner == ValueView::Int(max as i64),
        i64::MIN <= min,
        max <= i64::MAX,
    ensures
        int_outcome(v, ty, min, max) is Ok,
{
}

// ----- derived code -----

/// The code that a single field read as a property gives: a field given
/// `property("n")` reads the property `n`, whatever the field is called.
pub proof fn law_renamed_property_reads_its_name(f: NamedFieldView, a: FieldAttributesView, n: Seq<char>)
    requires
        spec_parse_attributes(f.attrs) == Ok::<FieldAttributesView, crate::attributes::AttrErrorView>(a),
        a.handeling == HandelingView::Property(Some(n)),
    ensures
        spec_gen_constructor(FieldsView::Named(seq![f])) == Ok::<Seq<char>, crate::derive::DeriveErrorView>(
            "{ "@ + f.ident + ": "@ + "node.consume_optional_property_into::<"@ + f.ty + ">("@ + str_literal(n)
                + ")?.ok_or(config_parser::ConfigError::expected_property(node, "@ + str_literal(n) + "))"@
                + default_code(a.default) + " }"@,
        ),
{
    let fs = seq![f];
    assert(fs.len() == 1);
    assert(fs[0] == f);
    reveal_with_fuel(crate::derive::field_inits, 2);
    assert(Seq::<char>::empty() + Seq::<char>::empty() + crate::derive::field_init(f, a)
        =~= crate::derive::field_init(f, a));
    assert("{ "@ + crate::derive::field_init(f, a) + " }"@ =~= "{ "@ + f.ident
        + ": "@ + "node.consume_optional_property_into::<"@ + f.ty + ">("@ + str_literal(n)
        + ")?.ok_or(config_parser::ConfigError::expected_property(node, "@ + str_literal(n) + "))"@
        + default_code(a.default) + " }"@);
}

/// A field given a bare `property` reads the property named as the field.
pub proof fn law_property_defaults_to_field_name(f: NamedFieldView, a: FieldAttributesView)
    requires
        spec_parse_attributes(f.attrs) == Ok::<FieldAttributesView, crate::attributes::AttrErrorView>(a),
        a.handeling == HandelingView::Property(None),
    ensures
        spec_gen_constructor(FieldsView::Named(seq![f])) == Ok::<Seq<char>, crate::derive::DeriveErrorView>(
            "{ "@ + f.ident + ": "@ + "node.consume_optional_property_into::<"@ + f.ty + ">("@ + str_literal(
                f.ident,
            ) + ")?.ok_or(config_parser::ConfigError::expected_property(node, "@ + str_literal(f.ident)
                + "))"@ + default_code(a.default) + " }"@,
        ),
{
    let fs = seq![f];
    assert(fs.len() == 1);
    assert(fs[0] == f);
    reveal_with_fuel(crate::derive::field_inits, 2);
    assert(Seq::<char>::empty() + Seq::<char>::empty() + crate::derive::field_init(f, a)
        =~= crate::derive::field_init(f, a));
    assert("{ "@ + crate::derive::field_init(f, a) + " }"@ =~= "{ "@ + f.ident
        + ": "@ + "node.consume_optional_property_into::<"@ + f.ty + ">("@ + str_literal(f.ident)
        + ")?.ok_or(config_parser::ConfigError::expected_property(node, "@ + str_literal(f.ident) + "))"@
        + default_code(a.default) + " }"@);
}

/// Renaming a field read as a renamed property leaves its reading code as it
/// is: only the name given in `property("n")` is looked up.
pub proof fn law_renamed_property_ignores_field_name(
    f: NamedFieldView,
    g: NamedFieldView,
    a: FieldAttributesView,
    n: Seq<char>,
)
    requires
        spec_parse_attributes(f.attrs) == Ok::<FieldAttributesView, crate::attributes::AttrErrorView>(a),
        g.ty == f.ty,
        g.attrs == f.attrs,
        a.handeling == HandelingView::Property(Some(n)),
    ensures
        crate::derive::handling_code(f.ident, f.ty, a.handeling, default_code(a.default))
            == crate::derive::handling_code(g.ident, g.ty, a.handeling, default_code(a.default)),
{
}

// ----- float literals -----

/// Every character of `s` is a decimal digit.
pub open spec fn all_digits(s: Seq<char>) -> bool {
    forall|k: int| 0 <= k < s.len() ==> is_decimal_digit(#[trigger] s[k])
}

/// `e` is empty or an exponent: `e` or `E`, an optional `+` or `-`, and one
/// or more decimal digits.
pub open spec fn exponent_form(e: Seq<char>) -> bool {
    e.len() == 0 || exists|mark: char, sign: Seq<char>, z: Seq<char>|
        #![trigger mark_sign_digits(mark, sign, z)]
        (mark == 'e' || mark == 'E') && (sign.len() == 0 || sign == seq!['+'] || sign == seq!['-'])
            && z.len() > 0 && all_digits(z) && e == mark_sign_digits(mark, sign, z)
}

/// The text of an exponent made of its mark, its sign and its digits.
pub open spec fn mark_sign_digits(mark: char, sign: Seq<char>, z: Seq<char>) -> Seq<char> {
    seq![mark] + sign + z
}

/// `t` is written in Rust's grammar of decimal float literals:
/// `Digit+ ('.' Digit*)? Exp?` or `'.' Digit+ Exp?`, with `x` the digits
/// before the point, `y` those after it and `e` the exponent.
pub open spec fn decimal_float_parts(t: Seq<char>, x: Seq<char>, y: Seq<char>, e: Seq<char>) -> bool {
    &&& all_digits(x)
    &&& all_digits(y)
    &&& exponent_form(e)
    &&& ((x.len() > 0 && y.len() == 0 && t == x + e) || (x.len() + y.len() > 0 && t == x + seq!['.'] + y
        + e))
}

/// `t` is a decimal float literal (see [`decimal_float_parts`]).
pub open spec fn decimal_float_form(t: Seq<char>) -> bool {
    exists|x: Seq<char>, y: Seq<char>, e: Seq<char>| #[trigger] decimal_float_parts(t, x, y, e)
}

/// Proof that a run of digits ends where [`digits_end`] says.
proof fn lemma_digits_end_at(t: Seq<char>, k: int, m: int)
    requires
        0 <= k <= m <= t.len(),
        forall|j: int| k <= j < m ==> is_decimal_digit(#[trigger] t[j]),
        m == t.len() || !is_decimal_digit(t[m]),
    ensures
        digits_end(t, k) == m,
    decreases m - k,
{
    if k < m {
        lemma_digits_end_at(t, k + 1, m);
    }
}

/// Proof of what [`digits_end`] gives: a run of digits followed by a
/// character that is not one, or by the end.
proof fn lemma_digits_end_run(t: Seq<char>, k: int)
    requires
        0 <= k <= t.len(),
    ensures
        k <= digits_end(t, k) <= t.len(),
        forall|j: int| k <= j < digits_end(t, k) ==> is_decimal_digit(#[trigger] t[j]),
        digits_end(t, k) == t.len() || !is_decimal_digit(t[digits_end(t, k)]),
    decreases t.len() - k,
{
    if k < t.len() && is_decimal_digit(t[k]) {
        lemma_digits_end_run(t, k + 1);
    }
}

/// Proof that an exponent that `exponent_ok` accepts at `b` is in the form.
proof fn lemma_exponent_ok_form(t: Seq<char>, b: int)
    requires
        0 <= b <= t.len(),
        exponent_ok(t, b),
    ensures
        exponent_form(t.skip(b)),
{
    if b < t.len() {
        let c = if b + 1 < t.len() && (t[b + 1] == '+' || t[b + 1] == '-') {
            b + 2
        } else {
            b + 1
        };
        lemma_digits_end_run(t, c);
        let sign = t.subrange(b + 1, c);
        let z = t.skip(c);
        assert(all_digits(z)) by {
            assert forall|k: int| 0 <= k < z.len() implies is_decimal_digit(#[trigger] z[k]) by {
                assert(z[k] == t[c + k]);
            }
        }
        if c == b + 2 {
            if t[b + 1] == '+' {
                assert(sign =~= seq!['+']);
            } else {
                assert(sign =~= seq!['-']);
            }
        } else {
            assert(sign =~= Seq::<char>::empty());
        }
        assert(t.skip(b) =~= mark_sign_digits(t[b], sign, z));
    }
}

/// Proof that an exponent in the form is accepted by `exponent_ok` where it
/// starts.
proof fn lemma_exponent_form_ok(t: Seq<char>, b: int)
    requires
        0 <= b <= t.len(),
        exponent_form(t.skip(b)),
    ensures
        exponent_ok(t, b),
{
    let e = t.skip(b);
    if e.len() > 0 {
        let (mark, sign, z) = choose|mark: char, sign: Seq<char>, z: Seq<char>|
            #![trigger mark_sign_digits(mark, sign, z)]
            (mark == 'e' || mark == 'E') && (sign.len() == 0 || sign == seq!['+'] || sign == seq!['-'])
                && z.len() > 0 && all_digits(z) && e == mark_sign_digits(mark, sign, z);
        let c = b + 1 + sign.len();
        assert(t[b] == e[0]);
        assert(e[0] == mark);
        if sign.len() > 0 {
            assert(t[b + 1] == e[1]);
            assert(e[1] == sign[0]);
        } else {
            assert(t[b + 1] == e[1]);
            assert(e[1] == z[0]);
            assert(is_decimal_digit(z[0]));
        }
        assert forall|j: int| c <= j < t.len() implies is_decimal_digit(#[trigger] t[j]) by {
            assert(t[j] == e[j - b]);
            assert(e[j - b] == z[j - c]);
        }
        lemma_digits_end_at(t, c, t.len() as int);
    }
}

/// The float literals accepted are exactly those of Rust's grammar of decimal
/// floats: `Digit+ ('.' Digit*)? Exp?` or `'.' Digit+ Exp?`.
pub proof fn law_float_literal_grammar(t: Seq<char>)
    ensures
        float_literal_ok(t) <==> decimal_float_form(t),
{
    let a = digits_end(t, 0);
    lemma_digits_end_run(t, 0);
    if float_literal_ok(t) {
        let x = t.take(a);
        assert(all_digits(x)) by {
            assert forall|k: int| 0 <= k < x.len() implies is_decimal_digit(#[trigger] x[k]) by {
                assert(x[k] == t[k]);
            }
        }
        if a < t.len() && t[a] == '.' {
            let b = digits_end(t, a + 1);
            lemma_digits_end_run(t, a + 1);
            let y = t.subrange(a + 1, b);
            assert(all_digits(y)) by {
                assert forall|k: int| 0 <= k < y.len() implies is_decimal_digit(#[trigger] y[k]) by {
                    assert(y[k] == t[a + 1 + k]);
                }
            }
            lemma_exponent_ok_form(t, b);
            assert(t =~= x + seq!['.'] + y + t.skip(b));
            assert(decimal_float_parts(t, x, y, t.skip(b)));
        } else {
            lemma_exponent_ok_form(t, a);
            assert(t =~= x + t.skip(a));
            assert(decimal_float_parts(t, x, Seq::empty(), t.skip(a)));
        }
    }
    if decimal_float_form(t) {
        let (x, y, e) = choose|x: Seq<char>, y: Seq<char>, e: Seq<char>| #[trigger] decimal_float_parts(t, x, y, e);
        assert(e.len() > 0 ==> e[0] == 'e' || e[0] == 'E') by {
            if e.len() > 0 {
                let (mark, sign, z) = choose|mark: char, sign: Seq<char>, z: Seq<char>|
                    #![trigger mark_sign_digits(mark, sign, z)]
                    (mark == 'e' || mark == 'E') && (sign.len() == 0 || sign == seq!['+'] || sign
                        == seq!['-']) && z.len() > 0 && all_digits(z) && e == mark_sign_digits(mark, sign, z);
                assert(e[0] == mark);
            }
        }
        assert forall|j: int| 0 <= j < x.len() implies is_decimal_digit(#[trigger] t[j]) by {
            assert(t[j] == x[j]);
        }
        if x.len() > 0 && y.len() == 0 && t == x + e {
            if e.len() > 0 {
                assert(t[x.len() as int] == e[0]);
            }
            lemma_digits_end_at(t, 0, x.len() as int);
            assert(t.skip(x.len() as int) =~= e);
            lemma_exponent_form_ok(t, x.len() as int);
            if e.len() > 0 {
                assert(t[a] != '.');
            }
        } else {
            let a1 = x.len() as int;
            assert(t[a1] == '.');
            lemma_digits_end_at(t, 0, a1);
            let b = a1 + 1 + y.len();
            assert forall|j: int| a1 + 1 <= j < b implies is_decimal_digit(#[trigger] t[j]) by {
                assert(t[j] == y[j - a1 - 1]);
            }
            if e.len() > 0 {
                assert(t[b] == e[0]);
            }
            lemma_digits_end_at(t, a1 + 1, b);
            assert(t.skip(b) =~= e);
            lemma_exponent_form_ok(t, b);
        }
    }
}

/// A float literal made of digits, a point and digits is accepted, whatever
/// its first digit: `0.5` among them.
pub proof fn law_float_digits_point_digits(x: Seq<char>, y: Seq<char>)
    requires
        x.len() > 0,
        y.len() > 0,
        all_digits(x),
        all_digits(y),
    ensures
        float_literal_ok(x + seq!['.'] + y),
{
    let t = x + seq!['.'] + y;
    assert(t =~= x + seq!['.'] + y + Seq::<char>::empty());
    assert(decimal_float_parts(t, x, y, Seq::empty()));
    law_float_literal_grammar(t);
}

} // verus!
