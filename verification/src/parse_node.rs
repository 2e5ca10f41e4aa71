//! Parsing of nodes and documents.
use vstd::prelude::*;

use crate::lexer::{first_from, ident_end, lemma_first_from, lemma_skip_space, skip_space, Stop};
use crate::node::{PropView, args_view, children_view, opt_node_view, props_view, ConfigNode, NodeView};
use crate::parse_value::{opt_value_view, spec_parse_value, value_parse_is};
use crate::source::{bspan, Parser};
use crate::span::{Span, Spanned};
use crate::syntax_error::{spec_expected_at, SyntaxError};
use crate::value::{ConfigValue, ValueView};

verus! {


/// A property after optional spaces and comments: an identifier, optional
/// spaces, `=` and a value. `Ok((None, i))` when the text at `i` is not a
/// property. After the value the position moves on to the next whitespace.
pub open spec fn spec_parse_property(s: Seq<char>, i: int) -> Result<
    (Option<PropView>, int),
    SyntaxError,
> {
    let i1 = skip_space(s, i, false);
    let j = ident_end(s, i1);
    if j <= i1 {
        Ok((None, i))
    } else {
        let i2 = skip_space(s, j, false);
        if !(0 <= i2 < s.len() && s[i2] == '=') {
            Ok((None, i))
        } else {
            match spec_parse_value(s, i2 + 1) {
                Err(e) => Err(e),
                Ok((Some(v), p)) => Ok(
                    (Some((s.subrange(i1, j), v)), first_from(s, p, Stop::Whitespace)),
                ),
                Ok((None, p)) => Err(spec_expected_at(s, p, "a property value")),
            }
        }
    }
}

/// The arguments and properties of a node, from `pos` to the end of the line,
/// a `{`, a `}` or the end of the text. All arguments come before the
/// first property. The result holds the arguments, the properties and the
/// position of the character that ended them.
pub open spec fn spec_parse_attrs(
    s: Seq<char>,
    pos: int,
    args: Seq<Spanned<ValueView>>,
    props: Seq<Option<PropView>>,
    argmode: bool,
) -> Result<(Seq<Spanned<ValueView>>, Seq<Option<PropView>>, int), SyntaxError>
    decreases s.len() - pos,
{
    if pos < 0 || pos > s.len() {
        Ok((args, props, pos))
    } else {
        let p = skip_space(s, pos, false);
        if p >= s.len() || s[p] == '{' || s[p] == '}' || s[p] == '\n' {
            Ok((args, props, p))
        } else {
            match spec_parse_property(s, p) {
                Err(e) => Err(e),
                Ok((Some(prop), p2)) => if pos < p2 <= s.len() {
                    spec_parse_attrs(s, p2, args, props.push(Some(prop)), false)
                } else {
                    Ok((args, props, p))
                },
                Ok((None, _)) => match spec_parse_value(s, p) {
                    Err(e) => Err(e),
                    Ok((Some(v), p2)) => if argmode {
                        if pos < p2 <= s.len() {
                            spec_parse_attrs(s, p2, args.push(v), props, true)
                        } else {
                            Ok((args, props, p))
                        }
                    } else {
                        Err(
                            SyntaxError::ExpectedButGot {
                                span: v.span,
                                expected: "a property",
                                got: "an argument",
                                help: Some("Arguments need to be defined before properties"),
                            },
                        )
                    },
                    Ok((None, p2)) => Err(
                        spec_expected_at(
                            s,
                            p2,
                            if argmode {
                                "an argument or property"
                            } else {
                                "a property"
                            },
                        ),
                    ),
                },
            }
        }
    }
}

pub proof fn lemma_parse_attrs_pos(
    s: Seq<char>,
    pos: int,
    args: Seq<Spanned<ValueView>>,
    props: Seq<Option<PropView>>,
    argmode: bool,
)
    requires
        0 <= pos <= s.len(),
    ensures
        spec_parse_attrs(s, pos, args, props, argmode) matches Ok((_, _, q)) ==> pos <= q <= s.len(),
    decreases s.len() - pos,
{
    lemma_skip_space(s, pos, false);
    let p = skip_space(s, pos, false);
    if !(p >= s.len() || s[p] == '{' || s[p] == '}' || s[p] == '\n') {
        match spec_parse_property(s, p) {
            Ok((Some(prop), p2)) => if pos < p2 <= s.len() {
                lemma_parse_attrs_pos(s, p2, args, props.push(Some(prop)), false);
            },
            Ok((None, _)) => match spec_parse_value(s, p) {
                Ok((Some(v), p2)) => if argmode && pos < p2 <= s.len() {
                    lemma_parse_attrs_pos(s, p2, args.push(v), props, true);
                },
                _ => {},
            },
            _ => {},
        }
    }
}

/// The child nodes of a node, after its `{`, up to the matching `}`.
pub open spec fn spec_parse_children(
    s: Seq<char>,
    pos: int,
    opening: Span,
    acc: Seq<Option<NodeView>>,
) -> Result<(Seq<Option<NodeView>>, int), SyntaxError>
    decreases s.len() - pos, 1int,
{
    if pos < 0 || pos > s.len() {
        Ok((acc, pos))
    } else {
        let p = skip_space(s, pos, true);
        proof {
            lemma_skip_space(s, pos, true);
        }
        if p >= s.len() {
            Err(SyntaxError::CurliesWrong { opening })
        } else if s[p] == '}' {
            Ok((acc, p + 1))
        } else {
            match spec_parse_node(s, p) {
                Err(e) => Err(e),
                Ok((None, p2)) => Err(spec_expected_at(s, p2, "a node")),
                Ok((Some(n), p2)) => if pos < p2 <= s.len() {
                    spec_parse_children(s, p2, opening, acc.push(Some(n)))
                } else {
                    Ok((acc, p2))
                },
            }
        }
    }
}

/// A node after optional spaces, comments and line feeds: an identifier as
/// its name, its arguments and properties, and optionally its children
/// between `{` and `}`. `Ok((None, p))` when there is no identifier at `p`.
pub open spec fn spec_parse_node(s: Seq<char>, pos: int) -> Result<(Option<NodeView>, int), SyntaxError>
    decreases s.len() - pos, 0int,
{
    if pos < 0 || pos > s.len() {
        Ok((None, pos))
    } else {
        let p = skip_space(s, pos, true);
        let j = ident_end(s, p);
        proof {
            lemma_skip_space(s, pos, true);
            lemma_first_from(s, p, Stop::WhitespaceOrPunct);
        }
        if j <= p {
            Ok((None, p))
        } else {
            match spec_parse_attrs(s, j, Seq::empty(), Seq::empty(), true) {
                Err(e) => Err(e),
                Ok((args, props, q)) => {
                    proof {
                        lemma_parse_attrs_pos(s, j, Seq::empty(), Seq::empty(), true);
                        lemma_skip_space(s, q, false);
                    }
                    let q2 = skip_space(s, q, false);
                    let name = Spanned { span: bspan(s, p, j), inner: s.subrange(p, j) };
                    if q2 < s.len() && s[q2] == '{' {
                        match spec_parse_children(s, q2 + 1, bspan(s, q2, q2 + 1), Seq::empty()) {
                            Err(e) => Err(e),
                            Ok((cs, r)) => Ok(
                                (
                                    Some(
                                        NodeView {
                                            name,
                                            arguments: args,
                                            argument_count: args.len(),
                                            properties: props,
                                            children: cs,
                                        },
                                    ),
                                    r,
                                ),
                            ),
                        }
                    } else {
                        Ok(
                            (
                                Some(
                                    NodeView {
                                        name,
                                        arguments: args,
                                        argument_count: args.len(),
                                        properties: props,
                                        children: Seq::empty(),
                                    },
                                ),
                                q2,
                            ),
                        )
                    }
                },
            }
        }
    }
}

/// The executable outcome `res` is the outcome `spec`.
pub open spec fn node_parse_is<'c>(
    res: Result<(Option<ConfigNode<'c>>, usize), SyntaxError>,
    spec: Result<(Option<NodeView>, int), SyntaxError>,
) -> bool {
    match spec {
        Ok((o, p)) => match res {
            Ok((ro, rp)) => rp == p && opt_node_view(ro) == o,
            Err(_) => false,
        },
        Err(e) => match res {
            Ok(_) => false,
            Err(re) => re == e,
        },
    }
}

pub open spec fn opt_prop_view<'c>(o: Option<(&'c str, Spanned<ConfigValue<'c>>)>) -> Option<
    PropView,
> {
    match o {
        Some((n, v)) => Some((n@, v@)),
        None => None,
    }
}

impl<'c> Parser<'c> {
    /// The error reporting that `expected` was expected at `p`.
    pub fn expected_at(&self, p: usize, expected: &'static str) -> (res: SyntaxError)
        requires
            self.wf(),
            p <= self.source().len(),
        ensures
            res == spec_expected_at(self.source(), p as int, expected),
    {
        let e = self.scan(p, Stop::Whitespace);
        proof {
            lemma_first_from(self.source(), p as int, Stop::Whitespace);
        }
        SyntaxError::Expected { span: self.span_of(p, e), expected }
    }

    /// Parses a property; see [`spec_parse_property`].
    pub fn parse_property_at(&self, i: usize) -> (res: Result<
        (Option<(&'c str, Spanned<ConfigValue<'c>>)>, usize),
        SyntaxError,
    >)
        requires
            self.wf(),
            i <= self.source().len(),
        ensures
            match spec_parse_property(self.source(), i as int) {
                Ok((o, p)) => match res {
                    Ok((ro, rp)) => rp == p && opt_prop_view(ro) == o,
                    Err(_) => false,
                },
                Err(e) => match res {
                    Ok(_) => false,
                    Err(re) => re == e,
                },
            },
            res matches Ok((Some(_), p)) ==> i < p <= self.source().len(),
            res matches Ok((None, p)) ==> p == i,
    {
        let i1 = self.skip_space_from(i, false);
        let j = self.scan(i1, Stop::WhitespaceOrPunct);
        proof {
            lemma_first_from(self.source(), i1 as int, Stop::WhitespaceOrPunct);
        }
        if j <= i1 {
            return Ok((None, i));
        }
        let i2 = self.skip_space_from(j, false);
        if !(i2 < self.len() && self.char_at(i2) == '=') {
            return Ok((None, i));
        }
        match self.parse_value_at(i2 + 1) {
            Err(e) => Err(e),
            Ok((Some(v), p)) => {
                let p2 = self.scan(p, Stop::Whitespace);
                proof {
                    lemma_first_from(self.source(), p as int, Stop::Whitespace);
                    lemma_skip_space(self.source(), i2 + 1, false);
                }
                Ok((Some((self.slice(i1, j), v)), p2))
            },
            Ok((None, p)) => {
                proof {
                    lemma_skip_space(self.source(), i2 + 1, false);
                }
                Err(self.expected_at(p, "a property value"))
            },
        }
    }

    /// Parses a node; see [`spec_parse_node`].
    pub fn parse_node_at(&self, pos: usize) -> (res: Result<(Option<ConfigNode<'c>>, usize), SyntaxError>)
        requires
            self.wf(),
            pos <= self.source().len(),
        ensures
            node_parse_is(res, spec_parse_node(self.source(), pos as int)),
            res matches Ok((Some(_), q)) ==> pos < q <= self.source().len(),
            res matches Ok((None, q)) ==> q == skip_space(self.source(), pos as int, true),
        decreases self.source().len() - pos,
    {
        let ghost s = self.source();
        let n = self.len();
        let p = self.skip_space_from(pos, true);
        let j = self.scan(p, Stop::WhitespaceOrPunct);
        proof {
            lemma_first_from(s, p as int, Stop::WhitespaceOrPunct);
        }
        if j <= p {
            return Ok((None, p));
        }
        let name = Spanned::new(self.slice(p, j), self.span_of(p, j));
        let mut args: Vec<Spanned<ConfigValue<'c>>> = Vec::new();
        let mut props: Vec<Option<(&'c str, Spanned<ConfigValue<'c>>)>> = Vec::new();
        let mut argmode = true;
        let mut cur = j;
        let mut q: usize = j;
        let ghost total = spec_parse_attrs(s, j as int, Seq::empty(), Seq::empty(), true);
        proof {
            assert(args_view(args@) =~= Seq::<Spanned<ValueView>>::empty());
            assert(props_view(props@) =~= Seq::<Option<PropView>>::empty());
        }
        loop
            invariant
                self.wf(),
                s == self.source(),
                n == s.len(),
                j <= cur <= n,
                total == spec_parse_attrs(s, cur as int, args_view(args@), props_view(props@), argmode),
                match total {
                    Err(e) => spec_parse_node(s, pos as int) == Err::<(Option<NodeView>, int), SyntaxError>(e),
                    Ok(_) => true,
                },
            ensures
                q <= n,
                total == Ok::<_, SyntaxError>((args_view(args@), props_view(props@), q as int)),
            decreases n - cur,
        {
            let p1 = self.skip_space_from(cur, false);
            if p1 >= n {
                q = p1;
                break;
            }
            let c = self.char_at(p1);
            if c == '{' || c == '}' || c == '\n' {
                q = p1;
                break;
            }
            match self.parse_property_at(p1) {
                Err(e) => {
                    return Err(e);
                },
                Ok((Some(prop), p2)) => {
                    proof {
                        assert(props_view(props@.push(Some(prop))) =~= props_view(props@).push(
                            opt_prop_view(Some(prop)),
                        ));
                    }
                    argmode = false;
                    props.push(Some(prop));
                    cur = p2;
                },
                Ok((None, _)) => {
                    match self.parse_value_at(p1) {
                        Err(e) => {
                            return Err(e);
                        },
                        Ok((Some(v), p2)) => {
                            proof {
                                lemma_skip_space(s, p1 as int, false);
                            }
                            if argmode {
                                proof {
                                    assert(args_view(args@.push(v)) =~= args_view(args@).push(v@));
                                }
                                args.push(v);
                                cur = p2;
                            } else {
                                return Err(
                                    SyntaxError::ExpectedButGot {
                                        span: v.span,
                                        expected: "a property",
                                        got: "an argument",
                                        help: Some("Arguments need to be defined before properties"),
                                    },
                                );
                            }
                        },
                        Ok((None, p2)) => {
                            proof {
                                lemma_skip_space(s, p1 as int, false);
                            }
                            let expected = if argmode {
                                "an argument or property"
                            } else {
                                "a property"
                            };
                            return Err(self.expected_at(p2, expected));
                        },
                    }
                },
            }
        }
        let q2 = self.skip_space_from(q, false);
        let mut children: Vec<Option<ConfigNode<'c>>> = Vec::new();
        proof {
            assert(children_view(children@) =~= Seq::<Option<NodeView>>::empty());
            lemma_parse_attrs_pos(s, j as int, Seq::empty(), Seq::empty(), true);
        }
        if q2 < n && self.char_at(q2) == '{' {
            let opening = self.span_of(q2, q2 + 1);
            let mut cur = q2 + 1;
            let mut end: usize = cur;
            let ghost total_children = spec_parse_children(s, cur as int, opening, Seq::empty());
            loop
                invariant
                    self.wf(),
                    s == self.source(),
                    n == s.len(),
                    pos < q2 + 1 <= cur <= n,
                    total_children == spec_parse_children(
                        s,
                        cur as int,
                        opening,
                        children_view(children@),
                    ),
                    match total_children {
                        Err(e) => spec_parse_node(s, pos as int) == Err::<(Option<NodeView>, int), SyntaxError>(e),
                        Ok(_) => true,
                    },
                ensures
                    pos < end <= n,
                    total_children == Ok::<_, SyntaxError>((children_view(children@), end as int)),
                decreases n - cur,
            {
                let p = self.skip_space_from(cur, true);
                if p >= n {
                    return Err(SyntaxError::CurliesWrong { opening });
                }
                if self.char_at(p) == '}' {
                    end = p + 1;
                    break;
                }
                match self.parse_node_at(p) {
                    Err(e) => {
                        return Err(e);
                    },
                    Ok((None, p2)) => {
                        proof {
                            lemma_skip_space(s, p as int, true);
                        }
                        return Err(self.expected_at(p2, "a node"));
                    },
                    Ok((Some(child), p2)) => {
                        proof {
                            assert(children_view(children@.push(Some(child))) =~= children_view(
                                children@,
                            ).push(opt_node_view(Some(child))));
                        }
                        children.push(Some(child));
                        cur = p2;
                    },
                }
            }
            let node = ConfigNode::from_parts(name, args, props, children);
            Ok((Some(node), end))
        } else {
            proof {
                assert(q2 >= pos);
            }
            let node = ConfigNode::from_parts(name, args, props, children);
            Ok((Some(node), q2))
        }
    }
}

} // verus!
