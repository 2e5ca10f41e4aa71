//! Documents: the nodes of a whole configuration text.
use vstd::prelude::*;

use crate::error::{ConfigError, ConfigErrorView};
use crate::lexer::{lemma_skip_space, skip_space};
use crate::node::{children_view, opt_node_view, ConfigNode, NodeView};
use crate::parse_node::{node_parse_is, spec_parse_node};
use crate::source::Parser;
use crate::span::{Span, Spanned};
use crate::syntax_error::{spec_expected_at, SyntaxError};
use crate::traits::ParseConfigNode;

verus! {

/// The top level nodes of a configuration text.
#[derive(Debug, PartialEq)]
pub struct Document<'c> {
    pub(crate) nodes: Vec<Option<ConfigNode<'c>>>,
}

impl<'c> View for Document<'c> {
    type V = Seq<Option<NodeView>>;

    closed spec fn view(&self) -> Seq<Option<NodeView>> {
        children_view(self.nodes@)
    }
}

/// The nodes from `pos`, which follows spaces and comments, to the end of
/// the text, after the nodes `acc`. Spaces, comments and line feeds may stand
/// between the nodes.
pub open spec fn spec_parse_nodes(s: Seq<char>, pos: int, acc: Seq<Option<NodeView>>) -> Result<
    Seq<Option<NodeView>>,
    SyntaxError,
>
    decreases s.len() - pos,
{
    if pos < 0 || pos >= s.len() {
        Ok(acc)
    } else {
        match spec_parse_node(s, pos) {
            Err(e) => Err(e),
            Ok((None, p2)) => Err(spec_expected_at(s, p2, "a node")),
            Ok((Some(n), p2)) => {
                let p3 = skip_space(s, p2, true);
                if pos < p3 <= s.len() {
                    spec_parse_nodes(s, p3, acc.push(Some(n)))
                } else {
                    Ok(acc.push(Some(n)))
                }
            },
        }
    }
}

/// The nodes of the text `s` from `start` to its end.
pub open spec fn spec_parse_document(s: Seq<char>, start: int) -> Result<Seq<Option<NodeView>>, SyntaxError> {
    spec_parse_nodes(s, skip_space(s, start, true), Seq::empty())
}

/// The node holding `nodes` as its children, named "document".
pub open spec fn document_node(nodes: Seq<Option<NodeView>>) -> NodeView {
    NodeView {
        name: Spanned { span: Span { start: 0, end: 0 }, inner: "document"@ },
        arguments: Seq::empty(),
        argument_count: 0,
        properties: Seq::empty(),
        children: nodes,
    }
}

impl<'c> Parser<'c> {
    /// Parses the nodes from `pos` to the end of the text.
    #[verifier::rlimit(60)]
    pub fn parse_document_at(&self, pos: usize) -> (res: Result<Vec<Option<ConfigNode<'c>>>, SyntaxError>)
        requires
            self.wf(),
            pos <= self.source().len(),
        ensures
            match spec_parse_document(self.source(), pos as int) {
                Ok(nodes) => res matches Ok(v) && children_view(v@) == nodes,
                Err(e) => res == Err::<Vec<Option<ConfigNode<'c>>>, SyntaxError>(e),
            },
    {
        let ghost s = self.source();
        let n = self.len();
        let mut nodes: Vec<Option<ConfigNode<'c>>> = Vec::new();
        let mut cur = self.skip_space_from(pos, true);
        let ghost total = spec_parse_document(s, pos as int);
        proof {
            assert(children_view(nodes@) =~= Seq::<Option<NodeView>>::empty());
        }
        while cur < n
            invariant
                self.wf(),
                s == self.source(),
                n == s.len(),
                cur <= n,
                total == spec_parse_nodes(s, cur as int, children_view(nodes@)),
                total == spec_parse_document(s, pos as int),
            decreases n - cur,
        {
            match self.parse_node_at(cur) {
                Err(e) => {
                    return Err(e);
                },
                Ok((None, p2)) => {
                    proof {
                        lemma_skip_space(s, cur as int, true);
                    }
                    return Err(self.expected_at(p2, "a node"));
                },
                Ok((Some(node), p2)) => {
                    proof {
                        assert(children_view(nodes@.push(Some(node))) =~= children_view(nodes@).push(
                            opt_node_view(Some(node)),
                        ));
                        lemma_skip_space(s, p2 as int, true);
                    }
                    nodes.push(Some(node));
                    cur = self.skip_space_from(p2, true);
                },
            }
        }
        Ok(nodes)
    }
}

impl<'c> Document<'c> {
    /// The document holding `nodes`.
    pub fn new(nodes: Vec<ConfigNode<'c>>) -> (res: Self)
        ensures
            res@ == nodes@.map_values(|n: ConfigNode<'c>| Some(n@)),
    {
        let mut nodes = nodes;
        let mut out: Vec<Option<ConfigNode<'c>>> = Vec::new();
        let ghost all = nodes@;
        let mut k: usize = 0;
        let len = nodes.len();
        proof {
            assert(children_view(out@) =~= Seq::<Option<NodeView>>::empty());
        }
        // Nodes are moved out from the back and put in place from the front.
        let mut rev: Vec<ConfigNode<'c>> = Vec::new();
        while nodes.len() > 0
            invariant
                nodes@.len() + rev@.len() == all.len(),
                forall|i: int| 0 <= i < nodes@.len() ==> #[trigger] nodes@[i] == all[i],
                forall|i: int|
                    0 <= i < rev@.len() ==> #[trigger] rev@[i] == all[all.len() - 1 - i],
            decreases nodes@.len(),
        {
            let x = nodes.pop().unwrap();
            rev.push(x);
        }
        while rev.len() > 0
            invariant
                rev@.len() + out@.len() == all.len(),
                forall|i: int|
                    0 <= i < rev@.len() ==> #[trigger] rev@[i] == all[all.len() - 1 - i],
                children_view(out@) == all.take(out@.len() as int).map_values(
                    |n: ConfigNode<'c>| Some(n@),
                ),
            decreases rev@.len(),
        {
            let ghost o = out@;
            let x = rev.pop().unwrap();
            out.push(Some(x));
            proof {
                assert(x == all[o.len() as int]);
                assert(children_view(out@) =~= children_view(o).push(Some(x@)));
                assert(all.take(out@.len() as int).map_values(|n: ConfigNode<'c>| Some(n@))
                    =~= all.take(o.len() as int).map_values(|n: ConfigNode<'c>| Some(n@)).push(
                    Some(x@),
                ));
            }
        }
        proof {
            assert(all.take(all.len() as int) =~= all);
        }
        Document { nodes: out }
    }

    /// Parses a whole configuration text.
    ///
    /// No source code is attached to the error.
    pub fn from_str(str: &'c str) -> (res: Result<Self, ConfigError>)
        ensures
            match spec_parse_document(str@, 0) {
                Ok(nodes) => res matches Ok(d) && d@ == nodes,
                Err(e) => res matches Err(ce) && ce@ == (ConfigErrorView::Syntax { inner: e }),
            },
    {
        let mut parser = Parser::new(str);
        match Document::parse(&mut parser) {
            Ok(d) => Ok(d),
            Err(e) => Err(ConfigError::Syntax { inner: e }),
        }
    }

    /// Parses the nodes from the cursor of `parser` to the end of its text;
    /// the cursor moves to the end.
    pub fn parse(parser: &mut Parser<'c>) -> (res: Result<Self, SyntaxError>)
        requires
            old(parser).wf(),
        ensures
            final(parser).wf(),
            final(parser).source() == old(parser).source(),
            match spec_parse_document(old(parser).source(), old(parser).position()) {
                Ok(nodes) => res matches Ok(d) && d@ == nodes && final(parser).position()
                    == old(parser).source().len(),
                Err(e) => res matches Err(re) && re == e && final(parser).position() == old(
                    parser,
                ).position(),
            },
    {
        let p = parser.cursor();
        match parser.parse_document_at(p) {
            Ok(nodes) => {
                let n = parser.len();
                parser.set_cursor(n);
                Ok(Document { nodes })
            },
            Err(e) => Err(e),
        }
    }

    /// Reads the document, as a node named "document", into `T`.
    pub fn parse_into<T: ParseConfigNode<'c>>(self) -> (res: Result<T, ConfigError>)
        ensures
            exists|m: &mut ConfigNode<'c>|
                (*m)@ == document_node(self@) && #[trigger] call_ensures(
                    T::consume_node,
                    (m, true),
                    res,
                ),
    {
        let mut node = self.into_node();
        let res = T::consume_node(&mut node, true);
        res
    }

    /// The node named "document" holding the nodes of the document as children.
    pub fn into_node(self) -> (res: ConfigNode<'c>)
        ensures
            res@ == document_node(self@),
    {
        ConfigNode::from_document(self)
    }
}

impl<'c> ConfigNode<'c> {
    /// The node named "document" holding the nodes of `document` as children.
    pub fn from_document(document: Document<'c>) -> (res: Self)
        ensures
            res@ == document_node(document@),
    {
        let name: &'c str = "document";
        let res = ConfigNode::from_parts(Spanned::null_span(name), Vec::new(), Vec::new(), document.nodes);
        proof {
            assert(res@.arguments =~= Seq::<Spanned<crate::value::ValueView>>::empty());
            assert(res@.properties =~= Seq::<Option<crate::node::PropView>>::empty());
        }
        res
    }

    /// Parses a node at the cursor of `parser`; see [`spec_parse_node`]. On
    /// success the cursor moves past the node; on an error it stays.
    pub fn parse(parser: &mut Parser<'c>) -> (res: Result<Option<ConfigNode<'c>>, SyntaxError>)
        requires
            old(parser).wf(),
        ensures
            final(parser).wf(),
            final(parser).source() == old(parser).source(),
            match spec_parse_node(old(parser).source(), old(parser).position()) {
                Ok((o, p)) => res matches Ok(ro) && opt_node_view(ro) == o && final(parser).position()
                    == p,
                Err(e) => res matches Err(re) && re == e && final(parser).position() == old(
                    parser,
                ).position(),
            },
    {
        let p = parser.cursor();
        match parser.parse_node_at(p) {
            Ok((o, q)) => {
                proof {
                    lemma_skip_space(old(parser).source(), p as int, true);
                }
                parser.set_cursor(q);
                Ok(o)
            },
            Err(e) => Err(e),
        }
    }
}

/// Parses a configuration text and reads it into `T`.
///
/// No source code is attached to the error.
pub fn from_str<'c, T: ParseConfigNode<'c>>(str: &'c str) -> (res: Result<T, ConfigError>)
    ensures
        spec_parse_document(str@, 0) matches Err(e) ==> res matches Err(ce) && ce@ == (
        ConfigErrorView::Syntax { inner: e }),
        spec_parse_document(str@, 0) matches Ok(nodes) ==> exists|m: &mut ConfigNode<'c>|
            (*m)@ == document_node(nodes) && #[trigger] call_ensures(T::consume_node, (m, true), res),
{
    let doc = match Document::from_str(str) {
        Ok(d) => d,
        Err(e) => {
            return Err(e);
        },
    };
    doc.parse_into::<T>()
}

} // verus!
