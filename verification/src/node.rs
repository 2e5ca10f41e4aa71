//! Configuration nodes: a name, arguments, properties and child nodes.
use vstd::prelude::*;

use crate::allowed::{spec_is_allowed, spec_names_text, AllowedNodeNames, NamesView};
use crate::impls::with_some;
use crate::traits::{names_of, ParseConfigNode, ParseConfigValue};
use crate::error::{ConfigError, ConfigErrorView};
use crate::span::{Span, Spanned};
use crate::text::str_eq;
use crate::value::{ConfigValue, ValueView};

verus! {

/// The mathematical content of a [`ConfigNode`]. Consumed properties and
/// children are `None`.
pub struct NodeView {
    pub name: Spanned<Seq<char>>,
    pub arguments: Seq<Spanned<ValueView>>,
    pub argument_count: nat,
    pub properties: Seq<Option<(Seq<char>, Spanned<ValueView>)>>,
    pub children: Seq<Option<NodeView>>,
}

/// A node of a configuration: a name followed by arguments, properties and
/// child nodes. Arguments, properties and children are consumed one by one
/// when the node is read into a type.
#[derive(Debug, PartialEq)]
pub struct ConfigNode<'c> {
    pub(crate) arguments: Vec<Spanned<ConfigValue<'c>>>,
    pub(crate) argument_count: usize,
    pub(crate) properties: Vec<Option<(&'c str, Spanned<ConfigValue<'c>>)>>,
    pub(crate) children: Vec<Option<ConfigNode<'c>>>,
    pub(crate) name: Spanned<&'c str>,
}

pub open spec fn prop_view<'c>(p: Option<(&'c str, Spanned<ConfigValue<'c>>)>) -> Option<
    (Seq<char>, Spanned<ValueView>),
> {
    match p {
        Some((n, v)) => Some((n@, v@)),
        None => None,
    }
}

pub open spec fn args_view<'c>(a: Seq<Spanned<ConfigValue<'c>>>) -> Seq<Spanned<ValueView>> {
    a.map_values(|x: Spanned<ConfigValue<'c>>| x@)
}

pub open spec fn props_view<'c>(p: Seq<Option<(&'c str, Spanned<ConfigValue<'c>>)>>) -> Seq<
    Option<(Seq<char>, Spanned<ValueView>)>,
> {
    p.map_values(|x: Option<(&'c str, Spanned<ConfigValue<'c>>)>| prop_view(x))
}

pub open spec fn opt_node_view<'c>(c: Option<ConfigNode<'c>>) -> Option<NodeView> {
    match c {
        Some(n) => Some(n@),
        None => None,
    }
}

pub open spec fn children_view<'c>(c: Seq<Option<ConfigNode<'c>>>) -> Seq<Option<NodeView>> {
    c.map_values(|x: Option<ConfigNode<'c>>| opt_node_view(x))
}

impl<'c> ConfigNode<'c> {
    pub closed spec fn spec_view(&self) -> NodeView
        decreases self,
    {
        NodeView {
            name: Spanned { span: self.name.span, inner: self.name.inner@ },
            arguments: args_view(self.arguments@),
            argument_count: self.argument_count as nat,
            properties: props_view(self.properties@),
            children: Seq::new(
                self.children@.len(),
                |i: int|
                    if 0 <= i < self.children@.len() {
                        match self.children@[i] {
                            Some(c) => Some(c.spec_view()),
                            None => None,
                        }
                    } else {
                        None
                    },
            ),
        }
    }
}

impl<'c> View for ConfigNode<'c> {
    type V = NodeView;

    open spec fn view(&self) -> NodeView {
        self.spec_view()
    }
}

} // verus!

verus! {

impl<'c> ConfigNode<'c> {
    #[verifier::type_invariant]
    spec fn arguments_counted(self) -> bool {
        self.arguments.len() <= self.argument_count
    }

    /// Unfolds the view one level.
    pub(crate) proof fn lemma_view(&self)
        ensures
            self@.name == (Spanned { span: self.name.span, inner: self.name.inner@ }),
            self@.arguments == args_view(self.arguments@),
            self@.argument_count == self.argument_count,
            self@.properties == props_view(self.properties@),
            self@.children == children_view(self.children@),
    {
        assert(self@.children =~= children_view(self.children@));
    }

    /// The node with the given parts; every argument counts.
    pub(crate) fn from_parts(
        name: Spanned<&'c str>,
        arguments: Vec<Spanned<ConfigValue<'c>>>,
        properties: Vec<Option<(&'c str, Spanned<ConfigValue<'c>>)>>,
        children: Vec<Option<ConfigNode<'c>>>,
    ) -> (res: Self)
        ensures
            res@ == (NodeView {
                name: name@,
                arguments: args_view(arguments@),
                argument_count: arguments@.len(),
                properties: props_view(properties@),
                children: children_view(children@),
            }),
    {
        let res = ConfigNode {
            argument_count: arguments.len(),
            arguments,
            properties,
            children,
            name,
        };
        proof {
            res.lemma_view();
        }
        res
    }

    /// The name of the node.
    pub fn name(&self) -> (res: &'c str)
        ensures
            res@ == self@.name.inner,
    {
        self.name.inner
    }

    /// The name of the node with its span.
    pub fn name_spanned(&self) -> (res: Spanned<&'c str>)
        ensures
            res@ == self@.name,
    {
        Spanned { span: self.name.span, inner: self.name.inner }
    }

    /// The span of the name of the node.
    pub fn name_span(&self) -> (res: Span)
        ensures
            res == self@.name.span,
    {
        self.name.span
    }

    /// Number of arguments the node was made with, consumed or not.
    pub(crate) fn argument_total(&self) -> (res: usize)
        ensures
            res == self@.argument_count,
    {
        self.argument_count
    }
}

} // verus!

verus! {

/// A property: its name and its value.
pub type PropView = (Seq<char>, Spanned<ValueView>);

/// The present nodes of `cs`, in order.
pub open spec fn present_nodes(cs: Seq<Option<NodeView>>) -> Seq<NodeView>
    decreases cs.len(),
{
    if cs.len() == 0 {
        Seq::empty()
    } else {
        let rest = present_nodes(cs.drop_last());
        match cs.last() {
            Some(n) => rest.push(n),
            None => rest,
        }
    }
}

/// The present properties of `ps`, in order.
pub open spec fn present_props(ps: Seq<Option<PropView>>) -> Seq<PropView>
    decreases ps.len(),
{
    if ps.len() == 0 {
        Seq::empty()
    } else {
        let rest = present_props(ps.drop_last());
        match ps.last() {
            Some(p) => rest.push(p),
            None => rest,
        }
    }
}

/// `p` is a present property named `name`.
pub open spec fn prop_named(p: Option<PropView>, name: Seq<char>) -> bool {
    match p {
        Some((n, _)) => n == name,
        None => false,
    }
}

/// `c` is a present child named `name`.
pub open spec fn child_named(c: Option<NodeView>, name: Seq<char>) -> bool {
    match c {
        Some(n) => n.name.inner == name,
        None => false,
    }
}

/// Index of the first present property named `name` at or after `k`.
pub open spec fn first_prop_from(ps: Seq<Option<PropView>>, name: Seq<char>, k: int) -> Option<int>
    decreases ps.len() - k,
{
    if k < 0 || k >= ps.len() {
        None
    } else if prop_named(ps[k], name) {
        Some(k)
    } else {
        first_prop_from(ps, name, k + 1)
    }
}

/// Index of the first present property named `name`.
pub open spec fn first_prop(ps: Seq<Option<PropView>>, name: Seq<char>) -> Option<int> {
    first_prop_from(ps, name, 0)
}

pub proof fn lemma_first_prop_from(ps: Seq<Option<PropView>>, name: Seq<char>, k: int)
    requires
        0 <= k,
    ensures
        first_prop_from(ps, name, k) matches Some(i) ==> k <= i < ps.len() && prop_named(
            ps[i],
            name,
        ) && forall|j: int| k <= j < i ==> !prop_named(#[trigger] ps[j], name),
        first_prop_from(ps, name, k) is None ==> forall|i: int|
            k <= i < ps.len() ==> !prop_named(#[trigger] ps[i], name),
    decreases ps.len() - k,
{
    if k < ps.len() {
        lemma_first_prop_from(ps, name, k + 1);
    }
}

/// Index of the first present child named `name` at or after `k`.
pub open spec fn first_child_from(cs: Seq<Option<NodeView>>, name: Seq<char>, k: int) -> Option<int>
    decreases cs.len() - k,
{
    if k < 0 || k >= cs.len() {
        None
    } else if child_named(cs[k], name) {
        Some(k)
    } else {
        first_child_from(cs, name, k + 1)
    }
}

/// The node `v` with its `k`-th property removed.
pub open spec fn without_prop(v: NodeView, k: int) -> NodeView {
    NodeView { properties: v.properties.update(k, None), ..v }
}

/// The node `v` with its `k`-th child removed.
pub open spec fn without_child(v: NodeView, k: int) -> NodeView {
    NodeView { children: v.children.update(k, None), ..v }
}

impl<'c> ConfigNode<'c> {
    /// The node made of the given parts.
    fn assemble(
        arguments: Vec<Spanned<ConfigValue<'c>>>,
        argument_count: usize,
        properties: Vec<Option<(&'c str, Spanned<ConfigValue<'c>>)>>,
        children: Vec<Option<ConfigNode<'c>>>,
        name: Spanned<&'c str>,
    ) -> (res: Self)
        requires
            arguments@.len() <= argument_count,
        ensures
            res@ == (NodeView {
                name: name@,
                arguments: args_view(arguments@),
                argument_count: argument_count as nat,
                properties: props_view(properties@),
                children: children_view(children@),
            }),
    {
        let res = ConfigNode { arguments, argument_count, properties, children, name };
        proof {
            res.lemma_view();
        }
        res
    }

    /// The parts the node is made of.
    fn into_parts(self) -> (parts: (
        Vec<Spanned<ConfigValue<'c>>>,
        usize,
        Vec<Option<(&'c str, Spanned<ConfigValue<'c>>)>>,
        Vec<Option<ConfigNode<'c>>>,
        Spanned<&'c str>,
    ))
        ensures
            parts.0@.len() <= parts.1,
            self@ == (NodeView {
                name: parts.4@,
                arguments: args_view(parts.0@),
                argument_count: parts.1 as nat,
                properties: props_view(parts.2@),
                children: children_view(parts.3@),
            }),
    {
        proof {
            use_type_invariant(&self);
            self.lemma_view();
        }
        let ConfigNode { arguments, argument_count, properties, children, name } = self;
        (arguments, argument_count, properties, children, name)
    }

    /// Takes the node out of `self`, leaving an empty node.
    fn take_out(&mut self) -> (res: Self)
        ensures
            res@ == old(self)@,
    {
        let mut tmp = ConfigNode::new("");
        std::mem::swap(self, &mut tmp);
        tmp
    }

    /// A node named `name` without arguments, properties or children.
    pub fn new(name: &'c str) -> (res: Self)
        ensures
            res@ == (NodeView {
                name: Spanned { span: Span { start: 0, end: 0 }, inner: name@ },
                arguments: Seq::empty(),
                argument_count: 0,
                properties: Seq::empty(),
                children: Seq::empty(),
            }),
    {
        let res = ConfigNode::from_parts(Spanned::null_span(name), Vec::new(), Vec::new(), Vec::new());
        assert(res@.arguments =~= Seq::<Spanned<ValueView>>::empty());
        assert(res@.properties =~= Seq::<Option<PropView>>::empty());
        assert(res@.children =~= Seq::<Option<NodeView>>::empty());
        res
    }

    /// Adds `child` as the last child.
    pub fn with_child(self, child: ConfigNode<'c>) -> (res: Self)
        ensures
            res@ == (NodeView { children: self@.children.push(Some(child@)), ..self@ }),
    {
        let ghost old_view = self@;
        let (a, c, p, mut ch, n) = self.into_parts();
        proof {
            assert(children_view(ch@.push(Some(child))) =~= children_view(ch@).push(Some(child@)));
        }
        ch.push(Some(child));
        ConfigNode::assemble(a, c, p, ch, n)
    }

    /// Adds the property `name` with `value` (with a null span) as the last property.
    pub fn with_prop(self, name: &'c str, value: ConfigValue<'c>) -> (res: Self)
        ensures
            res@ == (NodeView {
                properties: self@.properties.push(
                    Some((name@, Spanned { span: Span { start: 0, end: 0 }, inner: value@ })),
                ),
                ..self@
            }),
    {
        let (a, c, mut p, ch, n) = self.into_parts();
        let prop = Some((name, Spanned::null_span(value)));
        proof {
            assert(props_view(p@.push(prop)) =~= props_view(p@).push(prop_view(prop)));
        }
        p.push(prop);
        ConfigNode::assemble(a, c, p, ch, n)
    }

    /// Adds `value` (with a null span) as the last argument.
    pub fn with_arg(self, value: ConfigValue<'c>) -> (res: Self)
        requires
            self@.argument_count < usize::MAX,
        ensures
            res@ == (NodeView {
                arguments: self@.arguments.push(
                    Spanned { span: Span { start: 0, end: 0 }, inner: value@ },
                ),
                argument_count: self@.argument_count + 1,
                ..self@
            }),
    {
        let (mut a, c, p, ch, n) = self.into_parts();
        let arg = Spanned::null_span(value);
        proof {
            assert(args_view(a@.push(arg)) =~= args_view(a@).push(arg@));
        }
        a.push(arg);
        ConfigNode::assemble(a, c + 1, p, ch, n)
    }
}

} // verus!

verus! {

pub open spec fn refs_view<'a, 'c>(v: Seq<&'a ConfigNode<'c>>) -> Seq<NodeView> {
    v.map_values(|c: &'a ConfigNode<'c>| c@)
}

pub open spec fn prop_refs_view<'a, 'c>(v: Seq<(&'c str, &'a Spanned<ConfigValue<'c>>)>) -> Seq<
    PropView,
> {
    v.map_values(|p: (&'c str, &'a Spanned<ConfigValue<'c>>)| (p.0@, p.1@))
}

/// Index of the first property of `ps` at or after `k` that is still there.
pub open spec fn first_present_prop(ps: Seq<Option<PropView>>, k: int) -> Option<int>
    decreases ps.len() - k,
{
    if k < 0 || k >= ps.len() {
        None
    } else if ps[k] is Some {
        Some(k)
    } else {
        first_present_prop(ps, k + 1)
    }
}

pub proof fn lemma_first_present_prop(ps: Seq<Option<PropView>>, k: int)
    requires
        0 <= k,
    ensures
        first_present_prop(ps, k) matches Some(i) ==> k <= i < ps.len() && ps[i] is Some
            && forall|j: int| k <= j < i ==> (#[trigger] ps[j]) is None,
        first_present_prop(ps, k) is None ==> forall|i: int|
            k <= i < ps.len() ==> (#[trigger] ps[i]) is None,
    decreases ps.len() - k,
{
    if k < ps.len() {
        lemma_first_present_prop(ps, k + 1);
    }
}

/// The error for a node that is not empty when it is terminated: it still
/// has a child, an argument or a property, checked in that order; `None`
/// when it is empty.
pub open spec fn spec_terminate_error(v: NodeView) -> Option<ConfigErrorView> {
    if present_nodes(v.children).len() > 0 {
        Some(ConfigErrorView::UnexpectedNode { span: present_nodes(v.children)[0].name.span })
    } else if v.arguments.len() > 0 {
        Some(
            ConfigErrorView::TooManyArguments {
                arg: v.arguments[0].span,
                expected: (v.argument_count - v.arguments.len()) as usize,
                found: v.argument_count as usize,
            },
        )
    } else {
        match first_present_prop(v.properties, 0) {
            Some(k) => Some(
                ConfigErrorView::UnexpectedProperty {
                    span: v.properties[k]->Some_0.1.span,
                    prop_name: v.properties[k]->Some_0.0,
                },
            ),
            None => None,
        }
    }
}

pub proof fn lemma_present_nodes_empty(cs: Seq<Option<NodeView>>)
    ensures
        present_nodes(cs).len() == 0 <==> forall|i: int| 0 <= i < cs.len() ==> #[trigger] cs[i] is None,
        present_nodes(cs).len() <= cs.len(),
    decreases cs.len(),
{
    if cs.len() > 0 {
        lemma_present_nodes_empty(cs.drop_last());
        if present_nodes(cs).len() == 0 {
            assert forall|i: int| 0 <= i < cs.len() implies #[trigger] cs[i] is None by {
                if i < cs.len() - 1 {
                    assert(cs.drop_last()[i] == cs[i]);
                }
            }
        }
        if forall|i: int| 0 <= i < cs.len() ==> #[trigger] cs[i] is None {
            assert forall|i: int| 0 <= i < cs.drop_last().len() implies #[trigger] cs.drop_last()[i] is None by {
                assert(cs.drop_last()[i] == cs[i]);
            }
            assert(cs[cs.len() - 1] is None);
        }
    }
}

/// The first present node of `cs` is at index `k`.
pub proof fn lemma_present_nodes_first(cs: Seq<Option<NodeView>>, k: int)
    requires
        0 <= k < cs.len(),
        cs[k] is Some,
        forall|i: int| 0 <= i < k ==> #[trigger] cs[i] is None,
    ensures
        present_nodes(cs).len() > 0,
        present_nodes(cs)[0] == cs[k]->Some_0,
    decreases cs.len(),
{
    if k < cs.len() - 1 {
        lemma_present_nodes_first(cs.drop_last(), k);
        assert(cs.drop_last()[k] == cs[k]);
    } else {
        lemma_present_nodes_empty(cs.drop_last());
        assert forall|i: int| 0 <= i < cs.drop_last().len() implies #[trigger] cs.drop_last()[i] is None by {
            assert(cs.drop_last()[i] == cs[i]);
        }
    }
}

impl<'c> ConfigNode<'c> {
    /// The children that are still there, in order.
    pub fn children(&self) -> (res: Vec<&ConfigNode<'c>>)
        ensures
            refs_view(res@) == present_nodes(self@.children),
    {
        proof {
            self.lemma_view();
        }
        let mut res: Vec<&ConfigNode<'c>> = Vec::new();
        let mut i: usize = 0;
        proof {
            assert(self@.children.take(0) =~= Seq::<Option<NodeView>>::empty());
            assert(refs_view(res@) =~= Seq::<NodeView>::empty());
        }
        while i < self.children.len()
            invariant
                i <= self.children@.len(),
                self@.children == children_view(self.children@),
                refs_view(res@) == present_nodes(self@.children.take(i as int)),
            decreases self.children@.len() - i,
        {
            let ghost before = res@;
            match &self.children[i] {
                Some(c) => {
                    res.push(c);
                    proof {
                        assert(refs_view(res@) =~= refs_view(before).push(c@));
                    }
                },
                None => {},
            }
            proof {
                assert(self@.children.take(i + 1).drop_last() =~= self@.children.take(i as int));
            }
            i = i + 1;
        }
        proof {
            assert(self@.children.take(i as int) =~= self@.children);
        }
        res
    }

    /// The properties that are still there, in order.
    pub fn properties(&self) -> (res: Vec<(&'c str, &Spanned<ConfigValue<'c>>)>)
        ensures
            prop_refs_view(res@) == present_props(self@.properties),
    {
        proof {
            self.lemma_view();
        }
        let mut res: Vec<(&'c str, &Spanned<ConfigValue<'c>>)> = Vec::new();
        let mut i: usize = 0;
        proof {
            assert(self@.properties.take(0) =~= Seq::<Option<PropView>>::empty());
            assert(prop_refs_view(res@) =~= Seq::<PropView>::empty());
        }
        while i < self.properties.len()
            invariant
                i <= self.properties@.len(),
                self@.properties == props_view(self.properties@),
                prop_refs_view(res@) == present_props(self@.properties.take(i as int)),
            decreases self.properties@.len() - i,
        {
            let ghost before = res@;
            match &self.properties[i] {
                Some((n, v)) => {
                    res.push((*n, v));
                    proof {
                        assert(prop_refs_view(res@) =~= prop_refs_view(before).push((n@, v@)));
                    }
                },
                None => {},
            }
            proof {
                assert(self@.properties.take(i + 1).drop_last() =~= self@.properties.take(
                    i as int,
                ));
            }
            i = i + 1;
        }
        proof {
            assert(self@.properties.take(i as int) =~= self@.properties);
        }
        res
    }

    /// Index of the first property that is still there and is named `name`.
    fn find_property(&self, name: &str) -> (res: Option<usize>)
        ensures
            match res {
                Some(k) => first_prop(self@.properties, name@) == Some(k as int),
                None => first_prop(self@.properties, name@) is None,
            },
    {
        proof {
            self.lemma_view();
        }
        let mut i: usize = 0;
        while i < self.properties.len()
            invariant
                i <= self.properties@.len(),
                self@.properties == props_view(self.properties@),
                first_prop(self@.properties, name@) == first_prop_from(
                    self@.properties,
                    name@,
                    i as int,
                ),
            decreases self.properties@.len() - i,
        {
            match &self.properties[i] {
                Some((n, _)) => {
                    if str_eq(n, name) {
                        return Some(i);
                    }
                },
                None => {},
            }
            i = i + 1;
        }
        None
    }

    /// The value of the first property named `name` that is still there.
    pub fn get_property(&self, name: &str) -> (res: Option<Spanned<ConfigValue<'c>>>)
        ensures
            match first_prop(self@.properties, name@) {
                Some(k) => res matches Some(v) && self@.properties[k] == Some((name@, v@)),
                None => res is None,
            },
    {
        proof {
            self.lemma_view();
            lemma_first_prop_from(self@.properties, name@, 0);
        }
        match self.find_property(name) {
            Some(k) => {
                match &self.properties[k] {
                    Some((_, v)) => Some(*v),
                    None => None,
                }
            },
            None => None,
        }
    }

    /// Removes the first property named `name` that is still there and
    /// returns its value.
    pub fn consume_optional_property(&mut self, name: &str) -> (res: Option<Spanned<ConfigValue<'c>>>)
        ensures
            match first_prop(old(self)@.properties, name@) {
                Some(k) => res matches Some(v) && old(self)@.properties[k] == Some((name@, v@))
                    && final(self)@ == without_prop(old(self)@, k),
                None => res is None && final(self)@ == old(self)@,
            },
    {
        proof {
            self.lemma_view();
            lemma_first_prop_from(self@.properties, name@, 0);
        }
        match self.find_property(name) {
            None => None,
            Some(k) => {
                let me = self.take_out();
                let (a, c, mut p, ch, n) = me.into_parts();
                let value = match p[k] {
                    Some((_, v)) => v,
                    None => {
                        proof {
                            assert(false);
                        }
                        Spanned::null_span(ConfigValue::Bool(false))
                    },
                };
                proof {
                    assert(props_view(p@.update(k as int, None)) =~= props_view(p@).update(
                        k as int,
                        None,
                    ));
                }
                p.set(k, None);
                *self = ConfigNode::assemble(a, c, p, ch, n);
                Some(value)
            },
        }
    }

    /// Like [`ConfigNode::consume_optional_property`], with an error when the
    /// property is missing.
    pub fn consume_property(&mut self, name: &str) -> (res: Result<Spanned<ConfigValue<'c>>, ConfigError>)
        ensures
            match first_prop(old(self)@.properties, name@) {
                Some(k) => res matches Ok(v) && old(self)@.properties[k] == Some((name@, v@))
                    && final(self)@ == without_prop(old(self)@, k),
                None => res matches Err(e) && e@ == (ConfigErrorView::ExpectedProperty {
                    node: old(self)@.name.span,
                    prop_name: name@,
                }) && final(self)@ == old(self)@,
            },
    {
        match self.consume_optional_property(name) {
            Some(v) => Ok(v),
            None => Err(ConfigError::expected_property(self, name)),
        }
    }

    /// Removes the last argument that is still there and returns it.
    pub fn consume_optional_argument(&mut self) -> (res: Option<Spanned<ConfigValue<'c>>>)
        ensures
            old(self)@.arguments.len() > 0 ==> (res matches Some(v) && v@ == old(self)@.arguments.last() && final(self)@ == (NodeView {
                arguments: old(self)@.arguments.drop_last(),
                ..old(self)@
            })),
            old(self)@.arguments.len() == 0 ==> res is None && final(self)@ == old(self)@,
    {
        let me = self.take_out();
        let (mut a, c, p, ch, n) = me.into_parts();
        proof {
            if a@.len() > 0 {
                assert(args_view(a@.drop_last()) =~= args_view(a@).drop_last());
            }
        }
        let r = a.pop();
        *self = ConfigNode::assemble(a, c, p, ch, n);
        r
    }

    /// Like [`ConfigNode::consume_optional_argument`], with an error when no
    /// argument is left.
    pub fn consume_argument(&mut self) -> (res: Result<Spanned<ConfigValue<'c>>, ConfigError>)
        requires
            old(self)@.arguments.len() > 0 || old(self)@.argument_count < usize::MAX,
        ensures
            old(self)@.arguments.len() > 0 ==> (res matches Ok(v) && v@ == old(self)@.arguments.last() && final(self)@ == (NodeView {
                arguments: old(self)@.arguments.drop_last(),
                ..old(self)@
            })),
            old(self)@.arguments.len() == 0 ==> (res matches Err(e) && e@ == (
            ConfigErrorView::ExpectedArgument {
                node: old(self)@.name.span,
                expected: (old(self)@.argument_count + 1) as usize,
                found: old(self)@.argument_count as usize,
            }) && final(self)@ == old(self)@),
    {
        match self.consume_optional_argument() {
            Some(v) => Ok(v),
            None => Err(ConfigError::expected_argument(self)),
        }
    }

    /// Checks that the node is empty: no child, argument or property is left.
    /// After a node is terminated it can't be consumed further.
    pub fn terminate(&mut self) -> (res: Result<(), ConfigError>)
        ensures
            final(self)@ == old(self)@,
            match spec_terminate_error(old(self)@) {
                Some(ev) => res matches Err(e) && e@ == ev,
                None => res is Ok,
            },
    {
        proof {
            use_type_invariant(&*self);
            self.lemma_view();
            lemma_present_nodes_empty(self@.children);
        }
        let mut i: usize = 0;
        while i < self.children.len()
            invariant
                i <= self.children@.len(),
                self@.children == children_view(self.children@),
                forall|k: int| 0 <= k < i ==> #[trigger] self@.children[k] is None,
            decreases self.children@.len() - i,
        {
            match &self.children[i] {
                Some(c) => {
                    proof {
                        lemma_present_nodes_first(self@.children, i as int);
                    }
                    return Err(ConfigError::unexpected_node(c, crate::allowed::AllowedNodeNames::empty()));
                },
                None => {},
            }
            i = i + 1;
        }
        proof {
            lemma_present_nodes_empty(self@.children);
        }
        if self.arguments.len() > 0 {
            return Err(
                ConfigError::TooManyArguments {
                    arg: self.arguments[0].span,
                    expected: self.argument_count - self.arguments.len(),
                    found: self.argument_count,
                },
            );
        }
        let mut k: usize = 0;
        while k < self.properties.len()
            invariant
                k <= self.properties@.len(),
                self@.properties == props_view(self.properties@),
                first_present_prop(self@.properties, 0) == first_present_prop(self@.properties, k as int),
                self@ == old(self)@,
                present_nodes(self@.children).len() == 0,
                self@.arguments.len() == 0,
            decreases self.properties@.len() - k,
        {
            match &self.properties[k] {
                Some((name, value)) => {
                    proof {
                        assert(self@.properties[k as int] == Some((name@, value@)));
                    }
                    return Err(
                        ConfigError::UnexpectedProperty {
                            span: value.span,
                            prop_name: String::from_str(name),
                        },
                    );
                },
                None => {},
            }
            k = k + 1;
        }
        Ok(())
    }
}

} // verus!

verus! {

/// `c` is a present child whose name `names` allows.
pub open spec fn child_allowed(c: Option<NodeView>, names: NamesView) -> bool {
    match c {
        Some(n) => spec_is_allowed(names, n.name.inner),
        None => false,
    }
}

/// Index of the first present child at or after `k` whose name `names` allows.
pub open spec fn first_allowed_from(cs: Seq<Option<NodeView>>, names: NamesView, k: int) -> Option<
    int,
>
    decreases cs.len() - k,
{
    if k < 0 || k >= cs.len() {
        None
    } else if child_allowed(cs[k], names) {
        Some(k)
    } else {
        first_allowed_from(cs, names, k + 1)
    }
}

/// The present children of `cs` whose names `names` allows, in order.
pub open spec fn allowed_nodes(cs: Seq<Option<NodeView>>, names: NamesView) -> Seq<NodeView>
    decreases cs.len(),
{
    if cs.len() == 0 {
        Seq::empty()
    } else {
        let rest = allowed_nodes(cs.drop_last(), names);
        if child_allowed(cs.last(), names) {
            rest.push(cs.last()->Some_0)
        } else {
            rest
        }
    }
}

/// `cs` with the present children whose names `names` allows removed.
pub open spec fn remove_allowed(cs: Seq<Option<NodeView>>, names: NamesView) -> Seq<Option<NodeView>> {
    cs.map_values(
        |c: Option<NodeView>|
            if child_allowed(c, names) {
                None
            } else {
                c
            },
    )
}

pub proof fn lemma_first_allowed_from(cs: Seq<Option<NodeView>>, names: NamesView, k: int)
    requires
        0 <= k,
    ensures
        first_allowed_from(cs, names, k) matches Some(i) ==> k <= i < cs.len() && child_allowed(
            cs[i],
            names,
        ) && forall|j: int| k <= j < i ==> !child_allowed(#[trigger] cs[j], names),
        first_allowed_from(cs, names, k) is None ==> forall|i: int|
            k <= i < cs.len() ==> !child_allowed(#[trigger] cs[i], names),
    decreases cs.len() - k,
{
    if k < cs.len() {
        lemma_first_allowed_from(cs, names, k + 1);
    }
}

impl<'c> ConfigNode<'c> {
    /// Index of the first child that is still there and whose name `names` allows.
    fn find_allowed_child(&self, names: &AllowedNodeNames) -> (res: Option<usize>)
        ensures
            match res {
                Some(k) => first_allowed_from(self@.children, names@, 0) == Some(k as int),
                None => first_allowed_from(self@.children, names@, 0) is None,
            },
    {
        proof {
            self.lemma_view();
        }
        let mut i: usize = 0;
        while i < self.children.len()
            invariant
                i <= self.children@.len(),
                self@.children == children_view(self.children@),
                first_allowed_from(self@.children, names@, 0) == first_allowed_from(
                    self@.children,
                    names@,
                    i as int,
                ),
            decreases self.children@.len() - i,
        {
            match &self.children[i] {
                Some(c) => {
                    if names.is_allowed(c.name()) {
                        return Some(i);
                    }
                },
                None => {},
            }
            i = i + 1;
        }
        None
    }

    /// Index of the first child that is still there and is named `name`.
    fn find_child(&self, name: &str) -> (res: Option<usize>)
        ensures
            match res {
                Some(k) => first_child_from(self@.children, name@, 0) == Some(k as int),
                None => first_child_from(self@.children, name@, 0) is None,
            },
    {
        proof {
            self.lemma_view();
        }
        let mut i: usize = 0;
        while i < self.children.len()
            invariant
                i <= self.children@.len(),
                self@.children == children_view(self.children@),
                first_child_from(self@.children, name@, 0) == first_child_from(
                    self@.children,
                    name@,
                    i as int,
                ),
            decreases self.children@.len() - i,
        {
            match &self.children[i] {
                Some(c) => {
                    if str_eq(c.name(), name) {
                        return Some(i);
                    }
                },
                None => {},
            }
            i = i + 1;
        }
        None
    }

    /// Removes the child at index `k`, which is there, and returns it.
    fn take_child(&mut self, k: usize) -> (res: ConfigNode<'c>)
        requires
            k < old(self)@.children.len(),
            old(self)@.children[k as int] is Some,
        ensures
            old(self)@.children[k as int] == Some(res@),
            final(self)@ == without_child(old(self)@, k as int),
    {
        let me = self.take_out();
        let (a, c, p, mut ch, n) = me.into_parts();
        let mut slot: Option<ConfigNode<'c>> = None;
        let ghost ch0 = ch@;
        ch.set_and_swap(k, &mut slot);
        proof {
            assert(children_view(ch@) =~= children_view(ch0).update(k as int, None));
        }
        *self = ConfigNode::assemble(a, c, p, ch, n);
        match slot {
            Some(child) => child,
            None => {
                proof {
                    assert(false);
                }
                ConfigNode::new("")
            },
        }
    }

    /// Removes the first child named `name` that is still there and returns it.
    pub fn consume_child_optional(&mut self, name: &str) -> (res: Option<ConfigNode<'c>>)
        ensures
            match first_child_from(old(self)@.children, name@, 0) {
                Some(k) => res matches Some(c) && old(self)@.children[k] == Some(c@) && final(self)@ == without_child(old(self)@, k),
                None => res is None && final(self)@ == old(self)@,
            },
    {
        match self.find_child(name) {
            Some(k) => {
                proof {
                    lemma_first_child_from(old(self)@.children, name@, 0);
                }
                Some(self.take_child(k))
            },
            None => None,
        }
    }

    /// Like [`ConfigNode::consume_child_optional`], with an error when there
    /// is no such child.
    pub fn consume_child(&mut self, name: &str) -> (res: Result<ConfigNode<'c>, ConfigError>)
        ensures
            match first_child_from(old(self)@.children, name@, 0) {
                Some(k) => res matches Ok(c) && old(self)@.children[k] == Some(c@) && final(self)@ == without_child(old(self)@, k),
                None => res matches Err(e) && e@ == (ConfigErrorView::ExpectedChildren {
                    parent: old(self)@.name.span,
                    node_names: name@,
                }) && final(self)@ == old(self)@,
            },
    {
        match self.consume_child_optional(name) {
            Some(c) => Ok(c),
            None => Err(
                ConfigError::ExpectedChildren {
                    parent: self.name_span(),
                    node_names: String::from_str(name),
                },
            ),
        }
    }

    /// Removes the first child that is still there and whose name `names`
    /// allows, and returns it.
    pub fn consume_optional_child_matching(&mut self, names: &AllowedNodeNames) -> (res: Option<
        ConfigNode<'c>,
    >)
        ensures
            match first_allowed_from(old(self)@.children, names@, 0) {
                Some(k) => res matches Some(c) && old(self)@.children[k] == Some(c@) && final(self)@ == without_child(old(self)@, k),
                None => res is None && final(self)@ == old(self)@,
            },
    {
        match self.find_allowed_child(names) {
            Some(k) => {
                proof {
                    lemma_first_allowed_from(old(self)@.children, names@, 0);
                }
                Some(self.take_child(k))
            },
            None => None,
        }
    }

    /// Removes all children that are still there and whose names `names`
    /// allows, and returns them in order.
    pub fn consume_children_matching(&mut self, names: &AllowedNodeNames) -> (res: Vec<ConfigNode<'c>>)
        ensures
            res@.map_values(|c: ConfigNode<'c>| c@) == allowed_nodes(old(self)@.children, names@),
            final(self)@ == (NodeView {
                children: remove_allowed(old(self)@.children, names@),
                ..old(self)@
            }),
    {
        let me = self.take_out();
        let (a, c, p, mut ch, n) = me.into_parts();
        let ghost cs = children_view(ch@);
        let mut res: Vec<ConfigNode<'c>> = Vec::new();
        let mut i: usize = 0;
        proof {
            assert(cs.take(0) =~= Seq::<Option<NodeView>>::empty());
            assert(res@.map_values(|c: ConfigNode<'c>| c@) =~= Seq::<NodeView>::empty());
        }
        while i < ch.len()
            invariant
                i <= ch@.len(),
                cs.len() == ch@.len(),
                forall|k: int| 0 <= k < i ==> #[trigger] children_view(ch@)[k] == remove_allowed(cs, names@)[k],
                forall|k: int| i <= k < ch@.len() ==> #[trigger] children_view(ch@)[k] == cs[k],
                res@.map_values(|c: ConfigNode<'c>| c@) == allowed_nodes(cs.take(i as int), names@),
            decreases ch@.len() - i,
        {
            let allowed = match &ch[i] {
                Some(child) => names.is_allowed(child.name()),
                None => false,
            };
            proof {
                assert(cs.take(i + 1).drop_last() =~= cs.take(i as int));
                assert(children_view(ch@)[i as int] == cs[i as int]);
            }
            if allowed {
                let ghost before = res@;
                let ghost prev = ch@;
                let mut slot: Option<ConfigNode<'c>> = None;
                ch.set_and_swap(i, &mut slot);
                proof {
                    assert forall|k: int| 0 <= k < ch@.len() && k != i implies #[trigger] children_view(ch@)[k]
                        == children_view(prev)[k] by {
                        assert(ch@[k] == prev[k]);
                    }
                    assert(children_view(ch@)[i as int] == remove_allowed(cs, names@)[i as int]);
                }
                match slot {
                    Some(child) => {
                        res.push(child);
                        proof {
                            assert(res@.map_values(|c: ConfigNode<'c>| c@) =~= before.map_values(
                                |c: ConfigNode<'c>| c@,
                            ).push(child@));
                        }
                    },
                    None => {},
                }
            }
            i = i + 1;
        }
        proof {
            assert(cs.take(i as int) =~= cs);
            assert(children_view(ch@) =~= remove_allowed(cs, names@));
        }
        *self = ConfigNode::assemble(a, c, p, ch, n);
        res
    }
}

pub proof fn lemma_first_child_from(cs: Seq<Option<NodeView>>, name: Seq<char>, k: int)
    requires
        0 <= k,
    ensures
        first_child_from(cs, name, k) matches Some(i) ==> k <= i < cs.len() && child_named(
            cs[i],
            name,
        ),
    decreases cs.len() - k,
{
    if k < cs.len() {
        lemma_first_child_from(cs, name, k + 1);
    }
}

} // verus!

verus! {

/// What `consume_arguments_into` did with the arguments `args`: it read
/// them in order, one call of `I::consume_value` each, with outcomes `rs`.
/// Every read but the last succeeded; on success all arguments were read and
/// the results are theirs, in order; on an error the last read gave it.
pub open spec fn arguments_read<'c, I: ParseConfigValue<'c>>(
    args: Seq<Spanned<ConfigValue<'c>>>,
    rs: Seq<Result<I, ConfigError>>,
    res: Result<Vec<I>, ConfigError>,
) -> bool {
    &&& rs.len() <= args.len()
    &&& forall|j: int| 0 <= j < rs.len() ==> #[trigger] call_ensures(I::consume_value, (args[j],), rs[j])
    &&& forall|j: int| 0 <= j < rs.len() - 1 ==> (#[trigger] rs[j]) is Ok
    &&& match res {
        Ok(v) => rs.len() == args.len() && v@.len() == rs.len() && forall|j: int|
            0 <= j < rs.len() ==> rs[j] == Ok::<I, ConfigError>(#[trigger] v@[j]),
        Err(e) => rs.len() > 0 && rs.last() == Err::<I, ConfigError>(e),
    }
}

/// Positions of the children of `cs` that are still there and whose names
/// `names` allows, in order.
pub open spec fn allowed_positions(cs: Seq<Option<NodeView>>, names: NamesView) -> Seq<int>
    decreases cs.len(),
{
    if cs.len() == 0 {
        Seq::empty()
    } else {
        let rest = allowed_positions(cs.drop_last(), names);
        if child_allowed(cs.last(), names) {
            rest.push(cs.len() - 1)
        } else {
            rest
        }
    }
}

/// Proof of the step from the first `i` children to the first `i + 1`.
pub proof fn lemma_allowed_positions_step(cs: Seq<Option<NodeView>>, names: NamesView, i: int)
    requires
        0 <= i < cs.len(),
    ensures
        allowed_positions(cs.take(i + 1), names) == (if child_allowed(cs[i], names) {
            allowed_positions(cs.take(i), names).push(i)
        } else {
            allowed_positions(cs.take(i), names)
        }),
{
    assert(cs.take(i + 1).drop_last() =~= cs.take(i));
    assert(cs.take(i + 1).last() == cs[i]);
}

/// Proof that the positions among the first `i` children begin the positions
/// among all of them.
pub proof fn lemma_allowed_positions_prefix(cs: Seq<Option<NodeView>>, names: NamesView, i: int)
    requires
        0 <= i <= cs.len(),
    ensures
        allowed_positions(cs, names).take(allowed_positions(cs.take(i), names).len() as int)
            == allowed_positions(cs.take(i), names),
        allowed_positions(cs.take(i), names).len() <= allowed_positions(cs, names).len(),
    decreases cs.len() - i,
{
    if i == cs.len() {
        assert(cs.take(i) =~= cs);
        assert(allowed_positions(cs, names).take(allowed_positions(cs, names).len() as int)
            =~= allowed_positions(cs, names));
    } else {
        lemma_allowed_positions_prefix(cs, names, i + 1);
        lemma_allowed_positions_step(cs, names, i);
        let a = allowed_positions(cs.take(i), names);
        let b = allowed_positions(cs.take(i + 1), names);
        let p = allowed_positions(cs, names);
        assert(p.take(a.len() as int) =~= b.take(a.len() as int));
        assert(b.take(a.len() as int) =~= a);
    }
}

/// `T::consume_node` gives `r` when it is handed a reference to the node `c`
/// holds, with `terminate == true`.
pub open spec fn read_gives<'c, T: ParseConfigNode<'c>>(c: Option<NodeView>, r: Result<T, ConfigError>) -> bool {
    exists|m: &mut ConfigNode<'c>| Some((*m)@) == c && #[trigger] call_ensures(T::consume_node, (m, true), r)
}

/// What `consume_children_into` did with the children `cs`: it read the
/// children that `names` allows, in order, one call of `T::consume_node`
/// with `terminate == true` each, with outcomes `rs`. Every read but the last
/// succeeded; on success all allowed children were read and the results are
/// theirs, in order; on an error the last read gave it. The children read
/// are gone from `after`, the others stay.
pub open spec fn children_read<'c, T: ParseConfigNode<'c>>(
    cs: Seq<Option<NodeView>>,
    names: NamesView,
    rs: Seq<Result<T, ConfigError>>,
    res: Result<Vec<T>, ConfigError>,
    after: Seq<Option<NodeView>>,
) -> bool {
    let pos = allowed_positions(cs, names);
    &&& rs.len() <= pos.len()
    &&& forall|j: int| 0 <= j < rs.len() ==> #[trigger] read_gives::<T>(cs[pos[j]], rs[j])
    &&& forall|j: int| 0 <= j < rs.len() - 1 ==> (#[trigger] rs[j]) is Ok
    &&& after.len() == cs.len()
    &&& match res {
        Ok(v) => rs.len() == pos.len() && v@.len() == rs.len() && (forall|j: int|
            0 <= j < rs.len() ==> rs[j] == Ok::<T, ConfigError>(#[trigger] v@[j])) && after
            == remove_allowed(cs, names),
        Err(e) => rs.len() > 0 && rs.last() == Err::<T, ConfigError>(e) && forall|k: int|
            0 <= k < cs.len() ==> #[trigger] after[k] == (if k <= pos[rs.len() - 1] && child_allowed(
                cs[k],
                names,
            ) {
                None
            } else {
                cs[k]
            }),
    }
}

impl<'c> ConfigNode<'c> {
    /// Reads every child that is still there and whose name `T` allows into
    /// `T`, in order, terminating each. Stops at the first error; the children
    /// read up to then, and the one that failed, are removed.
    pub fn consume_children_into<T: ParseConfigNode<'c>>(&mut self) -> (res: Result<Vec<T>, ConfigError>)
        ensures
            final(self)@.name == old(self)@.name,
            final(self)@.arguments == old(self)@.arguments,
            final(self)@.argument_count == old(self)@.argument_count,
            final(self)@.properties == old(self)@.properties,
            exists|names: NamesView, rs: Seq<Result<T, ConfigError>>|
                names_of::<T>(names) && #[trigger] children_read::<T>(
                    old(self)@.children,
                    names,
                    rs,
                    res,
                    final(self)@.children,
                ),
    {
        let names = T::allowed_node_names();
        let ghost old_view = self@;
        let ghost cs = self@.children;
        let ghost pos = allowed_positions(cs, names@);
        let ghost mut rs: Seq<Result<T, ConfigError>> = Seq::empty();
        let mut out: Vec<T> = Vec::new();
        let mut i: usize = 0;
        proof {
            self.lemma_view();
            assert(cs.take(0) =~= Seq::<Option<NodeView>>::empty());
            assert(names_of::<T>(names@));
            assert(pos.take(0) =~= Seq::<int>::empty());
        }
        while i < self.children.len()
            invariant
                names_of::<T>(names@),
                old_view == old(self)@,
                i <= self@.children.len(),
                self@.children.len() == cs.len(),
                cs == old_view.children,
                pos == allowed_positions(cs, names@),
                self@.name == old_view.name,
                self@.arguments == old_view.arguments,
                self@.argument_count == old_view.argument_count,
                self@.properties == old_view.properties,
                forall|k: int| 0 <= k < i ==> #[trigger] self@.children[k] == remove_allowed(cs, names@)[k],
                forall|k: int| i <= k < cs.len() ==> #[trigger] self@.children[k] == cs[k],
                rs.len() <= pos.len(),
                allowed_positions(cs.take(i as int), names@) == pos.take(rs.len() as int),
                out@.len() == rs.len(),
                forall|j: int| 0 <= j < rs.len() ==> #[trigger] rs[j] == Ok::<T, ConfigError>(out@[j]),
                forall|j: int| 0 <= j < rs.len() ==> #[trigger] read_gives::<T>(cs[pos[j]], rs[j]),
            decreases cs.len() - i,
        {
            proof {
                self.lemma_view();
                lemma_allowed_positions_step(cs, names@, i as int);
                lemma_allowed_positions_prefix(cs, names@, i + 1);
            }
            let allowed = match &self.children[i] {
                Some(c) => names.is_allowed(c.name()),
                None => false,
            };
            assert(self@.children[i as int] == cs[i as int]);
            if allowed {
                let ghost before = self@;
                let ghost n = rs.len();
                let mut child = self.take_child(i);
                proof {
                    assert forall|k: int| 0 <= k < cs.len() && k != i implies #[trigger] self@.children[k]
                        == before.children[k] by {}
                    assert(allowed_positions(cs.take(i + 1), names@) =~= pos.take(n as int).push(
                        i as int,
                    ));
                    assert(pos.take(n + 1 as int)[n as int] == pos[n as int]);
                    assert(pos[n as int] == i);
                }
                let r = T::consume_node(&mut child, true);
                let ghost gr = r;
                proof {
                    assert(exists|m: &mut ConfigNode<'c>|
                        Some((*m)@) == cs[pos[n as int]] && #[trigger] call_ensures(
                            T::consume_node,
                            (m, true),
                            gr,
                        ));
                    assert(read_gives::<T>(cs[pos[n as int]], gr));
                    let rs0 = rs;
                    rs = rs.push(gr);
                    assert forall|j: int| 0 <= j < rs.len() implies #[trigger] read_gives::<T>(
                        cs[pos[j]],
                        rs[j],
                    ) by {
                        if j < n {
                            assert(rs[j] == rs0[j]);
                            assert(read_gives::<T>(cs[pos[j]], rs0[j]));
                        } else {
                            assert(j == n);
                            assert(rs[j] == gr);
                        }
                    }
                    assert(pos.take(rs.len() as int) =~= pos.take(n as int).push(i as int));
                }
                match r {
                    Ok(t) => {
                        out.push(t);
                        proof {
                            assert forall|j: int| 0 <= j < rs.len() implies #[trigger] rs[j]
                                == Ok::<T, ConfigError>(out@[j]) by {
                                if j < n {
                                    assert(out@[j] == out@.drop_last()[j]);
                                }
                            }
                        }
                    },
                    Err(e) => {
                        proof {
                            assert(rs.last() == Err::<T, ConfigError>(e));
                            assert forall|k: int| 0 <= k < cs.len() implies #[trigger] self@.children[k]
                                == (if k <= pos[rs.len() - 1] && child_allowed(cs[k], names@) {
                                None
                            } else {
                                cs[k]
                            }) by {
                                if k < i {
                                    assert(self@.children[k] == remove_allowed(cs, names@)[k]);
                                }
                            }
                            assert(children_read::<T>(cs, names@, rs, Err(e), self@.children));
                        }
                        return Err(e);
                    },
                }
            } else {
                proof {
                    assert(allowed_positions(cs.take(i + 1), names@) =~= allowed_positions(
                        cs.take(i as int),
                        names@,
                    ));
                }
            }
            i = i + 1;
        }
        proof {
            assert(cs.take(i as int) =~= cs);
            assert(self@.children =~= remove_allowed(cs, names@));
            assert(pos.take(rs.len() as int).len() == pos.len());
            assert(children_read::<T>(cs, names@, rs, Ok(out), self@.children));
        }
        Ok(out)
    }

    /// Reads the first child that is still there and whose name `T` allows
    /// into `T` and removes it; `Ok(None)` when there is none.
    pub fn consume_optional_child_into<T: ParseConfigNode<'c>>(&mut self, terminate: bool) -> (res: Result<
        Option<T>,
        ConfigError,
    >)
        ensures
            exists|names: NamesView|
                #[trigger] names_of::<T>(names) && match first_allowed_from(
                    old(self)@.children,
                    names,
                    0,
                ) {
                    Some(k) => final(self)@ == without_child(old(self)@, k) && exists|
                        m: &mut ConfigNode<'c>,
                        r: Result<T, ConfigError>,
                    |
                        Some((*m)@) == old(self)@.children[k] && #[trigger] call_ensures(
                            T::consume_node,
                            (m, terminate),
                            r,
                        ) && res == with_some(r),
                    None => res matches Ok(None) && final(self)@ == old(self)@,
                },
    {
        let names = T::allowed_node_names();
        proof {
            assert(names_of::<T>(names@));
        }
        match self.consume_optional_child_matching(&names) {
            None => Ok(None),
            Some(child) => {
                let mut child = child;
                let r = T::consume_node(&mut child, terminate);
                match r {
                    Ok(t) => Ok(Some(t)),
                    Err(e) => Err(e),
                }
            },
        }
    }

    /// Like [`ConfigNode::consume_optional_child_into`], with an error when
    /// there is no such child.
    pub fn consume_child_into<T: ParseConfigNode<'c>>(&mut self, terminate: bool) -> (res: Result<
        T,
        ConfigError,
    >)
        ensures
            exists|names: NamesView|
                #[trigger] names_of::<T>(names) && match first_allowed_from(
                    old(self)@.children,
                    names,
                    0,
                ) {
                    Some(k) => final(self)@ == without_child(old(self)@, k) && exists|
                        m: &mut ConfigNode<'c>,
                    |
                        Some((*m)@) == old(self)@.children[k] && #[trigger] call_ensures(
                            T::consume_node,
                            (m, terminate),
                            res,
                        ),
                    None => final(self)@ == old(self)@ && exists|shown: NamesView|
                        #[trigger] names_of::<T>(shown) && (res matches Err(e) && e@
                            == (ConfigErrorView::ExpectedChildren {
                            parent: old(self)@.name.span,
                            node_names: spec_names_text(shown),
                        })),
                },
    {
        match self.consume_optional_child_into::<T>(terminate) {
            Ok(Some(t)) => Ok(t),
            Ok(None) => {
                let shown = T::allowed_node_names();
                proof {
                    assert(names_of::<T>(shown@));
                }
                Err(ConfigError::expected_children(self, shown))
            },
            Err(e) => Err(e),
        }
    }

    /// Reads the value of the first property named `name` that is still there
    /// into `T` and removes the property; `Ok(None)` when there is none.
    pub fn consume_optional_property_into<T: ParseConfigValue<'c>>(&mut self, name: &str) -> (res:
        Result<Option<T>, ConfigError>)
        ensures
            match first_prop(old(self)@.properties, name@) {
                Some(k) => final(self)@ == without_prop(old(self)@, k) && exists|
                    v: Spanned<ConfigValue<'c>>,
                    r: Result<T, ConfigError>,
                |
                    v@ == old(self)@.properties[k]->Some_0.1 && #[trigger] call_ensures(
                        T::consume_value,
                        (v,),
                        r,
                    ) && res == with_some(r),
                None => res matches Ok(None) && final(self)@ == old(self)@,
            },
    {
        match self.consume_optional_property(name) {
            None => Ok(None),
            Some(v) => {
                let r = T::consume_value(v);
                assert(call_ensures(T::consume_value, (v,), r));
                match r {
                    Ok(t) => Ok(Some(t)),
                    Err(e) => Err(e),
                }
            },
        }
    }

    /// Reads the last argument that is still there into `T` and removes it;
    /// `Ok(None)` when there is none.
    pub fn consume_optional_argument_into<T: ParseConfigValue<'c>>(&mut self) -> (res: Result<
        Option<T>,
        ConfigError,
    >)
        ensures
            old(self)@.arguments.len() > 0 ==> final(self)@ == (NodeView {
                arguments: old(self)@.arguments.drop_last(),
                ..old(self)@
            }) && exists|v: Spanned<ConfigValue<'c>>, r: Result<T, ConfigError>|
                v@ == old(self)@.arguments.last() && #[trigger] call_ensures(T::consume_value, (v,), r)
                    && res == with_some(r),
            old(self)@.arguments.len() == 0 ==> (res matches Ok(None) && final(self)@ == old(self)@),
    {
        match self.consume_optional_argument() {
            None => Ok(None),
            Some(v) => {
                let r = T::consume_value(v);
                assert(call_ensures(T::consume_value, (v,), r));
                match r {
                    Ok(t) => Ok(Some(t)),
                    Err(e) => Err(e),
                }
            },
        }
    }

    /// Removes all arguments that are still there and reads them into `I`,
    /// first to last. Stops at the first error.
    pub fn consume_arguments_into<I: ParseConfigValue<'c>>(&mut self) -> (res: Result<Vec<I>, ConfigError>)
        ensures
            final(self)@ == (NodeView { arguments: Seq::empty(), ..old(self)@ }),
            exists|args: Seq<Spanned<ConfigValue<'c>>>, rs: Seq<Result<I, ConfigError>>|
                args_view(args) == old(self)@.arguments && #[trigger] arguments_read::<I>(
                    args,
                    rs,
                    res,
                ),
    {
        let me = self.take_out();
        let (a, c, p, ch, n) = me.into_parts();
        let empty: Vec<Spanned<ConfigValue<'c>>> = Vec::new();
        proof {
            assert(args_view(empty@) =~= Seq::<Spanned<ValueView>>::empty());
        }
        *self = ConfigNode::assemble(empty, c, p, ch, n);
        let mut out: Vec<I> = Vec::new();
        let ghost mut rs: Seq<Result<I, ConfigError>> = Seq::empty();
        let mut i: usize = 0;
        while i < a.len()
            invariant
                i <= a@.len(),
                out@.len() == i,
                rs.len() == i,
                args_view(a@) == old(self)@.arguments,
                self@ == (NodeView { arguments: Seq::empty(), ..old(self)@ }),
                forall|k: int| 0 <= k < i ==> #[trigger] call_ensures(I::consume_value, (a@[k],), rs[k]),
                forall|k: int| 0 <= k < i ==> #[trigger] rs[k] == Ok::<I, ConfigError>(out@[k]),
            decreases a@.len() - i,
        {
            let r = I::consume_value(a[i]);
            let ghost gr = r;
            proof {
                assert(call_ensures(I::consume_value, (a@[i as int],), gr));
                let rs0 = rs;
                rs = rs.push(gr);
                assert forall|k: int| 0 <= k < i + 1 implies #[trigger] call_ensures(
                    I::consume_value,
                    (a@[k],),
                    rs[k],
                ) by {
                    if k < i {
                        assert(rs[k] == rs0[k]);
                    }
                }
            }
            match r {
                Ok(v) => {
                    out.push(v);
                    proof {
                        assert forall|k: int| 0 <= k < i + 1 implies #[trigger] rs[k]
                            == Ok::<I, ConfigError>(out@[k]) by {
                            if k < i {
                                assert(out@[k] == out@.drop_last()[k]);
                            }
                        }
                    }
                },
                Err(e) => {
                    proof {
                        assert(arguments_read::<I>(a@, rs, Err(e)));
                    }
                    return Err(e);
                },
            }
            i = i + 1;
        }
        proof {
            assert(arguments_read::<I>(a@, rs, Ok(out)));
        }
        Ok(out)
    }
}

} // verus!

verus! {

impl<'c> ConfigNode<'c> {
    /// A copy of the node and all its children.
    pub fn deep_clone(&self) -> (res: ConfigNode<'c>)
        ensures
            res@ == self@,
        decreases self,
    {
        proof {
            use_type_invariant(self);
            self.lemma_view();
        }
        let mut args: Vec<Spanned<ConfigValue<'c>>> = Vec::new();
        let mut i: usize = 0;
        while i < self.arguments.len()
            invariant
                i <= self.arguments@.len(),
                args@ == self.arguments@.take(i as int),
            decreases self.arguments@.len() - i,
        {
            args.push(self.arguments[i]);
            i = i + 1;
            proof {
                assert(args@ =~= self.arguments@.take(i as int));
            }
        }
        let mut props: Vec<Option<(&'c str, Spanned<ConfigValue<'c>>)>> = Vec::new();
        let mut i: usize = 0;
        while i < self.properties.len()
            invariant
                i <= self.properties@.len(),
                props@ == self.properties@.take(i as int),
            decreases self.properties@.len() - i,
        {
            props.push(self.properties[i]);
            i = i + 1;
            proof {
                assert(props@ =~= self.properties@.take(i as int));
            }
        }
        let mut children: Vec<Option<ConfigNode<'c>>> = Vec::new();
        let mut i: usize = 0;
        while i < self.children.len()
            invariant
                i <= self.children@.len(),
                children_view(children@) == children_view(self.children@.take(i as int)),
            decreases self.children@.len() - i,
        {
            let ghost before = children@;
            match &self.children[i] {
                Some(c) => {
                    let cc = c.deep_clone();
                    children.push(Some(cc));
                },
                None => {
                    children.push(None);
                },
            }
            proof {
                assert(children_view(children@) =~= children_view(before).push(
                    opt_node_view(self.children@[i as int]),
                ));
                assert(self.children@.take(i + 1) =~= self.children@.take(i as int).push(
                    self.children@[i as int],
                ));
                assert(children_view(self.children@.take(i + 1)) =~= children_view(
                    self.children@.take(i as int),
                ).push(opt_node_view(self.children@[i as int])));
            }
            i = i + 1;
        }
        proof {
            assert(self.arguments@.take(self.arguments@.len() as int) =~= self.arguments@);
            assert(self.properties@.take(self.properties@.len() as int) =~= self.properties@);
            assert(self.children@.take(self.children@.len() as int) =~= self.children@);
        }
        ConfigNode::assemble(args, self.argument_count, props, children, self.name)
    }
}

} // verus!

verus! {

/// Every property still in `a` has its value, disregarding spans, as the
/// value of the first property of that name still in `b`.
pub open spec fn props_within(a: Seq<Option<PropView>>, b: Seq<Option<PropView>>) -> bool {
    forall|k: int|
        0 <= k < a.len() && (#[trigger] a[k]) is Some ==> match first_prop(b, a[k]->Some_0.0) {
            Some(i) => b[i]->Some_0.1.inner == a[k]->Some_0.1.inner,
            None => false,
        }
}

/// The arguments agree, disregarding spans, as far as both go.
pub open spec fn args_agree(a: Seq<Spanned<ValueView>>, b: Seq<Spanned<ValueView>>) -> bool {
    forall|k: int| 0 <= k < a.len() && k < b.len() ==> (#[trigger] a[k]).inner == b[k].inner
}

/// `a` equals `b` disregarding spans, as far as [`ConfigNode::eq_no_span`]
/// compares: the names are equal, every property left in `a` is in `b` with
/// an equal value, the arguments agree as far as both go, and the children
/// left in `a` and in `b` agree pairwise as far as both go.
pub open spec fn spec_eq_no_span(a: NodeView, b: NodeView) -> bool
    decreases a, 0int,
{
    &&& a.name.inner == b.name.inner
    &&& props_within(a.properties, b.properties)
    &&& args_agree(a.arguments, b.arguments)
    &&& children_agree(a.children, 0, b.children, 0)
}

/// The children of `ac` from `i` and of `bc` from `j` that are still there
/// agree pairwise, as far as both go.
pub open spec fn children_agree(ac: Seq<Option<NodeView>>, i: int, bc: Seq<Option<NodeView>>, j: int) -> bool
    decreases ac, (ac.len() - i) + (bc.len() - j),
{
    if i < 0 || j < 0 || i >= ac.len() || j >= bc.len() {
        true
    } else if ac[i] is None {
        children_agree(ac, i + 1, bc, j)
    } else if bc[j] is None {
        children_agree(ac, i, bc, j + 1)
    } else {
        spec_eq_no_span(ac[i]->Some_0, bc[j]->Some_0) && children_agree(ac, i + 1, bc, j + 1)
    }
}

/// Whether two values are equal. A float is held as the text of its literal,
/// so two floats are equal when their texts are: `1.3` and `1.30` differ.
pub fn value_eq<'c>(a: &ConfigValue<'c>, b: &ConfigValue<'c>) -> (res: bool)
    ensures
        res == (a@ == b@),
{
    match (a, b) {
        (ConfigValue::String(x), ConfigValue::String(y)) => str_eq(x, y),
        (ConfigValue::Float(x), ConfigValue::Float(y)) => str_eq(x, y),
        (ConfigValue::Bool(x), ConfigValue::Bool(y)) => *x == *y,
        (ConfigValue::Int(x), ConfigValue::Int(y)) => *x == *y,
        _ => false,
    }
}

impl<'c> ConfigNode<'c> {
    /// Compares two nodes disregarding spans; see [`spec_eq_no_span`]. Values
    /// are compared by [`value_eq`], so floats compare by the text of their
    /// literals.
    pub fn eq_no_span(&self, other: &ConfigNode<'c>) -> (res: bool)
        ensures
            res == spec_eq_no_span(self@, other@),
        decreases self,
    {
        proof {
            self.lemma_view();
            other.lemma_view();
        }
        if !str_eq(self.name.inner, other.name.inner) {
            return false;
        }
        let mut k: usize = 0;
        while k < self.properties.len()
            invariant
                k <= self.properties@.len(),
                self@.name.inner == other@.name.inner,
                self@.properties == props_view(self.properties@),
                forall|q: int|
                    0 <= q < k && (#[trigger] self@.properties[q]) is Some ==> match first_prop(
                        other@.properties,
                        self@.properties[q]->Some_0.0,
                    ) {
                        Some(i) => other@.properties[i]->Some_0.1.inner
                            == self@.properties[q]->Some_0.1.inner,
                        None => false,
                    },
            decreases self.properties@.len() - k,
        {
            match &self.properties[k] {
                Some((n, v)) => {
                    proof {
                        lemma_first_prop_from(other@.properties, n@, 0);
                    }
                    proof {
                        assert(self@.properties[k as int] == Some((n@, v@)));
                    }
                    match other.get_property(n) {
                        Some(w) => {
                            if !value_eq(&w.inner, &v.inner) {
                                proof {
                                    assert(!props_within(self@.properties, other@.properties));
                                }
                                return false;
                            }
                        },
                        None => {
                            proof {
                                assert(!props_within(self@.properties, other@.properties));
                            }
                            return false;
                        },
                    }
                },
                None => {},
            }
            k = k + 1;
        }
        let mut k: usize = 0;
        while k < self.arguments.len() && k < other.arguments.len()
            invariant
                k <= self.arguments@.len(),
                self@.name.inner == other@.name.inner,
                props_within(self@.properties, other@.properties),
                self@.arguments == args_view(self.arguments@),
                other@.arguments == args_view(other.arguments@),
                forall|q: int|
                    0 <= q < k && q < other@.arguments.len() ==> (#[trigger] self@.arguments[q]).inner
                        == other@.arguments[q].inner,
            decreases self.arguments@.len() - k,
        {
            if !value_eq(&self.arguments[k].inner, &other.arguments[k].inner) {
                proof {
                    assert(self@.arguments[k as int].inner != other@.arguments[k as int].inner);
                    assert(!args_agree(self@.arguments, other@.arguments));
                }
                return false;
            }
            k = k + 1;
        }
        let mut i: usize = 0;
        let mut j: usize = 0;
        while i < self.children.len() && j < other.children.len()
            invariant
                i <= self.children@.len(),
                j <= other.children@.len(),
                self@.name.inner == other@.name.inner,
                props_within(self@.properties, other@.properties),
                args_agree(self@.arguments, other@.arguments),
                self@.children == children_view(self.children@),
                other@.children == children_view(other.children@),
                children_agree(self@.children, 0, other@.children, 0) == children_agree(
                    self@.children,
                    i as int,
                    other@.children,
                    j as int,
                ),
            decreases (self.children@.len() - i) + (other.children@.len() - j),
        {
            match &self.children[i] {
                None => {
                    i = i + 1;
                },
                Some(c1) => {
                    match &other.children[j] {
                        None => {
                            j = j + 1;
                        },
                        Some(c2) => {
                            if !c1.eq_no_span(c2) {
                                return false;
                            }
                            i = i + 1;
                            j = j + 1;
                        },
                    }
                },
            }
        }
        true
    }
}

} // verus!
