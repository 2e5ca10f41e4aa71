//! The `config` attributes on a field of a type that is read from a node.
//!
//! A field is marked with items such as `child`, `property("name")` or
//! `default` inside `#[config(..)]`. The items are given here as plain values:
//! the path of each item and what follows the path.
use vstd::prelude::*;

use crate::case::{pascal_to_kebab, spec_pascal_to_kebab};
use crate::text::{box_str_from, str_eq, string_push};

verus! {

/// What follows the path of an item inside `#[config(..)]`.
#[derive(Debug, Clone)]
pub enum MetaArg {
    /// Nothing: the item is a bare path.
    Nothing,
    /// A string literal in parentheses, with its value.
    Str(String),
    /// An identifier in parentheses.
    Ident(String),
    /// Parentheses that hold anything else, with the text of what they hold.
    Tokens(String),
    /// Anything else, such as `= value`.
    Other,
}

/// An item inside `#[config(..)]`.
#[derive(Debug, Clone)]
pub struct MetaItem {
    pub path: String,
    pub arg: MetaArg,
}

/// An attribute of a field: its path and, for a list attribute, its items.
#[derive(Debug, Clone)]
pub struct Attribute {
    pub path: String,
    pub items: Vec<MetaItem>,
}

/// How a field is read from a node.
#[derive(Debug)]
pub enum FieldHandeling {
    Child,
    Children,
    Property(Option<Box<str>>),
    Argument,
    Arguments,
    Flatten,
    Skip,
    NodeName,
    NodeNameSpanned,
}

/// What happens when a field is missing.
#[derive(Debug, Clone, Copy, PartialEq, Eq, Structural)]
pub enum DefaultHandeling {
    Error,
    DefaultTrait,
}

/// The handling and default behaviour of a field.
#[derive(Debug)]
pub struct FieldAttributes {
    pub handeling: FieldHandeling,
    pub default: DefaultHandeling,
}

/// Why the attributes of a field are refused. `attr` and `item` are the
/// positions of the offending attribute and of the item inside it.
#[derive(Debug)]
pub enum AttrError {
    /// Two handlings are given for one field.
    Conflict { attr: usize, item: usize, new: FieldHandeling, old: FieldHandeling },
    /// An item that is not known on a field.
    Unknown { attr: usize, item: usize },
    /// An item that is not known on a type or variant.
    UnknownVariant { attr: usize, item: usize },
    /// Parentheses that hold no single string literal; `at_end` when they hold
    /// nothing.
    ExpectedString { attr: usize, item: usize, at_end: bool },
    /// Something other than parentheses; `at_end` when nothing follows.
    ExpectedParentheses { attr: usize, item: usize, at_end: bool },
    /// An item followed by an argument it does not take.
    ExpectedComma { attr: usize, item: usize },
    /// A `node_name` that is neither a string, `auto`, `any` nor a type;
    /// `at_end` when its parentheses hold nothing.
    BadNodeName { attr: usize, item: usize, at_end: bool },
    /// An `impl_where` whose parentheses do not hold `where` predicates
    /// separated by commas; `message` says what is wrong.
    BadImplWhere { attr: usize, item: usize, message: String },
}

// ----- mathematical model -----

/// The mathematical content of a [`MetaArg`].
pub enum ArgView {
    Nothing,
    Str(Seq<char>),
    Ident(Seq<char>),
    Tokens(Seq<char>),
    Other,
}

/// The mathematical content of a [`MetaItem`].
pub struct MetaView {
    pub path: Seq<char>,
    pub arg: ArgView,
}

/// The mathematical content of an [`Attribute`].
pub struct AttributeView {
    pub path: Seq<char>,
    pub items: Seq<MetaView>,
}

/// The mathematical content of a [`FieldHandeling`].
pub enum HandelingView {
    Child,
    Children,
    Property(Option<Seq<char>>),
    Argument,
    Arguments,
    Flatten,
    Skip,
    NodeName,
    NodeNameSpanned,
}

/// The mathematical content of [`FieldAttributes`].
pub struct FieldAttributesView {
    pub handeling: HandelingView,
    pub default: DefaultHandeling,
}

/// The mathematical content of an [`AttrError`].
pub enum AttrErrorView {
    Conflict { attr: usize, item: usize, new: HandelingView, old: HandelingView },
    Unknown { attr: usize, item: usize },
    UnknownVariant { attr: usize, item: usize },
    ExpectedString { attr: usize, item: usize, at_end: bool },
    ExpectedParentheses { attr: usize, item: usize, at_end: bool },
    ExpectedComma { attr: usize, item: usize },
    BadNodeName { attr: usize, item: usize, at_end: bool },
    BadImplWhere { attr: usize, item: usize, message: Seq<char> },
}

impl View for MetaArg {
    type V = ArgView;

    open spec fn view(&self) -> ArgView {
        match self {
            MetaArg::Nothing => ArgView::Nothing,
            MetaArg::Str(s) => ArgView::Str(s@),
            MetaArg::Ident(s) => ArgView::Ident(s@),
            MetaArg::Tokens(s) => ArgView::Tokens(s@),
            MetaArg::Other => ArgView::Other,
        }
    }
}

impl View for MetaItem {
    type V = MetaView;

    open spec fn view(&self) -> MetaView {
        MetaView { path: self.path@, arg: self.arg@ }
    }
}

impl View for Attribute {
    type V = AttributeView;

    open spec fn view(&self) -> AttributeView {
        AttributeView { path: self.path@, items: self.items@.map_values(|m: MetaItem| m@) }
    }
}

impl View for FieldHandeling {
    type V = HandelingView;

    open spec fn view(&self) -> HandelingView {
        match self {
            FieldHandeling::Child => HandelingView::Child,
            FieldHandeling::Children => HandelingView::Children,
            FieldHandeling::Property(None) => HandelingView::Property(None),
            FieldHandeling::Property(Some(s)) => HandelingView::Property(Some(s@)),
            FieldHandeling::Argument => HandelingView::Argument,
            FieldHandeling::Arguments => HandelingView::Arguments,
            FieldHandeling::Flatten => HandelingView::Flatten,
            FieldHandeling::Skip => HandelingView::Skip,
            FieldHandeling::NodeName => HandelingView::NodeName,
            FieldHandeling::NodeNameSpanned => HandelingView::NodeNameSpanned,
        }
    }
}

impl View for FieldAttributes {
    type V = FieldAttributesView;

    open spec fn view(&self) -> FieldAttributesView {
        FieldAttributesView { handeling: self.handeling@, default: self.default }
    }
}

impl View for AttrError {
    type V = AttrErrorView;

    open spec fn view(&self) -> AttrErrorView {
        match self {
            AttrError::Conflict { attr, item, new, old } => AttrErrorView::Conflict {
                attr: *attr,
                item: *item,
                new: new@,
                old: old@,
            },
            AttrError::Unknown { attr, item } => AttrErrorView::Unknown { attr: *attr, item: *item },
            AttrError::UnknownVariant { attr, item } => AttrErrorView::UnknownVariant {
                attr: *attr,
                item: *item,
            },
            AttrError::ExpectedString { attr, item, at_end } => AttrErrorView::ExpectedString {
                attr: *attr,
                item: *item,
                at_end: *at_end,
            },
            AttrError::ExpectedParentheses { attr, item, at_end } => AttrErrorView::ExpectedParentheses {
                attr: *attr,
                item: *item,
                at_end: *at_end,
            },
            AttrError::BadNodeName { attr, item, at_end } => AttrErrorView::BadNodeName {
                attr: *attr,
                item: *item,
                at_end: *at_end,
            },
            AttrError::ExpectedComma { attr, item } => AttrErrorView::ExpectedComma {
                attr: *attr,
                item: *item,
            },
            AttrError::BadImplWhere { attr, item, message } => AttrErrorView::BadImplWhere {
                attr: *attr,
                item: *item,
                message: message@,
            },
        }
    }
}

/// The handling an item names, if its path names one: `Ok(None)` for a path
/// that names no handling, `Err` for `property` with an unusable argument.
pub open spec fn item_handeling(m: MetaView, attr: usize, item: usize) -> Result<
    Option<HandelingView>,
    AttrErrorView,
> {
    if m.path == "child"@ {
        Ok(Some(HandelingView::Child))
    } else if m.path == "children"@ {
        Ok(Some(HandelingView::Children))
    } else if m.path == "flatten"@ {
        Ok(Some(HandelingView::Flatten))
    } else if m.path == "property"@ {
        match m.arg {
            ArgView::Nothing => Ok(Some(HandelingView::Property(None))),
            ArgView::Str(s) => Ok(Some(HandelingView::Property(Some(s)))),
            ArgView::Ident(_) => Err(AttrErrorView::ExpectedString { attr, item, at_end: false }),
            ArgView::Tokens(t) => Err(AttrErrorView::ExpectedString { attr, item, at_end: t.len() == 0 }),
            ArgView::Other => Err(AttrErrorView::ExpectedParentheses { attr, item, at_end: false }),
        }
    } else if m.path == "argument"@ {
        Ok(Some(HandelingView::Argument))
    } else if m.path == "arguments"@ {
        Ok(Some(HandelingView::Arguments))
    } else if m.path == "skip"@ {
        Ok(Some(HandelingView::Skip))
    } else if m.path == "node_name"@ {
        Ok(Some(HandelingView::NodeName))
    } else if m.path == "node_name_spanned"@ {
        Ok(Some(HandelingView::NodeNameSpanned))
    } else {
        Ok(None)
    }
}

/// Whether an item, once read, left an argument behind it: everything but
/// `property` takes none.
pub open spec fn leaves_input(m: MetaView) -> bool {
    !(m.arg is Nothing) && m.path != "property"@
}

/// The state after the items read so far: the handling, if one was given,
/// and the default behaviour.
pub type AttrState = (Option<HandelingView>, DefaultHandeling);

/// Reads the item `m`, the `item`th of the `attr`th attribute, in state `st`.
pub open spec fn step_item(st: AttrState, m: MetaView, attr: usize, item: usize) -> Result<
    AttrState,
    AttrErrorView,
> {
    match item_handeling(m, attr, item) {
        Err(e) => Err(e),
        Ok(Some(h)) => match st.0 {
            Some(old) => Err(AttrErrorView::Conflict { attr, item, new: h, old }),
            None => if leaves_input(m) {
                Err(AttrErrorView::ExpectedComma { attr, item })
            } else {
                Ok((Some(h), st.1))
            },
        },
        Ok(None) => if m.path == "default"@ {
            if leaves_input(m) {
                Err(AttrErrorView::ExpectedComma { attr, item })
            } else {
                Ok((st.0, DefaultHandeling::DefaultTrait))
            }
        } else {
            Err(AttrErrorView::Unknown { attr, item })
        },
    }
}

/// Reads the first `n` items of the `attr`th attribute, whose items are `items`,
/// starting from the state `st`.
pub open spec fn fold_items(st: AttrState, items: Seq<MetaView>, attr: usize, n: int) -> Result<
    AttrState,
    AttrErrorView,
>
    decreases n,
{
    if n <= 0 {
        Ok(st)
    } else {
        match fold_items(st, items, attr, n - 1) {
            Ok(s) => step_item(s, items[n - 1], attr, (n - 1) as usize),
            Err(e) => Err(e),
        }
    }
}

/// Reads the first `n` attributes: the items of those whose path is `config`.
pub open spec fn fold_attrs(attrs: Seq<AttributeView>, n: int) -> Result<AttrState, AttrErrorView>
    decreases n,
{
    if n <= 0 {
        Ok((None, DefaultHandeling::Error))
    } else {
        match fold_attrs(attrs, n - 1) {
            Ok(s) => if attrs[n - 1].path == "config"@ {
                fold_items(s, attrs[n - 1].items, (n - 1) as usize, attrs[n - 1].items.len() as int)
            } else {
                Ok(s)
            },
            Err(e) => Err(e),
        }
    }
}

/// The attributes that `attrs` give a field: a field with no handling is a
/// property of its own name.
pub open spec fn spec_parse_attributes(attrs: Seq<AttributeView>) -> Result<
    FieldAttributesView,
    AttrErrorView,
> {
    match fold_attrs(attrs, attrs.len() as int) {
        Ok(s) => Ok(
            FieldAttributesView {
                handeling: match s.0 {
                    Some(h) => h,
                    None => HandelingView::Property(None),
                },
                default: s.1,
            },
        ),
        Err(e) => Err(e),
    }
}

/// The handling the path `path` with argument `arg` names (see
/// [`item_handeling`]).
fn read_handeling(m: &MetaItem, attr: usize, item: usize) -> (res: Result<
    Option<FieldHandeling>,
    AttrError,
>)
    ensures
        match item_handeling(m@, attr, item) {
            Ok(Some(h)) => res matches Ok(Some(r)) && r@ == h,
            Ok(None) => res matches Ok(None),
            Err(e) => res matches Err(re) && re@ == e,
        },
{
    let p = m.path.as_str();
    if str_eq(p, "child") {
        Ok(Some(FieldHandeling::Child))
    } else if str_eq(p, "children") {
        Ok(Some(FieldHandeling::Children))
    } else if str_eq(p, "flatten") {
        Ok(Some(FieldHandeling::Flatten))
    } else if str_eq(p, "property") {
        match &m.arg {
            MetaArg::Nothing => Ok(Some(FieldHandeling::Property(None))),
            MetaArg::Str(s) => Ok(Some(FieldHandeling::Property(Some(box_str_from(s.as_str()))))),
            MetaArg::Ident(_) => Err(AttrError::ExpectedString { attr, item, at_end: false }),
            MetaArg::Tokens(t) => Err(
                AttrError::ExpectedString { attr, item, at_end: t.unicode_len() == 0 },
            ),
            MetaArg::Other => Err(AttrError::ExpectedParentheses { attr, item, at_end: false }),
        }
    } else if str_eq(p, "argument") {
        Ok(Some(FieldHandeling::Argument))
    } else if str_eq(p, "arguments") {
        Ok(Some(FieldHandeling::Arguments))
    } else if str_eq(p, "skip") {
        Ok(Some(FieldHandeling::Skip))
    } else if str_eq(p, "node_name") {
        Ok(Some(FieldHandeling::NodeName))
    } else if str_eq(p, "node_name_spanned") {
        Ok(Some(FieldHandeling::NodeNameSpanned))
    } else {
        Ok(None)
    }
}

/// Whether the item leaves an argument behind it (see [`leaves_input`]).
fn item_leaves_input(m: &MetaItem) -> (res: bool)
    ensures
        res == leaves_input(m@),
{
    let bare = match &m.arg {
        MetaArg::Nothing => true,
        _ => false,
    };
    !bare && !str_eq(m.path.as_str(), "property")
}

/// The view of an optional handling.
pub open spec fn opt_handeling(h: &Option<FieldHandeling>) -> Option<HandelingView> {
    match h {
        Some(h) => Some(h@),
        None => None,
    }
}

/// Proof that an error stays an error when more items are read.
proof fn lemma_fold_items_err(st: AttrState, items: Seq<MetaView>, attr: usize, n: int, m: int)
    requires
        n <= m,
        fold_items(st, items, attr, n) is Err,
    ensures
        fold_items(st, items, attr, m) == fold_items(st, items, attr, n),
    decreases m - n,
{
    if n < m {
        lemma_fold_items_err(st, items, attr, n, m - 1);
    }
}

/// Proof that an error stays an error when more attributes are read.
proof fn lemma_fold_attrs_err(attrs: Seq<AttributeView>, n: int, m: int)
    requires
        n <= m,
        fold_attrs(attrs, n) is Err,
    ensures
        fold_attrs(attrs, m) == fold_attrs(attrs, n),
    decreases m - n,
{
    if n < m {
        lemma_fold_attrs_err(attrs, n, m - 1);
    }
}

/// Proof that an error at the `j`th item of the `i`th attribute is the
/// outcome of reading all attributes.
proof fn lemma_stop(attrs: Seq<AttributeView>, i: int, start: AttrState, j: int)
    requires
        0 <= i < attrs.len(),
        0 <= j < attrs[i].items.len(),
        attrs[i].path == "config"@,
        fold_attrs(attrs, i) == Ok::<AttrState, AttrErrorView>(start),
        fold_items(start, attrs[i].items, i as usize, j + 1) is Err,
    ensures
        fold_attrs(attrs, attrs.len() as int) == fold_items(start, attrs[i].items, i as usize, j + 1),
{
    let items = attrs[i].items;
    lemma_fold_items_err(start, items, i as usize, j + 1, items.len() as int);
    lemma_fold_attrs_err(attrs, i + 1, attrs.len() as int);
}

impl FieldAttributes {
    /// Reads the `config` attributes of a field. Other attributes are passed
    /// over. A field with no handling is read as a property of its own name;
    /// a field without `default` makes a missing value an error.
    pub fn parse(attrs: &Vec<Attribute>) -> (res: Result<FieldAttributes, AttrError>)
        ensures
            match spec_parse_attributes(attrs@.map_values(|a: Attribute| a@)) {
                Ok(v) => res matches Ok(r) && r@ == v,
                Err(e) => res matches Err(re) && re@ == e,
            },
    {
        let ghost av = attrs@.map_values(|a: Attribute| a@);
        let mut handeling: Option<FieldHandeling> = None;
        let mut default = DefaultHandeling::Error;
        let mut i: usize = 0;
        while i < attrs.len()
            invariant
                i <= attrs@.len(),
                av == attrs@.map_values(|a: Attribute| a@),
                fold_attrs(av, i as int) == Ok::<AttrState, AttrErrorView>(
                    (opt_handeling(&handeling), default),
                ),
            decreases attrs@.len() - i,
        {
            let attr = &attrs[i];
            proof {
                assert(av[i as int] == attr@);
            }
            if str_eq(attr.path.as_str(), "config") {
                let ghost items = attr@.items;
                let ghost start: AttrState = (opt_handeling(&handeling), default);
                let mut j: usize = 0;
                while j < attr.items.len()
                    invariant
                        j <= attr.items@.len(),
                        items == attr.items@.map_values(|m: MetaItem| m@),
                        av == attrs@.map_values(|a: Attribute| a@),
                        i < av.len(),
                        av[i as int] == attr@,
                        av[i as int].path == "config"@,
                        fold_attrs(av, i as int) == Ok::<AttrState, AttrErrorView>(start),
                        fold_items(start, items, i, j as int) == Ok::<AttrState, AttrErrorView>(
                            (opt_handeling(&handeling), default),
                        ),
                    decreases attr.items@.len() - j,
                {
                    let m = &attr.items[j];
                    proof {
                        assert(items[j as int] == m@);
                    }
                    match read_handeling(m, i, j) {
                        Err(e) => {
                            proof {
                                lemma_stop(av, i as int, start, j as int);
                            }
                            return Err(e);
                        },
                        Ok(Some(h)) => {
                            if handeling.is_some() {
                                let old = handeling.unwrap();
                                proof {
                                    lemma_stop(av, i as int, start, j as int);
                                }
                                return Err(AttrError::Conflict { attr: i, item: j, new: h, old });
                            }
                            if item_leaves_input(m) {
                                proof {
                                    lemma_stop(av, i as int, start, j as int);
                                }
                                return Err(AttrError::ExpectedComma { attr: i, item: j });
                            }
                            handeling = Some(h);
                        },
                        Ok(None) => {
                            if str_eq(m.path.as_str(), "default") {
                                if item_leaves_input(m) {
                                    proof {
                                        lemma_stop(av, i as int, start, j as int);
                                    }
                                    return Err(AttrError::ExpectedComma { attr: i, item: j });
                                }
                                default = DefaultHandeling::DefaultTrait;
                            } else {
                                proof {
                                    lemma_stop(av, i as int, start, j as int);
                                }
                                return Err(AttrError::Unknown { attr: i, item: j });
                            }
                        },
                    }
                    j = j + 1;
                }
            }
            proof {
                assert(av[i as int] == attr@);
            }
            i = i + 1;
        }
        let handeling = match handeling {
            Some(h) => h,
            None => FieldHandeling::Property(None),
        };
        Ok(FieldAttributes { handeling, default })
    }
}

impl DefaultHandeling {
    /// The code that handles a missing value: `?` passes the error on, the
    /// other form falls back to `Default::default()`.
    pub fn gen_code(self) -> (res: &'static str)
        ensures
            res@ == (match self {
                DefaultHandeling::Error => "?"@,
                DefaultHandeling::DefaultTrait => ".unwrap_or_else(|_|std::default::Default::default())"@,
            }),
    {
        match self {
            DefaultHandeling::Error => "?",
            DefaultHandeling::DefaultTrait => ".unwrap_or_else(|_|std::default::Default::default())",
        }
    }
}

/// What `char::escape_debug` yields for `c`: its escaped form as Rust's
/// `Debug` writes it.
pub uninterp spec fn char_escape_debug(c: char) -> Seq<char>;

/// `char::escape_debug`, its characters collected in order.
#[verifier::external_body]
fn escape_debug_chars(c: char) -> (res: Vec<char>)
    ensures
        res@ == char_escape_debug(c),
{
    c.escape_debug().collect()
}

/// The escaped form of `c` inside a quoted string, as the `Debug` form of a
/// string writes it: that of `char::escape_debug`, but for the single quote,
/// which stays as it is.
pub open spec fn escape_char(c: char) -> Seq<char> {
    if c == '\'' {
        seq![c]
    } else {
        char_escape_debug(c)
    }
}

/// The escaped form of `s` (see [`escape_char`]).
pub open spec fn escape(s: Seq<char>) -> Seq<char>
    decreases s.len(),
{
    if s.len() == 0 {
        Seq::empty()
    } else {
        escape(s.drop_last()) + escape_char(s.last())
    }
}

/// How a handling is written in messages.
pub open spec fn handeling_text(h: HandelingView) -> Seq<char> {
    match h {
        HandelingView::Child => "Child"@,
        HandelingView::Children => "Children"@,
        HandelingView::Property(None) => "Property(None)"@,
        HandelingView::Property(Some(s)) => "Property(Some(\""@ + escape(s) + "\"))"@,
        HandelingView::Argument => "Argument"@,
        HandelingView::Arguments => "Arguments"@,
        HandelingView::Flatten => "Flatten"@,
        HandelingView::Skip => "Skip"@,
        HandelingView::NodeName => "NodeName"@,
        HandelingView::NodeNameSpanned => "NodeNameSpanned"@,
    }
}

/// The start of a message about input that ended too early.
pub open spec fn end_prefix(at_end: bool) -> Seq<char> {
    if at_end {
        "unexpected end of input, "@
    } else {
        Seq::empty()
    }
}

/// The start of a message: [`end_prefix`].
fn start_message(at_end: bool) -> (res: String)
    ensures
        res@ == end_prefix(at_end),
{
    if at_end {
        String::from_str("unexpected end of input, ")
    } else {
        String::new()
    }
}

impl AttrErrorView {
    /// The message of the error.
    pub open spec fn message(self) -> Seq<char> {
        match self {
            AttrErrorView::Conflict { new, old, .. } => handeling_text(new) + " "@ + handeling_text(old)
                + " can't be used on the same field"@,
            AttrErrorView::Unknown { .. } => "Unknown attribute valid attributes are: child, children, property, property(\"prop name\"), argument, arguments, default, flatten and node_name"@,
            AttrErrorView::UnknownVariant { .. } => "Unknown variant attribute valid attributes are: impl_where, node_name"@,
            AttrErrorView::ExpectedString { at_end, .. } => end_prefix(at_end)
                + "expected string literal"@,
            AttrErrorView::ExpectedParentheses { at_end, .. } => end_prefix(at_end)
                + "expected parentheses"@,
            AttrErrorView::ExpectedComma { .. } => "expected `,`"@,
            AttrErrorView::BadNodeName { at_end, .. } => end_prefix(at_end)
                + "Unknown node_name value. valid values are node_name=auto node_name=any node_name=\"new name\" node_name=MyForwardType"@,
            AttrErrorView::BadImplWhere { message, .. } => message,
        }
    }
}

/// Appends the escaped form of `s` to `out`.
fn push_escaped(out: &mut String, s: &str)
    ensures
        final(out)@ == old(out)@ + escape(s@),
{
    let n = s.unicode_len();
    let mut i: usize = 0;
    proof {
        assert(s@.take(0) =~= Seq::<char>::empty());
        assert(out@ =~= old(out)@ + escape(s@.take(0)));
    }
    while i < n
        invariant
            n == s@.len(),
            i <= n,
            out@ == old(out)@ + escape(s@.take(i as int)),
        decreases n - i,
    {
        let c = s.get_char(i);
        let ghost before = out@;
        if c == '\'' {
            string_push(out, c);
        } else {
            let esc = escape_debug_chars(c);
            let mut k: usize = 0;
            while k < esc.len()
                invariant
                    k <= esc@.len(),
                    esc@ == char_escape_debug(c),
                    out@ == before + esc@.take(k as int),
                decreases esc@.len() - k,
            {
                string_push(out, esc[k]);
                assert(esc@.take(k + 1) =~= esc@.take(k as int).push(esc@[k as int]));
                k = k + 1;
            }
            assert(esc@.take(k as int) =~= esc@);
        }
        proof {
            assert(out@ =~= before + escape_char(c));
            let t = s@.take(i + 1);
            assert(t.drop_last() =~= s@.take(i as int));
            assert(t.last() == c);
            assert(out@ =~= old(out)@ + escape(t));
        }
        i = i + 1;
    }
    proof {
        assert(s@.take(n as int) =~= s@);
    }
}

impl FieldHandeling {
    /// Appends how the handling is written in messages to `out`.
    pub fn write_text(&self, out: &mut String)
        ensures
            final(out)@ == old(out)@ + handeling_text(self@),
    {
        match self {
            FieldHandeling::Child => out.append("Child"),
            FieldHandeling::Children => out.append("Children"),
            FieldHandeling::Property(None) => out.append("Property(None)"),
            FieldHandeling::Property(Some(name)) => {
                out.append("Property(Some(\"");
                push_escaped(out, &**name);
                out.append("\"))");
                assert(final(out)@ =~= old(out)@ + handeling_text(self@));
            },
            FieldHandeling::Argument => out.append("Argument"),
            FieldHandeling::Arguments => out.append("Arguments"),
            FieldHandeling::Flatten => out.append("Flatten"),
            FieldHandeling::Skip => out.append("Skip"),
            FieldHandeling::NodeName => out.append("NodeName"),
            FieldHandeling::NodeNameSpanned => out.append("NodeNameSpanned"),
        }
    }
}

impl AttrError {
    /// Returns the error message.
    pub fn to_string(&self) -> (res: String)
        ensures
            res@ == self@.message(),
    {
        match self {
            AttrError::Conflict { new, old, .. } => {
                let mut s = String::new();
                new.write_text(&mut s);
                s.append(" ");
                old.write_text(&mut s);
                s.append(" can't be used on the same field");
                s
            },
            AttrError::Unknown { .. } => String::from_str(
                "Unknown attribute valid attributes are: child, children, property, property(\"prop name\"), argument, arguments, default, flatten and node_name",
            ),
            AttrError::UnknownVariant { .. } => String::from_str(
                "Unknown variant attribute valid attributes are: impl_where, node_name",
            ),
            AttrError::ExpectedString { at_end, .. } => {
                let mut s = start_message(*at_end);
                s.append("expected string literal");
                s
            },
            AttrError::ExpectedParentheses { at_end, .. } => {
                let mut s = start_message(*at_end);
                s.append("expected parentheses");
                s
            },
            AttrError::ExpectedComma { .. } => String::from_str("expected `,`"),
            AttrError::BadNodeName { at_end, .. } => {
                let mut s = start_message(*at_end);
                s.append(
                    "Unknown node_name value. valid values are node_name=auto node_name=any node_name=\"new name\" node_name=MyForwardType",
                );
                s
            },
            AttrError::BadImplWhere { message, .. } => message.clone(),
        }
    }
}

// ----- attributes of a type or an enum variant -----

/// Where the node names of a type or an enum variant come from.
#[derive(Debug)]
pub enum VariantName {
    /// The kebab-case form of the name of the type or variant.
    FromVariant,
    /// A name of its own.
    Custom(Box<str>),
    /// The node names of another type, given by its text.
    FromType(String),
    /// Any node name.
    Any,
}

/// Predicates to add to the `where` clause of a derived impl, as text.
#[derive(Debug)]
pub struct ImplWhere {
    pub added_predicates: String,
}

/// The attributes of a type or an enum variant.
#[derive(Debug)]
pub struct VariantAttributes {
    pub name: VariantName,
    pub impl_where: Option<ImplWhere>,
}

/// The mathematical content of a [`VariantName`].
pub enum VariantNameView {
    FromVariant,
    Custom(Seq<char>),
    FromType(Seq<char>),
    Any,
}

/// The mathematical content of [`VariantAttributes`].
pub struct VariantAttributesView {
    pub name: VariantNameView,
    pub impl_where: Option<Seq<char>>,
}

impl View for VariantName {
    type V = VariantNameView;

    open spec fn view(&self) -> VariantNameView {
        match self {
            VariantName::FromVariant => VariantNameView::FromVariant,
            VariantName::Custom(s) => VariantNameView::Custom(s@),
            VariantName::FromType(t) => VariantNameView::FromType(t@),
            VariantName::Any => VariantNameView::Any,
        }
    }
}

impl View for VariantAttributes {
    type V = VariantAttributesView;

    open spec fn view(&self) -> VariantAttributesView {
        VariantAttributesView {
            name: self.name@,
            impl_where: match self.impl_where {
                Some(w) => Some(w.added_predicates@),
                None => None,
            },
        }
    }
}

/// Whether `text` is a Rust type (`syn::Type`).
pub uninterp spec fn parses_as_type(text: Seq<char>) -> bool;

/// `syn::parse_str::<syn::Type>`: whether `text` parses as a Rust type.
#[verifier::external_body]
fn is_type(text: &str) -> (res: bool)
    ensures
        res == parses_as_type(text@),
{
    syn::parse_str::<syn::Type>(text).is_ok()
}

/// The text of a string literal holding `s`.
pub open spec fn str_literal(s: Seq<char>) -> Seq<char> {
    "\""@ + escape(s) + "\""@
}

/// What a `node_name` item gives, the `item`th of the `attr`th attribute,
/// which holds `count` items.
pub open spec fn spec_node_name(m: MetaView, attr: usize, item: usize, count: int) -> Result<
    VariantNameView,
    AttrErrorView,
> {
    match m.arg {
        ArgView::Nothing => Err(
            AttrErrorView::ExpectedParentheses { attr, item, at_end: item == count - 1 },
        ),
        ArgView::Other => Err(AttrErrorView::ExpectedParentheses { attr, item, at_end: false }),
        ArgView::Str(s) => Ok(VariantNameView::Custom(s)),
        ArgView::Ident(t) => if t == "auto"@ {
            Ok(VariantNameView::FromVariant)
        } else if t == "any"@ {
            Ok(VariantNameView::Any)
        } else {
            Ok(VariantNameView::FromType(t))
        },
        ArgView::Tokens(t) => if t.len() == 0 {
            Err(AttrErrorView::BadNodeName { attr, item, at_end: true })
        } else if parses_as_type(t) {
            Ok(VariantNameView::FromType(t))
        } else {
            Err(AttrErrorView::BadNodeName { attr, item, at_end: false })
        },
    }
}

/// Why `text` is not a list of `where` predicates separated by commas, with
/// an optional trailing comma (`None` when it is one): the message of the
/// error that `syn` gives when it reads it so.
pub uninterp spec fn where_predicates_error(text: Seq<char>) -> Option<Seq<char>>;

/// `syn::parse::Parser::parse_str` with
/// `Punctuated::<syn::WherePredicate, syn::token::Comma>::parse_terminated`:
/// `None` when `text` is a list of `where` predicates separated by commas,
/// else the message of the error, as `syn` writes it.
#[verifier::external_body]
fn check_where_predicates(text: &str) -> (res: Option<String>)
    ensures
        match where_predicates_error(text@) {
            None => res is None,
            Some(m) => res matches Some(r) && r@ == m,
        },
{
    let parser = syn::punctuated::Punctuated::<syn::WherePredicate, syn::token::Comma>::parse_terminated;
    match syn::parse::Parser::parse_str(parser, text) {
        Ok(_) => None,
        Err(e) => Some(e.to_string()),
    }
}

/// The text `t` inside the parentheses of an `impl_where` item, when it holds
/// `where` predicates.
pub open spec fn checked_where(t: Seq<char>, attr: usize, item: usize) -> Result<Seq<char>, AttrErrorView> {
    match where_predicates_error(t) {
        None => Ok(t),
        Some(message) => Err(AttrErrorView::BadImplWhere { attr, item, message }),
    }
}

/// What an `impl_where` item gives: the text inside its parentheses, which
/// must be `where` predicates separated by commas.
pub open spec fn spec_impl_where(m: MetaView, attr: usize, item: usize, count: int) -> Result<
    Seq<char>,
    AttrErrorView,
> {
    match m.arg {
        ArgView::Nothing => Err(
            AttrErrorView::ExpectedParentheses { attr, item, at_end: item == count - 1 },
        ),
        ArgView::Other => Err(AttrErrorView::ExpectedParentheses { attr, item, at_end: false }),
        ArgView::Str(s) => checked_where(str_literal(s), attr, item),
        ArgView::Ident(t) => checked_where(t, attr, item),
        ArgView::Tokens(t) => checked_where(t, attr, item),
    }
}

/// Reads the item `m` of a type or variant attribute in state `st`.
pub open spec fn step_variant_item(
    st: VariantAttributesView,
    m: MetaView,
    attr: usize,
    item: usize,
    count: int,
) -> Result<VariantAttributesView, AttrErrorView> {
    if m.path == "impl_where"@ {
        match spec_impl_where(m, attr, item, count) {
            Ok(w) => Ok(VariantAttributesView { impl_where: Some(w), ..st }),
            Err(e) => Err(e),
        }
    } else if m.path == "node_name"@ {
        match spec_node_name(m, attr, item, count) {
            Ok(n) => Ok(VariantAttributesView { name: n, ..st }),
            Err(e) => Err(e),
        }
    } else {
        Err(AttrErrorView::UnknownVariant { attr, item })
    }
}

/// Reads the first `n` items of the `attr`th attribute, whose items are `items`.
pub open spec fn fold_variant_items(
    st: VariantAttributesView,
    items: Seq<MetaView>,
    attr: usize,
    n: int,
) -> Result<VariantAttributesView, AttrErrorView>
    decreases n,
{
    if n <= 0 {
        Ok(st)
    } else {
        match fold_variant_items(st, items, attr, n - 1) {
            Ok(s) => step_variant_item(s, items[n - 1], attr, (n - 1) as usize, items.len() as int),
            Err(e) => Err(e),
        }
    }
}

/// Reads the first `n` attributes of a type or variant: the items of those
/// whose path is `config`.
pub open spec fn fold_variant_attrs(attrs: Seq<AttributeView>, n: int) -> Result<
    VariantAttributesView,
    AttrErrorView,
>
    decreases n,
{
    if n <= 0 {
        Ok(VariantAttributesView { name: VariantNameView::FromVariant, impl_where: None })
    } else {
        match fold_variant_attrs(attrs, n - 1) {
            Ok(s) => if attrs[n - 1].path == "config"@ {
                fold_variant_items(s, attrs[n - 1].items, (n - 1) as usize, attrs[n - 1].items.len() as int)
            } else {
                Ok(s)
            },
            Err(e) => Err(e),
        }
    }
}

/// The attributes that `attrs` give a type or variant.
pub open spec fn spec_parse_variant_attributes(attrs: Seq<AttributeView>) -> Result<
    VariantAttributesView,
    AttrErrorView,
> {
    fold_variant_attrs(attrs, attrs.len() as int)
}

/// Proof that an error stays an error when more items are read.
proof fn lemma_fold_variant_items_err(
    st: VariantAttributesView,
    items: Seq<MetaView>,
    attr: usize,
    n: int,
    m: int,
)
    requires
        n <= m,
        fold_variant_items(st, items, attr, n) is Err,
    ensures
        fold_variant_items(st, items, attr, m) == fold_variant_items(st, items, attr, n),
    decreases m - n,
{
    if n < m {
        lemma_fold_variant_items_err(st, items, attr, n, m - 1);
    }
}

/// Proof that an error stays an error when more attributes are read.
proof fn lemma_fold_variant_attrs_err(attrs: Seq<AttributeView>, n: int, m: int)
    requires
        n <= m,
        fold_variant_attrs(attrs, n) is Err,
    ensures
        fold_variant_attrs(attrs, m) == fold_variant_attrs(attrs, n),
    decreases m - n,
{
    if n < m {
        lemma_fold_variant_attrs_err(attrs, n, m - 1);
    }
}

/// Proof that an error at the `j`th item of the `i`th attribute is the
/// outcome of reading all attributes.
proof fn lemma_variant_stop(attrs: Seq<AttributeView>, i: int, start: VariantAttributesView, j: int)
    requires
        0 <= i < attrs.len(),
        0 <= j < attrs[i].items.len(),
        attrs[i].path == "config"@,
        fold_variant_attrs(attrs, i) == Ok::<VariantAttributesView, AttrErrorView>(start),
        fold_variant_items(start, attrs[i].items, i as usize, j + 1) is Err,
    ensures
        fold_variant_attrs(attrs, attrs.len() as int) == fold_variant_items(
            start,
            attrs[i].items,
            i as usize,
            j + 1,
        ),
{
    let items = attrs[i].items;
    lemma_fold_variant_items_err(start, items, i as usize, j + 1, items.len() as int);
    lemma_fold_variant_attrs_err(attrs, i + 1, attrs.len() as int);
}

/// Reads a `node_name` item (see [`spec_node_name`]).
fn read_node_name(m: &MetaItem, attr: usize, item: usize, count: usize) -> (res: Result<
    VariantName,
    AttrError,
>)
    requires
        item < count,
    ensures
        match spec_node_name(m@, attr, item, count as int) {
            Ok(n) => res matches Ok(r) && r@ == n,
            Err(e) => res matches Err(re) && re@ == e,
        },
{
    match &m.arg {
        MetaArg::Nothing => Err(AttrError::ExpectedParentheses { attr, item, at_end: item + 1 == count }),
        MetaArg::Other => Err(AttrError::ExpectedParentheses { attr, item, at_end: false }),
        MetaArg::Str(s) => Ok(VariantName::Custom(box_str_from(s.as_str()))),
        MetaArg::Ident(t) => if str_eq(t.as_str(), "auto") {
            Ok(VariantName::FromVariant)
        } else if str_eq(t.as_str(), "any") {
            Ok(VariantName::Any)
        } else {
            Ok(VariantName::FromType(t.clone()))
        },
        MetaArg::Tokens(t) => if t.unicode_len() == 0 {
            Err(AttrError::BadNodeName { attr, item, at_end: true })
        } else if is_type(t.as_str()) {
            Ok(VariantName::FromType(t.clone()))
        } else {
            Err(AttrError::BadNodeName { attr, item, at_end: false })
        },
    }
}

/// Appends the text of a string literal holding `s` to `out`.
pub fn push_str_literal(out: &mut String, s: &str)
    ensures
        final(out)@ == old(out)@ + str_literal(s@),
{
    out.append("\"");
    push_escaped(out, s);
    out.append("\"");
    assert(final(out)@ =~= old(out)@ + str_literal(s@));
}

/// Reads an `impl_where` item (see [`spec_impl_where`]).
fn read_impl_where(m: &MetaItem, attr: usize, item: usize, count: usize) -> (res: Result<
    String,
    AttrError,
>)
    requires
        item < count,
    ensures
        match spec_impl_where(m@, attr, item, count as int) {
            Ok(w) => res matches Ok(r) && r@ == w,
            Err(e) => res matches Err(re) && re@ == e,
        },
{
    let text = match &m.arg {
        MetaArg::Nothing => {
            return Err(AttrError::ExpectedParentheses { attr, item, at_end: item + 1 == count });
        },
        MetaArg::Other => {
            return Err(AttrError::ExpectedParentheses { attr, item, at_end: false });
        },
        MetaArg::Str(s) => {
            let mut out = String::new();
            push_str_literal(&mut out, s.as_str());
            assert(out@ =~= str_literal(s@));
            out
        },
        MetaArg::Ident(t) => t.clone(),
        MetaArg::Tokens(t) => t.clone(),
    };
    match check_where_predicates(text.as_str()) {
        None => Ok(text),
        Some(message) => Err(AttrError::BadImplWhere { attr, item, message }),
    }
}

/// The view of optional added predicates.
pub open spec fn opt_where(w: &Option<ImplWhere>) -> Option<Seq<char>> {
    match w {
        Some(w) => Some(w.added_predicates@),
        None => None,
    }
}

impl VariantAttributes {
    /// Reads the `config` attributes of a type or an enum variant: its node
    /// name and the predicates to add to the `where` clause. Other attributes
    /// are passed over.
    pub fn parse(attrs: &Vec<Attribute>) -> (res: Result<VariantAttributes, AttrError>)
        ensures
            match spec_parse_variant_attributes(attrs@.map_values(|a: Attribute| a@)) {
                Ok(v) => res matches Ok(r) && r@ == v,
                Err(e) => res matches Err(re) && re@ == e,
            },
    {
        let ghost av = attrs@.map_values(|a: Attribute| a@);
        let mut name = VariantName::FromVariant;
        let mut impl_where: Option<ImplWhere> = None;
        let mut i: usize = 0;
        while i < attrs.len()
            invariant
                i <= attrs@.len(),
                av == attrs@.map_values(|a: Attribute| a@),
                fold_variant_attrs(av, i as int) == Ok::<VariantAttributesView, AttrErrorView>(
                    VariantAttributesView { name: name@, impl_where: opt_where(&impl_where) },
                ),
            decreases attrs@.len() - i,
        {
            let attr = &attrs[i];
            proof {
                assert(av[i as int] == attr@);
            }
            if str_eq(attr.path.as_str(), "config") {
                let ghost items = attr@.items;
                let ghost start = VariantAttributesView { name: name@, impl_where: opt_where(&impl_where) };
                let count = attr.items.len();
                let mut j: usize = 0;
                while j < count
                    invariant
                        count == attr.items@.len(),
                        j <= count,
                        items == attr.items@.map_values(|m: MetaItem| m@),
                        av == attrs@.map_values(|a: Attribute| a@),
                        i < av.len(),
                        av[i as int] == attr@,
                        av[i as int].path == "config"@,
                        fold_variant_attrs(av, i as int) == Ok::<VariantAttributesView, AttrErrorView>(start),
                        fold_variant_items(start, items, i, j as int) == Ok::<VariantAttributesView, AttrErrorView>(
                            VariantAttributesView { name: name@, impl_where: opt_where(&impl_where) },
                        ),
                    decreases count - j,
                {
                    let m = &attr.items[j];
                    proof {
                        assert(items[j as int] == m@);
                    }
                    if str_eq(m.path.as_str(), "impl_where") {
                        match read_impl_where(m, i, j, count) {
                            Ok(w) => {
                                impl_where = Some(ImplWhere { added_predicates: w });
                            },
                            Err(e) => {
                                proof {
                                    lemma_variant_stop(av, i as int, start, j as int);
                                }
                                return Err(e);
                            },
                        }
                    } else if str_eq(m.path.as_str(), "node_name") {
                        match read_node_name(m, i, j, count) {
                            Ok(n) => {
                                name = n;
                            },
                            Err(e) => {
                                proof {
                                    lemma_variant_stop(av, i as int, start, j as int);
                                }
                                return Err(e);
                            },
                        }
                    } else {
                        proof {
                            lemma_variant_stop(av, i as int, start, j as int);
                        }
                        return Err(AttrError::UnknownVariant { attr: i, item: j });
                    }
                    j = j + 1;
                }
            }
            i = i + 1;
        }
        Ok(VariantAttributes { name, impl_where })
    }

    /// The expression that gives the node names of the type or variant named
    /// `variant_name`.
    pub fn node_names(&self, variant_name: &str) -> (res: String)
        ensures
            res@ == spec_node_names(self@.name, variant_name@),
    {
        let mut out = String::new();
        self.write_node_names(variant_name, &mut out);
        assert(out@ =~= spec_node_names(self@.name, variant_name@));
        out
    }

    /// Appends the expression that gives the node names of the type or variant
    /// named `variant_name` to `out`.
    pub fn write_node_names(&self, variant_name: &str, out: &mut String)
        ensures
            final(out)@ == old(out)@ + spec_node_names(self@.name, variant_name@),
    {
        match &self.name {
            VariantName::Any => {
                out.append("config_parser::AllowedNodeNames::any()");
            },
            VariantName::FromVariant => {
                let name = pascal_to_kebab(String::from_str(variant_name));
                out.append("config_parser::AllowedNodeNames::from_single(");
                push_str_literal(out, name.as_str());
                out.append(")");
            },
            VariantName::Custom(name) => {
                out.append("config_parser::AllowedNodeNames::from_single(");
                push_str_literal(out, &**name);
                out.append(")");
            },
            VariantName::FromType(ty) => {
                out.append("<");
                out.append(ty.as_str());
                out.append(" as config_parser::ParseConfigNode>::allowed_node_names()");
            },
        }
        assert(final(out)@ =~= old(out)@ + spec_node_names(self@.name, variant_name@));
    }
}

impl ImplWhere {
    /// Adds the predicates to the predicates of a `where` clause.
    pub fn extend_where_clause(self, predicates: &mut Vec<String>)
        ensures
            final(predicates)@.len() == old(predicates)@.len() + 1,
            forall|k: int| 0 <= k < old(predicates)@.len() ==> #[trigger] final(predicates)@[k] == old(predicates)@[k],
            final(predicates)@.last()@ == self.added_predicates@,
    {
        predicates.push(self.added_predicates);
    }
}

/// The expression that gives the node names a type or variant named
/// `variant_name` is read from.
pub open spec fn spec_node_names(name: VariantNameView, variant_name: Seq<char>) -> Seq<char> {
    match name {
        VariantNameView::Any => "config_parser::AllowedNodeNames::any()"@,
        VariantNameView::FromVariant => "config_parser::AllowedNodeNames::from_single("@ + str_literal(
            spec_pascal_to_kebab(variant_name),
        ) + ")"@,
        VariantNameView::Custom(n) => "config_parser::AllowedNodeNames::from_single("@ + str_literal(
            n,
        ) + ")"@,
        VariantNameView::FromType(t) => "<"@ + t + " as config_parser::ParseConfigNode>::allowed_node_names()"@,
    }
}

} // verus!
