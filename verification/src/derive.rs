//! The code that the `ConfigNode` and `ConfigValue` derives write.
//!
//! A type is given as plain values: its name, the text of its generics, its
//! attributes, and its fields or variants with the text of each field's
//! type. The derived impl comes back as Rust source text.
use vstd::prelude::*;

use crate::attributes::{
    push_str_literal, spec_node_names, spec_parse_attributes, spec_parse_variant_attributes,
    str_literal, AttrError, AttrErrorView, Attribute, AttributeView, DefaultHandeling,
    FieldAttributes, FieldAttributesView, FieldHandeling, HandelingView, VariantAttributes,
    VariantAttributesView,
};
use crate::allowed::join;
use crate::case::{pascal_to_kebab, spec_pascal_to_kebab};

verus! {

/// A named field: its name, the text of its type and its attributes.
#[derive(Debug, Clone)]
pub struct NamedField {
    pub ident: String,
    pub ty: String,
    pub attrs: Vec<Attribute>,
}

/// The fields of a struct or an enum variant.
#[derive(Debug, Clone)]
pub enum Fields {
    Named(Vec<NamedField>),
    /// A tuple struct or variant with this many fields.
    Unnamed(usize),
    Unit,
}

/// A variant of an enum.
#[derive(Debug, Clone)]
pub struct Variant {
    pub ident: String,
    pub attrs: Vec<Attribute>,
    pub fields: Fields,
}

/// The body of a type.
#[derive(Debug, Clone)]
pub enum Data {
    Struct(Fields),
    Enum(Vec<Variant>),
    Union,
}

/// The generics of a type, as text: the parameters as they stand in
/// `impl<..>`, the arguments that follow the type's name, and the predicates
/// of its `where` clause.
#[derive(Debug, Clone)]
pub struct Generics {
    pub params: String,
    pub ty_generics: String,
    pub where_predicates: Vec<String>,
}

/// A type that a derive is applied to.
#[derive(Debug, Clone)]
pub struct DeriveInput {
    pub ident: String,
    pub attrs: Vec<Attribute>,
    pub generics: Generics,
    pub data: Data,
}

/// Why a derive refuses a type.
#[derive(Debug)]
pub enum DeriveError {
    /// An attribute that is refused.
    Attr(AttrError),
    /// A tuple struct or variant with more than one field.
    TupleFields,
    /// A `ConfigValue` enum whose variants have fields.
    EnumFields,
    /// A `ConfigValue` union.
    UnionValue,
}

// ----- mathematical model -----

/// The mathematical content of a [`NamedField`].
pub struct NamedFieldView {
    pub ident: Seq<char>,
    pub ty: Seq<char>,
    pub attrs: Seq<AttributeView>,
}

/// The mathematical content of [`Fields`].
pub enum FieldsView {
    Named(Seq<NamedFieldView>),
    Unnamed(nat),
    Unit,
}

/// The mathematical content of a [`Variant`].
pub struct VariantView {
    pub ident: Seq<char>,
    pub attrs: Seq<AttributeView>,
    pub fields: FieldsView,
}

/// The mathematical content of [`Data`].
pub enum DataView {
    Struct(FieldsView),
    Enum(Seq<VariantView>),
    Union,
}

/// The mathematical content of [`Generics`].
pub struct GenericsView {
    pub params: Seq<char>,
    pub ty_generics: Seq<char>,
    pub where_predicates: Seq<Seq<char>>,
}

/// The mathematical content of a [`DeriveInput`].
pub struct DeriveInputView {
    pub ident: Seq<char>,
    pub attrs: Seq<AttributeView>,
    pub generics: GenericsView,
    pub data: DataView,
}

/// The mathematical content of a [`DeriveError`].
pub enum DeriveErrorView {
    Attr(AttrErrorView),
    TupleFields,
    EnumFields,
    UnionValue,
}

/// The views of the attributes `a`.
pub open spec fn attrs_view(a: Seq<Attribute>) -> Seq<AttributeView> {
    a.map_values(|x: Attribute| x@)
}

impl View for NamedField {
    type V = NamedFieldView;

    open spec fn view(&self) -> NamedFieldView {
        NamedFieldView { ident: self.ident@, ty: self.ty@, attrs: attrs_view(self.attrs@) }
    }
}

impl View for Fields {
    type V = FieldsView;

    open spec fn view(&self) -> FieldsView {
        match self {
            Fields::Named(v) => FieldsView::Named(v@.map_values(|f: NamedField| f@)),
            Fields::Unnamed(n) => FieldsView::Unnamed(*n as nat),
            Fields::Unit => FieldsView::Unit,
        }
    }
}

impl View for Variant {
    type V = VariantView;

    open spec fn view(&self) -> VariantView {
        VariantView { ident: self.ident@, attrs: attrs_view(self.attrs@), fields: self.fields@ }
    }
}

impl View for Data {
    type V = DataView;

    open spec fn view(&self) -> DataView {
        match self {
            Data::Struct(f) => DataView::Struct(f@),
            Data::Enum(v) => DataView::Enum(v@.map_values(|x: Variant| x@)),
            Data::Union => DataView::Union,
        }
    }
}

impl View for Generics {
    type V = GenericsView;

    open spec fn view(&self) -> GenericsView {
        GenericsView {
            params: self.params@,
            ty_generics: self.ty_generics@,
            where_predicates: self.where_predicates@.map_values(|p: String| p@),
        }
    }
}

impl View for DeriveInput {
    type V = DeriveInputView;

    open spec fn view(&self) -> DeriveInputView {
        DeriveInputView {
            ident: self.ident@,
            attrs: attrs_view(self.attrs@),
            generics: self.generics@,
            data: self.data@,
        }
    }
}

impl View for DeriveError {
    type V = DeriveErrorView;

    open spec fn view(&self) -> DeriveErrorView {
        match self {
            DeriveError::Attr(e) => DeriveErrorView::Attr(e@),
            DeriveError::TupleFields => DeriveErrorView::TupleFields,
            DeriveError::EnumFields => DeriveErrorView::EnumFields,
            DeriveError::UnionValue => DeriveErrorView::UnionValue,
        }
    }
}

impl DeriveErrorView {
    /// The message of the error.
    pub open spec fn message(self) -> Seq<char> {
        match self {
            DeriveErrorView::Attr(e) => e.message(),
            DeriveErrorView::TupleFields => "Only 1 field allowed in Tuple structs"@,
            DeriveErrorView::EnumFields => "Enum can not contain fields"@,
            DeriveErrorView::UnionValue => "Only tuple struct or tuple enums are supported"@,
        }
    }
}

impl DeriveError {
    /// Returns the error message.
    pub fn to_string(&self) -> (res: String)
        ensures
            res@ == self@.message(),
    {
        match self {
            DeriveError::Attr(e) => e.to_string(),
            DeriveError::TupleFields => String::from_str("Only 1 field allowed in Tuple structs"),
            DeriveError::EnumFields => String::from_str("Enum can not contain fields"),
            DeriveError::UnionValue => String::from_str(
                "Only tuple struct or tuple enums are supported",
            ),
        }
    }
}

// ----- fields -----

/// The code that handles a missing value (see [`DefaultHandeling::gen_code`]).
pub open spec fn default_code(d: DefaultHandeling) -> Seq<char> {
    match d {
        DefaultHandeling::Error => "?"@,
        DefaultHandeling::DefaultTrait => ".unwrap_or_else(|_|std::default::Default::default())"@,
    }
}

/// The code that reads a field of type `ty` named `ident` with handling `h`
/// from `node`; `d` handles a missing value.
pub open spec fn handling_code(ident: Seq<char>, ty: Seq<char>, h: HandelingView, d: Seq<char>) -> Seq<char> {
    match h {
        HandelingView::Child => "node.consume_optional_child_into::<"@ + ty
            + ">(true)?.ok_or(config_parser::ConfigError::expected_children(node, <"@ + ty
            + ">::allowed_node_names()))"@ + d,
        HandelingView::Children => "node.consume_children_into()?.into_iter().collect::<"@ + ty + ">()"@,
        HandelingView::Property(p) => property_code(
            ty,
            match p {
                Some(n) => n,
                None => ident,
            },
            d,
        ),
        HandelingView::Argument => "node.consume_optional_argument_into::<"@ + ty
            + ">()?.ok_or(config_parser::ConfigError::expected_argument(node))"@ + d,
        HandelingView::Arguments => "node.consume_arguments_into()?.into_iter().collect::<"@ + ty + ">()"@,
        HandelingView::Flatten => "config_parser::ParseConfigNode::consume_node(node, false)?"@,
        HandelingView::Skip => "std::default::Default::default()"@,
        HandelingView::NodeName => "node.name().into()"@,
        HandelingView::NodeNameSpanned => "node.name_spanned().into()"@,
    }
}

/// The code that reads the property `name` of type `ty` from `node`.
pub open spec fn property_code(ty: Seq<char>, name: Seq<char>, d: Seq<char>) -> Seq<char> {
    "node.consume_optional_property_into::<"@ + ty + ">("@ + str_literal(name)
        + ")?.ok_or(config_parser::ConfigError::expected_property(node, "@ + str_literal(name) + "))"@
        + d
}

/// The code that reads the field `f`, with attributes `a`, from `node`.
pub open spec fn field_init(f: NamedFieldView, a: FieldAttributesView) -> Seq<char> {
    f.ident + ": "@ + handling_code(f.ident, f.ty, a.handeling, default_code(a.default))
}

/// The inits of the first `n` fields of `fs`, separated by `, `.
pub open spec fn field_inits(fs: Seq<NamedFieldView>, n: int) -> Result<Seq<char>, DeriveErrorView>
    decreases n,
{
    if n <= 0 {
        Ok(Seq::empty())
    } else {
        match field_inits(fs, n - 1) {
            Err(e) => Err(e),
            Ok(t) => match spec_parse_attributes(fs[n - 1].attrs) {
                Err(e) => Err(DeriveErrorView::Attr(e)),
                Ok(a) => Ok(
                    t + (if n > 1 {
                        ", "@
                    } else {
                        Seq::empty()
                    }) + field_init(fs[n - 1], a),
                ),
            },
        }
    }
}

/// The code that builds a value with fields `f` from `node`.
pub open spec fn spec_gen_constructor(f: FieldsView) -> Result<Seq<char>, DeriveErrorView> {
    match f {
        FieldsView::Named(fs) => match field_inits(fs, fs.len() as int) {
            Ok(t) => Ok("{ "@ + t + " }"@),
            Err(e) => Err(e),
        },
        FieldsView::Unnamed(n) => if n == 0 {
            Ok("()"@)
        } else if n == 1 {
            Ok("(config_parser::ParseConfigNode::consume_node(node, true)?)"@)
        } else {
            Err(DeriveErrorView::TupleFields)
        },
        FieldsView::Unit => Ok(Seq::empty()),
    }
}

/// Proof that an error stays an error when more fields are read.
proof fn lemma_field_inits_err(fs: Seq<NamedFieldView>, n: int, m: int)
    requires
        n <= m,
        field_inits(fs, n) is Err,
    ensures
        field_inits(fs, m) == field_inits(fs, n),
    decreases m - n,
{
    if n < m {
        lemma_field_inits_err(fs, n, m - 1);
    }
}

/// Appends the code that reads the property `name` of type `ty` to `out`.
fn write_property(out: &mut String, ty: &str, name: &str, d: &str)
    ensures
        final(out)@ == old(out)@ + property_code(ty@, name@, d@),
{
    let ghost start = out@;
    out.append("node.consume_optional_property_into::<");
    out.append(ty);
    out.append(">(");
    push_str_literal(out, name);
    out.append(")?.ok_or(config_parser::ConfigError::expected_property(node, ");
    push_str_literal(out, name);
    out.append("))");
    out.append(d);
    assert(out@ =~= start + property_code(ty@, name@, d@));
}

/// Appends the code that reads a field named `ident` of type `ty` with
/// handling `h` to `out`.
fn write_handling(out: &mut String, ident: &str, ty: &str, h: &FieldHandeling, d: &str)
    ensures
        final(out)@ == old(out)@ + handling_code(ident@, ty@, h@, d@),
{
    let ghost start = out@;
    match h {
        FieldHandeling::Child => {
            out.append("node.consume_optional_child_into::<");
            out.append(ty);
            out.append(">(true)?.ok_or(config_parser::ConfigError::expected_children(node, <");
            out.append(ty);
            out.append(">::allowed_node_names()))");
            out.append(d);
            assert(out@ =~= start + handling_code(ident@, ty@, h@, d@));
        },
        FieldHandeling::Children => {
            out.append("node.consume_children_into()?.into_iter().collect::<");
            out.append(ty);
            out.append(">()");
            assert(out@ =~= start + handling_code(ident@, ty@, h@, d@));
        },
        FieldHandeling::Property(p) => {
            let name: &str = match p {
                Some(n) => &**n,
                None => ident,
            };
            write_property(out, ty, name, d);
        },
        FieldHandeling::Argument => {
            out.append("node.consume_optional_argument_into::<");
            out.append(ty);
            out.append(">()?.ok_or(config_parser::ConfigError::expected_argument(node))");
            out.append(d);
            assert(out@ =~= start + handling_code(ident@, ty@, h@, d@));
        },
        FieldHandeling::Arguments => {
            out.append("node.consume_arguments_into()?.into_iter().collect::<");
            out.append(ty);
            out.append(">()");
            assert(out@ =~= start + handling_code(ident@, ty@, h@, d@));
        },
        FieldHandeling::Flatten => {
            out.append("config_parser::ParseConfigNode::consume_node(node, false)?");
        },
        FieldHandeling::Skip => {
            out.append("std::default::Default::default()");
        },
        FieldHandeling::NodeName => {
            out.append("node.name().into()");
        },
        FieldHandeling::NodeNameSpanned => {
            out.append("node.name_spanned().into()");
        },
    }
}

/// Appends the code that reads the field `f` with attributes `a` to `out`.
fn write_field_init(out: &mut String, f: &NamedField, a: &FieldAttributes)
    ensures
        final(out)@ == old(out)@ + field_init(f@, a@),
{
    let ghost start = out@;
    out.append(f.ident.as_str());
    out.append(": ");
    let d = a.default.gen_code();
    write_handling(out, f.ident.as_str(), f.ty.as_str(), &a.handeling, d);
    assert(out@ =~= start + field_init(f@, a@));
}

/// The code that builds a value with the fields `fields` from `node`.
pub fn gen_constructor(fields: &Fields) -> (res: Result<String, DeriveError>)
    ensures
        match spec_gen_constructor(fields@) {
            Ok(t) => res matches Ok(r) && r@ == t,
            Err(e) => res matches Err(re) && re@ == e,
        },
{
    match fields {
        Fields::Named(fs) => {
            let ghost fv = fs@.map_values(|f: NamedField| f@);
            assert(fields@ == FieldsView::Named(fv));
            let mut out = String::from_str("{ ");
            let mut i: usize = 0;
            while i < fs.len()
                invariant
                    i <= fs@.len(),
                    fv == fs@.map_values(|f: NamedField| f@),
                    fields@ == FieldsView::Named(fv),
                    field_inits(fv, i as int) matches Ok(t) && out@ == "{ "@ + t,
                decreases fs@.len() - i,
            {
                let f = &fs[i];
                proof {
                    assert(fv[i as int] == f@);
                }
                match FieldAttributes::parse(&f.attrs) {
                    Err(e) => {
                        proof {
                            assert(fv[i as int].attrs == f.attrs@.map_values(|a: Attribute| a@));
                            assert(field_inits(fv, i + 1) == Err::<Seq<char>, DeriveErrorView>(
                                DeriveErrorView::Attr(e@),
                            ));
                            lemma_field_inits_err(fv, i + 1, fv.len() as int);
                            assert(spec_gen_constructor(fields@) == Err::<Seq<char>, DeriveErrorView>(
                                DeriveErrorView::Attr(e@),
                            ));
                        }
                        return Err(DeriveError::Attr(e));
                    },
                    Ok(a) => {
                        let ghost before = out@;
                        if i > 0 {
                            out.append(", ");
                        }
                        write_field_init(&mut out, f, &a);
                        proof {
                            let t = field_inits(fv, i as int)->Ok_0;
                            assert(out@ =~= "{ "@ + (t + (if i + 1 > 1 {
                                ", "@
                            } else {
                                Seq::empty()
                            }) + field_init(fv[i as int], a@)));
                        }
                    },
                }
                i = i + 1;
            }
            out.append(" }");
            proof {
                let t = field_inits(fv, fv.len() as int)->Ok_0;
                assert(out@ =~= "{ "@ + t + " }"@);
            }
            Ok(out)
        },
        Fields::Unnamed(n) => {
            if *n == 0 {
                Ok(String::from_str("()"))
            } else if *n == 1 {
                Ok(String::from_str("(config_parser::ParseConfigNode::consume_node(node, true)?)"))
            } else {
                Err(DeriveError::TupleFields)
            }
        },
        Fields::Unit => Ok(String::new()),
    }
}

// ----- ConfigNode -----

/// The node names expressions of the first `n` variants of `vs`.
pub open spec fn variant_name_exprs(vs: Seq<VariantView>, n: int) -> Result<Seq<Seq<char>>, DeriveErrorView>
    decreases n,
{
    if n <= 0 {
        Ok(Seq::empty())
    } else {
        match variant_name_exprs(vs, n - 1) {
            Err(e) => Err(e),
            Ok(ns) => match spec_parse_variant_attributes(vs[n - 1].attrs) {
                Err(e) => Err(DeriveErrorView::Attr(e)),
                Ok(va) => Ok(ns.push(spec_node_names(va.name, vs[n - 1].ident))),
            },
        }
    }
}

/// `.combine(..)` with each of `ns`, in order.
pub open spec fn combine_chain(ns: Seq<Seq<char>>) -> Seq<char>
    decreases ns.len(),
{
    if ns.len() == 0 {
        Seq::empty()
    } else {
        combine_chain(ns.drop_last()) + ".combine("@ + ns.last() + ")"@
    }
}

/// The branch that builds the variant `id` with constructor `c` from a node
/// whose name `names` allows.
pub open spec fn arm_text(names: Seq<char>, id: Seq<char>, c: Seq<char>) -> Seq<char> {
    "else if "@ + names + ".is_allowed(node.name()) { Self::"@ + id + " "@ + c + " } "@
}

/// The branches of the first `n` variants of `vs`, whose node names
/// expressions are `ns`.
pub open spec fn variant_arms(vs: Seq<VariantView>, ns: Seq<Seq<char>>, n: int) -> Result<
    Seq<char>,
    DeriveErrorView,
>
    decreases n,
{
    if n <= 0 {
        Ok(Seq::empty())
    } else {
        match variant_arms(vs, ns, n - 1) {
            Err(e) => Err(e),
            Ok(t) => match spec_gen_constructor(vs[n - 1].fields) {
                Err(e) => Err(e),
                Ok(c) => Ok(t + arm_text(ns[n - 1], vs[n - 1].ident, c)),
            },
        }
    }
}

/// The node names expression and the constructing expression of a type
/// named `name` with attributes `va` and body `data`. A union has none.
pub open spec fn spec_gen_code(name: Seq<char>, va: VariantAttributesView, data: DataView) -> Result<
    (Seq<char>, Seq<char>),
    DeriveErrorView,
> {
    match data {
        DataView::Struct(f) => match spec_gen_constructor(f) {
            Ok(c) => Ok((spec_node_names(va.name, name), "Self "@ + c)),
            Err(e) => Err(e),
        },
        DataView::Enum(vs) => match variant_name_exprs(vs, vs.len() as int) {
            Err(e) => Err(e),
            Ok(ns) => match variant_arms(vs, ns, vs.len() as int) {
                Err(e) => Err(e),
                Ok(arms) => Ok(
                    (
                        "config_parser::AllowedNodeNames::empty()"@ + combine_chain(ns),
                        "if false { unreachable!() } "@ + arms
                            + "else { return Err(config_parser::ConfigError::unexpected_node(node, Self::allowed_node_names())) }"@,
                    ),
                ),
            },
        },
        DataView::Union => arbitrary(),
    }
}

/// Proof that an error stays an error when more variants are read.
proof fn lemma_variant_name_exprs_err(vs: Seq<VariantView>, n: int, m: int)
    requires
        n <= m,
        variant_name_exprs(vs, n) is Err,
    ensures
        variant_name_exprs(vs, m) == variant_name_exprs(vs, n),
    decreases m - n,
{
    if n < m {
        lemma_variant_name_exprs_err(vs, n, m - 1);
    }
}

/// Proof that an error stays an error when more branches are written.
proof fn lemma_variant_arms_err(vs: Seq<VariantView>, ns: Seq<Seq<char>>, n: int, m: int)
    requires
        n <= m,
        variant_arms(vs, ns, n) is Err,
    ensures
        variant_arms(vs, ns, m) == variant_arms(vs, ns, n),
    decreases m - n,
{
    if n < m {
        lemma_variant_arms_err(vs, ns, n, m - 1);
    }
}

/// The node names expression and the constructing expression of a type
/// named `name` with attributes `variant_attributes` and body `data`.
pub fn gen_code(name: &str, variant_attributes: &VariantAttributes, data: &Data) -> (res: Result<
    (String, String),
    DeriveError,
>)
    requires
        !(data@ is Union),
    ensures
        match spec_gen_code(name@, variant_attributes@, data@) {
            Ok((a, c)) => res matches Ok((ra, rc)) && ra@ == a && rc@ == c,
            Err(e) => res matches Err(re) && re@ == e,
        },
{
    match data {
        Data::Struct(fields) => {
            let node_name = variant_attributes.node_names(name);
            match gen_constructor(fields) {
                Ok(c) => {
                    let mut init = String::from_str("Self ");
                    init.append(c.as_str());
                    Ok((node_name, init))
                },
                Err(e) => Err(e),
            }
        },
        Data::Enum(vs) => {
            let ghost vv = vs@.map_values(|v: Variant| v@);
            assert(data@ == DataView::Enum(vv));
            let mut names: Vec<String> = Vec::new();
            let mut i: usize = 0;
            while i < vs.len()
                invariant
                    i <= vs@.len(),
                    names@.len() == i,
                    vv == vs@.map_values(|v: Variant| v@),
                    data@ == DataView::Enum(vv),
                    variant_name_exprs(vv, i as int) matches Ok(ns) && ns == names@.map_values(
                        |n: String| n@,
                    ),
                decreases vs@.len() - i,
            {
                let v = &vs[i];
                proof {
                    assert(vv[i as int] == v@);
                    assert(vv[i as int].attrs == v.attrs@.map_values(|a: Attribute| a@));
                }
                match VariantAttributes::parse(&v.attrs) {
                    Ok(va) => {
                        let n = va.node_names(v.ident.as_str());
                        let ghost before = names@;
                        names.push(n);
                        proof {
                            assert(names@.map_values(|n: String| n@) =~= before.map_values(
                                |n: String| n@,
                            ).push(n@));
                        }
                    },
                    Err(e) => {
                        proof {
                            assert(variant_name_exprs(vv, i + 1) == Err::<Seq<Seq<char>>, DeriveErrorView>(
                                DeriveErrorView::Attr(e@),
                            ));
                            lemma_variant_name_exprs_err(vv, i + 1, vv.len() as int);
                        }
                        return Err(DeriveError::Attr(e));
                    },
                }
                i = i + 1;
            }
            let ghost ns = names@.map_values(|n: String| n@);
            let mut arms = String::new();
            let mut allowed = String::from_str("config_parser::AllowedNodeNames::empty()");
            let mut i: usize = 0;
            proof {
                assert(ns.take(0) =~= Seq::<Seq<char>>::empty());
            }
            while i < vs.len()
                invariant
                    i <= vs@.len(),
                    names@.len() == vs@.len(),
                    vv == vs@.map_values(|v: Variant| v@),
                    data@ == DataView::Enum(vv),
                    ns == names@.map_values(|n: String| n@),
                    variant_name_exprs(vv, vv.len() as int) == Ok::<Seq<Seq<char>>, DeriveErrorView>(ns),
                    variant_arms(vv, ns, i as int) == Ok::<Seq<char>, DeriveErrorView>(arms@),
                    allowed@ == "config_parser::AllowedNodeNames::empty()"@ + combine_chain(ns.take(i as int)),
                decreases vs@.len() - i,
            {
                let v = &vs[i];
                proof {
                    assert(vv[i as int] == v@);
                    assert(ns[i as int] == names@[i as int]@);
                }
                match gen_constructor(&v.fields) {
                    Ok(c) => {
                        let ghost before = arms@;
                        arms.append("else if ");
                        arms.append(names[i].as_str());
                        arms.append(".is_allowed(node.name()) { Self::");
                        arms.append(v.ident.as_str());
                        arms.append(" ");
                        arms.append(c.as_str());
                        arms.append(" } ");
                        proof {
                            assert(arms@ =~= before + arm_text(ns[i as int], vv[i as int].ident, c@));
                        }
                    },
                    Err(e) => {
                        proof {
                            lemma_variant_arms_err(vv, ns, i + 1, vv.len() as int);
                        }
                        return Err(e);
                    },
                }
                let ghost before = allowed@;
                allowed.append(".combine(");
                allowed.append(names[i].as_str());
                allowed.append(")");
                proof {
                    assert(ns.take(i + 1).drop_last() =~= ns.take(i as int));
                    assert(allowed@ =~= "config_parser::AllowedNodeNames::empty()"@ + combine_chain(
                        ns.take(i + 1),
                    ));
                }
                i = i + 1;
            }
            let mut init = String::from_str("if false { unreachable!() } ");
            init.append(arms.as_str());
            init.append(
                "else { return Err(config_parser::ConfigError::unexpected_node(node, Self::allowed_node_names())) }",
            );
            proof {
                assert(ns.take(vv.len() as int) =~= ns);
            }
            Ok((allowed, init))
        },
        Data::Union => {
            proof {
                assert(false);
            }
            Ok((String::new(), String::new()))
        },
    }
}

/// The predicates of a `where` clause once the added predicates `w`, if
/// any, follow them.
pub open spec fn with_impl_where(preds: Seq<Seq<char>>, w: Option<Seq<char>>) -> Seq<Seq<char>> {
    match w {
        Some(t) => preds.push(t),
        None => preds,
    }
}

/// A `where` clause with the predicates `preds`.
pub open spec fn where_text(preds: Seq<Seq<char>>) -> Seq<char> {
    "where "@ + join(preds, ", "@)
}

/// The views of the strings of `v`.
pub open spec fn strings_view(v: Seq<String>) -> Seq<Seq<char>> {
    v.map_values(|p: String| p@)
}

/// Appends the strings of `items`, separated by `, `, to `out`.
fn push_joined(out: &mut String, items: &Vec<String>)
    ensures
        final(out)@ == old(out)@ + join(strings_view(items@), ", "@),
{
    let ghost ns = strings_view(items@);
    let ghost start = out@;
    let mut i: usize = 0;
    proof {
        assert(ns.take(0) =~= Seq::<Seq<char>>::empty());
        assert(out@ =~= start + join(ns.take(0), ", "@));
    }
    while i < items.len()
        invariant
            i <= items@.len(),
            ns == strings_view(items@),
            out@ == start + join(ns.take(i as int), ", "@),
        decreases items@.len() - i,
    {
        let ghost before = out@;
        if i > 0 {
            out.append(", ");
        }
        out.append(items[i].as_str());
        proof {
            let t = ns.take(i + 1);
            assert(t.drop_last() =~= ns.take(i as int));
            assert(ns[i as int] == items@[i as int]@);
            if i == 0 {
                assert(join(t, ", "@) == t[0]);
            }
            assert(out@ =~= start + join(t, ", "@));
        }
        i = i + 1;
    }
    proof {
        assert(ns.take(items@.len() as int) =~= ns);
    }
}

/// The `ParseConfigNode` impl for a type, with node names expression
/// `allowed` and constructing expression `init`.
pub open spec fn node_impl_text(
    input: DeriveInputView,
    preds: Seq<Seq<char>>,
    allowed: Seq<char>,
    init: Seq<char>,
) -> Seq<char> {
    "impl<'c, "@ + input.generics.params + "> config_parser::ParseConfigNode<'c> for "@ + input.ident
        + " "@ + input.generics.ty_generics + " "@ + where_text(preds)
        + " { fn allowed_node_names() -> config_parser::AllowedNodeNames { "@ + allowed
        + " } fn consume_node(node: &mut config_parser::ConfigNode<'c>, terminate: bool) -> Result<Self, config_parser::ConfigError> { let me = "@
        + init + "; if terminate { node.terminate()?; } Ok(me) } }"@
}

/// What the `ConfigNode` derive writes for `input`.
pub open spec fn spec_impl_config_node(input: DeriveInputView) -> Result<Seq<char>, DeriveErrorView> {
    match spec_parse_variant_attributes(input.attrs) {
        Err(e) => Err(DeriveErrorView::Attr(e)),
        Ok(va) => match spec_gen_code(input.ident, va, input.data) {
            Err(e) => Err(e),
            Ok((allowed, init)) => Ok(
                node_impl_text(
                    input,
                    with_impl_where(input.generics.where_predicates, va.impl_where),
                    allowed,
                    init,
                ),
            ),
        },
    }
}

/// The `where` predicates of `generics` followed by those that
/// `variant_attributes` add; the added predicates are taken out.
fn extended_where(generics: &Generics, variant_attributes: &mut VariantAttributes) -> (res: Vec<String>)
    ensures
        strings_view(res@) == with_impl_where(
            generics@.where_predicates,
            old(variant_attributes)@.impl_where,
        ),
        final(variant_attributes)@.name == old(variant_attributes)@.name,
{
    let mut preds: Vec<String> = Vec::new();
    let mut i: usize = 0;
    while i < generics.where_predicates.len()
        invariant
            i <= generics.where_predicates@.len(),
            strings_view(preds@) == strings_view(generics.where_predicates@).take(i as int),
        decreases generics.where_predicates@.len() - i,
    {
        let p = generics.where_predicates[i].clone();
        let ghost before = preds@;
        preds.push(p);
        proof {
            let w = strings_view(generics.where_predicates@);
            assert(strings_view(preds@) =~= strings_view(before).push(p@));
            assert(w.take(i + 1) =~= w.take(i as int).push(w[i as int]));
        }
        i = i + 1;
    }
    proof {
        assert(strings_view(generics.where_predicates@).take(i as int) =~= strings_view(
            generics.where_predicates@,
        ));
    }
    let w = variant_attributes.impl_where.take();
    match w {
        Some(w) => {
            let ghost before = preds@;
            w.extend_where_clause(&mut preds);
            proof {
                assert(strings_view(preds@) =~= strings_view(before).push(
                    old(variant_attributes)@.impl_where->Some_0,
                ));
            }
        },
        None => {},
    }
    preds
}

/// Writes the `ParseConfigNode` impl for `input`, as the `ConfigNode` derive
/// does.
pub fn impl_config_node(input: DeriveInput) -> (res: Result<String, DeriveError>)
    requires
        spec_parse_variant_attributes(input@.attrs) is Ok ==> !(input@.data is Union),
    ensures
        match spec_impl_config_node(input@) {
            Ok(t) => res matches Ok(r) && r@ == t,
            Err(e) => res matches Err(re) && re@ == e,
        },
{
    proof {
        assert(input@.attrs == input.attrs@.map_values(|a: Attribute| a@));
    }
    let mut variant_attributes = match VariantAttributes::parse(&input.attrs) {
        Ok(v) => v,
        Err(e) => {
            return Err(DeriveError::Attr(e));
        },
    };
    let ghost va = variant_attributes@;
    let preds = extended_where(&input.generics, &mut variant_attributes);
    let (allowed, init) = match gen_code(input.ident.as_str(), &variant_attributes, &input.data) {
        Ok(r) => r,
        Err(e) => {
            return Err(e);
        },
    };
    let mut out = String::from_str("impl<'c, ");
    out.append(input.generics.params.as_str());
    out.append("> config_parser::ParseConfigNode<'c> for ");
    out.append(input.ident.as_str());
    out.append(" ");
    out.append(input.generics.ty_generics.as_str());
    out.append(" ");
    out.append("where ");
    push_joined(&mut out, &preds);
    out.append(" { fn allowed_node_names() -> config_parser::AllowedNodeNames { ");
    out.append(allowed.as_str());
    out.append(
        " } fn consume_node(node: &mut config_parser::ConfigNode<'c>, terminate: bool) -> Result<Self, config_parser::ConfigError> { let me = ",
    );
    out.append(init.as_str());
    out.append("; if terminate { node.terminate()?; } Ok(me) } }");
    proof {
        assert(out@ =~= node_impl_text(input@, strings_view(preds@), allowed@, init@));
    }
    Ok(out)
}

// ----- ConfigValue -----

/// A value option: the name it is written as and the code that builds it.
pub type ValueOption = (Seq<char>, Seq<char>);

/// The option the variant `v` of a value enum gives: its kebab-case name and
/// its constructor. Only variants without fields can be options.
pub open spec fn value_option(v: VariantView) -> Result<ValueOption, DeriveErrorView> {
    match v.fields {
        FieldsView::Unnamed(n) => if n == 0 {
            Ok((spec_pascal_to_kebab(v.ident), "Self::"@ + v.ident + "()"@))
        } else {
            Err(DeriveErrorView::EnumFields)
        },
        FieldsView::Unit => Ok((spec_pascal_to_kebab(v.ident), "Self::"@ + v.ident)),
        FieldsView::Named(_) => Err(DeriveErrorView::EnumFields),
    }
}

/// The options of the first `n` variants of `vs`.
pub open spec fn value_options(vs: Seq<VariantView>, n: int) -> Result<Seq<ValueOption>, DeriveErrorView>
    decreases n,
{
    if n <= 0 {
        Ok(Seq::empty())
    } else {
        match value_options(vs, n - 1) {
            Err(e) => Err(e),
            Ok(ps) => match value_option(vs[n - 1]) {
                Err(e) => Err(e),
                Ok(p) => Ok(ps.push(p)),
            },
        }
    }
}

/// The match arms of the options `ps`.
pub open spec fn option_arms(ps: Seq<ValueOption>) -> Seq<char>
    decreases ps.len(),
{
    if ps.len() == 0 {
        Seq::empty()
    } else {
        option_arms(ps.drop_last()) + str_literal(ps.last().0) + " => Ok("@ + ps.last().1 + "), "@
    }
}

/// The names of the options `ps` as string literals.
pub open spec fn option_literals(ps: Seq<ValueOption>) -> Seq<Seq<char>> {
    ps.map_values(|p: ValueOption| str_literal(p.0))
}

/// The code that reads a value into the type with body `data`. A struct has
/// none.
pub open spec fn spec_gen_value_code(data: DataView) -> Result<Seq<char>, DeriveErrorView> {
    match data {
        DataView::Enum(vs) => match value_options(vs, vs.len() as int) {
            Err(e) => Err(e),
            Ok(ps) => Ok(
                "match value.inner.as_str().ok_or(config_parser::ConfigError::type_error(&value, config_parser::ConfigValueType::String))? { "@
                    + option_arms(ps)
                    + "val => Err(config_parser::ConfigError::message(value.span, format!(concat!(\"Invalid value '{}'. Valid options are: \", "@
                    + join(option_literals(ps), ", "@) + "), val))) }"@,
            ),
        },
        DataView::Struct(_) => arbitrary(),
        DataView::Union => Err(DeriveErrorView::UnionValue),
    }
}

/// Proof that an error stays an error when more options are read.
proof fn lemma_value_options_err(vs: Seq<VariantView>, n: int, m: int)
    requires
        n <= m,
        value_options(vs, n) is Err,
    ensures
        value_options(vs, m) == value_options(vs, n),
    decreases m - n,
{
    if n < m {
        lemma_value_options_err(vs, n, m - 1);
    }
}

/// The code that reads a value into the type with body `data`: a value
/// enum is read from a string naming one of its variants.
pub fn gen_value_code(data: &Data) -> (res: Result<String, DeriveError>)
    requires
        !(data@ is Struct),
    ensures
        match spec_gen_value_code(data@) {
            Ok(t) => res matches Ok(r) && r@ == t,
            Err(e) => res matches Err(re) && re@ == e,
        },
{
    match data {
        Data::Enum(vs) => {
            let ghost vv = vs@.map_values(|v: Variant| v@);
            assert(data@ == DataView::Enum(vv));
            let mut arms = String::new();
            let mut lits: Vec<String> = Vec::new();
            let mut i: usize = 0;
            while i < vs.len()
                invariant
                    i <= vs@.len(),
                    vv == vs@.map_values(|v: Variant| v@),
                    data@ == DataView::Enum(vv),
                    value_options(vv, i as int) matches Ok(ps) && arms@ == option_arms(ps)
                        && strings_view(lits@) == option_literals(ps) && ps.len() == i,
                decreases vs@.len() - i,
            {
                let v = &vs[i];
                proof {
                    assert(vv[i as int] == v@);
                }
                let ctor = match &v.fields {
                    Fields::Unnamed(n) => {
                        if *n == 0 {
                            let mut c = String::from_str("Self::");
                            c.append(v.ident.as_str());
                            c.append("()");
                            c
                        } else {
                            proof {
                                lemma_value_options_err(vv, i + 1, vv.len() as int);
                            }
                            return Err(DeriveError::EnumFields);
                        }
                    },
                    Fields::Unit => {
                        let mut c = String::from_str("Self::");
                        c.append(v.ident.as_str());
                        c
                    },
                    Fields::Named(_) => {
                        proof {
                            lemma_value_options_err(vv, i + 1, vv.len() as int);
                        }
                        return Err(DeriveError::EnumFields);
                    },
                };
                let name = pascal_to_kebab(v.ident.clone());
                let ghost ps = value_options(vv, i as int)->Ok_0;
                let ghost p: ValueOption = (name@, ctor@);
                proof {
                    assert(value_option(vv[i as int]) == Ok::<ValueOption, DeriveErrorView>(p));
                    assert(value_options(vv, i + 1) == Ok::<Seq<ValueOption>, DeriveErrorView>(ps.push(p)));
                    assert(ps.push(p).drop_last() =~= ps);
                }
                let mut lit = String::new();
                push_str_literal(&mut lit, name.as_str());
                let ghost before_arms = arms@;
                arms.append(lit.as_str());
                arms.append(" => Ok(");
                arms.append(ctor.as_str());
                arms.append("), ");
                let ghost before_lits = lits@;
                lits.push(lit);
                proof {
                    assert(lit@ =~= str_literal(name@));
                    assert(arms@ =~= option_arms(ps.push(p)));
                    assert(strings_view(lits@) =~= strings_view(before_lits).push(lit@));
                    assert(option_literals(ps.push(p)) =~= option_literals(ps).push(str_literal(p.0)));
                }
                i = i + 1;
            }
            let mut out = String::from_str(
                "match value.inner.as_str().ok_or(config_parser::ConfigError::type_error(&value, config_parser::ConfigValueType::String))? { ",
            );
            out.append(arms.as_str());
            out.append(
                "val => Err(config_parser::ConfigError::message(value.span, format!(concat!(\"Invalid value '{}'. Valid options are: \", ",
            );
            push_joined(&mut out, &lits);
            out.append("), val))) }");
            proof {
                let ps = value_options(vv, vv.len() as int)->Ok_0;
                assert(out@ =~= spec_gen_value_code(data@)->Ok_0);
            }
            Ok(out)
        },
        Data::Struct(_) => {
            proof {
                assert(false);
            }
            Ok(String::new())
        },
        Data::Union => Err(DeriveError::UnionValue),
    }
}

/// The `ParseConfigValue` impl for a type, with reading code `code`.
pub open spec fn value_impl_text(input: DeriveInputView, preds: Seq<Seq<char>>, code: Seq<char>) -> Seq<char> {
    "impl<'c, "@ + input.generics.params + "> config_parser::ParseConfigValue<'c> for "@ + input.ident
        + " "@ + input.generics.ty_generics + " "@ + where_text(preds)
        + " { fn consume_value(value: config_parser::Spanned<config_parser::ConfigValue<'c>>) -> Result<Self, config_parser::ConfigError> { "@
        + code + " } }"@
}

/// What the `ConfigValue` derive writes for `input`.
pub open spec fn spec_impl_config_value(input: DeriveInputView) -> Result<Seq<char>, DeriveErrorView> {
    match spec_parse_variant_attributes(input.attrs) {
        Err(e) => Err(DeriveErrorView::Attr(e)),
        Ok(va) => match spec_gen_value_code(input.data) {
            Err(e) => Err(e),
            Ok(code) => Ok(
                value_impl_text(
                    input,
                    with_impl_where(input.generics.where_predicates, va.impl_where),
                    code,
                ),
            ),
        },
    }
}

/// Writes the `ParseConfigValue` impl for `input`, as the `ConfigValue`
/// derive does.
pub fn impl_config_value(input: DeriveInput) -> (res: Result<String, DeriveError>)
    requires
        spec_parse_variant_attributes(input@.attrs) is Ok ==> !(input@.data is Struct),
    ensures
        match spec_impl_config_value(input@) {
            Ok(t) => res matches Ok(r) && r@ == t,
            Err(e) => res matches Err(re) && re@ == e,
        },
{
    proof {
        assert(input@.attrs == input.attrs@.map_values(|a: Attribute| a@));
    }
    let mut variant_attributes = match VariantAttributes::parse(&input.attrs) {
        Ok(v) => v,
        Err(e) => {
            return Err(DeriveError::Attr(e));
        },
    };
    let preds = extended_where(&input.generics, &mut variant_attributes);
    let code = match gen_value_code(&input.data) {
        Ok(c) => c,
        Err(e) => {
            return Err(e);
        },
    };
    let mut out = String::from_str("impl<'c, ");
    out.append(input.generics.params.as_str());
    out.append("> config_parser::ParseConfigValue<'c> for ");
    out.append(input.ident.as_str());
    out.append(" ");
    out.append(input.generics.ty_generics.as_str());
    out.append(" ");
    out.append("where ");
    push_joined(&mut out, &preds);
    out.append(
        " { fn consume_value(value: config_parser::Spanned<config_parser::ConfigValue<'c>>) -> Result<Self, config_parser::ConfigError> { ",
    );
    out.append(code.as_str());
    out.append(" } }");
    proof {
        assert(out@ =~= value_impl_text(input@, strings_view(preds@), code@));
    }
    Ok(out)
}

} // verus!
