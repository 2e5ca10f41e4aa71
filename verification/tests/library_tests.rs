use config_parser::attributes::{
    AttrError, Attribute, DefaultHandeling, FieldAttributes, FieldHandeling, MetaArg, MetaItem,
    VariantAttributes, VariantName,
};
use config_parser::derive::{
    gen_constructor, gen_value_code, impl_config_node, impl_config_value, Data, DeriveError,
    DeriveInput, Fields, Generics, NamedField, Variant,
};
use config_parser::parse::{ident, skip_space_and_comments, Parser, SyntaxError};
use config_parser::{
    from_str, int_from_str_radix, pascal_to_kebab, AllowedNodeNames, ConfigError, ConfigNode,
    ConfigValue, ConfigValueType, Document, IntErrorKind, ParseConfigNode, ParseConfigValue, Span,
    Spanned,
};
use std::path::PathBuf;
use std::rc::Rc;
use std::sync::Arc;

fn syntax_error(code: &str) -> SyntaxError {
    match Document::from_str(code) {
        Err(ConfigError::Syntax { inner }) => inner,
        other => panic!("expected a syntax error, got {:?}", other),
    }
}

fn first_node(code: &str) -> ConfigNode {
    let doc = Document::from_str(code).unwrap();
    let mut root = doc.into_node();
    let mut all = root.consume_children_matching(&AllowedNodeNames::any());
    assert!(!all.is_empty());
    all.remove(0)
}

fn item(path: &str, arg: MetaArg) -> MetaItem {
    MetaItem { path: path.to_string(), arg }
}

fn config(items: Vec<MetaItem>) -> Attribute {
    Attribute { path: "config".to_string(), items }
}

// ----- allowed node names -----

#[test]
fn allowed_names_combine() {
    let a = AllowedNodeNames::from_single("a");
    let b = AllowedNodeNames::from_slice(&["b", "c"]);
    let both = a.combine(b);
    assert!(both.is_allowed("a"));
    assert!(both.is_allowed("c"));
    assert!(!both.is_allowed("d"));
    assert_eq!(both.to_string(), "a,b,c");
    assert!(!both.is_empty());
    let any = AllowedNodeNames::empty().combine(AllowedNodeNames::any());
    assert!(any.is_allowed("whatever"));
    assert_eq!(any.to_string(), "any node");
}

#[test]
fn allowed_names_empty() {
    let e = AllowedNodeNames::empty();
    assert!(e.is_empty());
    assert!(!e.is_allowed(""));
    assert_eq!(e.to_string(), "");
    assert!(AllowedNodeNames::empty().combine(AllowedNodeNames::empty()).is_empty());
    assert!(!AllowedNodeNames::any().is_empty());
}

// ----- lexing -----

#[test]
fn skip_space_twice_stays() {
    for (code, newlines) in [("  /* a */ // b\n  x", true), (" /* a */ x", false), ("  //c\ny", false)] {
        let mut p = Parser::new(code);
        skip_space_and_comments(&mut p, newlines).unwrap();
        let once = p.str();
        skip_space_and_comments(&mut p, newlines).unwrap();
        assert_eq!(p.str(), once);
    }
}

#[test]
fn unterminated_block_comment_skips_opening_only() {
    let mut p = Parser::new("/* open x");
    skip_space_and_comments(&mut p, true).unwrap();
    assert_eq!(p.str(), "open x");
}

#[test]
fn ident_stops_at_punctuation() {
    let mut p = Parser::new("abc=1");
    let id = ident(&mut p).unwrap().unwrap();
    assert_eq!(id, Spanned::new("abc", Span::from_range(0, 3)));
    assert_eq!(p.str(), "=1");
    let mut q = Parser::new("{");
    assert_eq!(ident(&mut q).unwrap(), None);
}

// ----- values -----

#[test]
fn parse_values() {
    assert_eq!(
        ConfigValue::parse(&mut Parser::new("  #false")),
        Ok(Some(Spanned::new(ConfigValue::Bool(false), Span::from_range(2, 8))))
    );
    assert_eq!(
        ConfigValue::parse(&mut Parser::new("\"a b\" rest")),
        Ok(Some(Spanned::new(ConfigValue::String("a b"), Span::from_range(1, 4))))
    );
    assert_eq!(
        ConfigValue::parse(&mut Parser::new("my-ident_x x")),
        Ok(Some(Spanned::new(ConfigValue::String("my-ident_x"), Span::from_range(0, 10))))
    );
    assert_eq!(ConfigValue::parse(&mut Parser::new("")), Ok(None));
}

#[test]
fn spans_are_byte_offsets() {
    let node = first_node("\u{e9}t\u{e9} \"\u{fc}\"");
    assert_eq!(node.name_spanned(), Spanned::new("\u{e9}t\u{e9}", Span::from_range(0, 5)));
}

#[test]
fn int_radix() {
    let digits: Vec<char> = "ff".chars().collect();
    assert_eq!(int_from_str_radix(&digits, 16), Ok(255));
    let big: Vec<char> = "8000000000000000".chars().collect();
    assert_eq!(int_from_str_radix(&big, 16).unwrap_err().kind, IntErrorKind::PosOverflow);
    let neg: Vec<char> = "-12".chars().collect();
    assert_eq!(int_from_str_radix(&neg, 10), Ok(-12));
    let empty: Vec<char> = Vec::new();
    assert_eq!(int_from_str_radix(&empty, 10).unwrap_err().kind, IntErrorKind::Empty);
    let bad: Vec<char> = "12a".chars().collect();
    assert_eq!(int_from_str_radix(&bad, 10).unwrap_err().kind, IntErrorKind::InvalidDigit);
}

// ----- syntax errors -----

#[test]
fn syntax_error_messages() {
    assert_eq!(syntax_error("n a=").to_string(), "Expected a property value");
    assert_eq!(syntax_error("n a=1 2").to_string(), "Expected a property but got an argument");
    assert_eq!(syntax_error("n 1.2.3").to_string(), "Invalid float value: invalid float literal");
    assert_eq!(syntax_error("n 0xzz").to_string(), "Invalid integer value: invalid digit found in string");
    assert_eq!(
        syntax_error("n 0x8000000000000000").to_string(),
        "Invalid integer value: number too large to fit in target type"
    );
    assert_eq!(syntax_error("n $x").to_string(), "Ident strings can only contain the characters: a-z_-.");
    assert_eq!(syntax_error("n {").to_string(), "No closing bracket found");
    assert_eq!(syntax_error("n \"open").to_string(), "Expected string ending quote (\")");
}

#[test]
fn ident_string_error_points_at_char() {
    match syntax_error("n ab$c") {
        SyntaxError::IdentStringFailed { invalid_char, char } => {
            assert_eq!(char, '$');
            assert_eq!(invalid_char, Span::from_range(4, 5));
        }
        e => panic!("{:?}", e),
    }
}

#[test]
fn ident_strings_are_lower_case() {
    assert_eq!(
        ConfigValue::parse_ident_string(&mut Parser::new("Ab1")),
        Err(SyntaxError::IdentStringFailed { invalid_char: Span::from_range(0, 1), char: 'A' })
    );
    assert_eq!(
        ConfigValue::parse_ident_string(&mut Parser::new("ab1")),
        Err(SyntaxError::IdentStringFailed { invalid_char: Span::from_range(2, 3), char: '1' })
    );
}

#[test]
fn parse_error_leaves_cursor() {
    let mut p = Parser::new("n a=");
    assert!(ConfigNode::parse(&mut p).is_err());
    assert_eq!(p.str(), "n a=");
}

// ----- nodes -----

#[test]
fn with_prop_reads_back() {
    let mut node = ConfigNode::new("n").with_prop("a", ConfigValue::Int(3));
    assert_eq!(node.get_property("a").unwrap().inner, ConfigValue::Int(3));
    assert_eq!(node.consume_optional_property("a").unwrap().inner, ConfigValue::Int(3));
    assert_eq!(node.consume_optional_property("a"), None);
}

#[test]
fn first_property_of_a_name_wins() {
    let mut node = first_node("n a=1 a=2");
    assert_eq!(node.consume_property("a").unwrap().inner, ConfigValue::Int(1));
    assert_eq!(node.consume_property("a").unwrap().inner, ConfigValue::Int(2));
    let err = node.consume_property("a").unwrap_err();
    assert_eq!(err.to_string(), "Missing property: a.");
}

#[test]
fn with_arg_reads_back() {
    let mut node = ConfigNode::new("n").with_arg(ConfigValue::Int(1)).with_arg(ConfigValue::Bool(true));
    assert_eq!(node.consume_optional_argument().unwrap().inner, ConfigValue::Bool(true));
    assert_eq!(node.consume_argument().unwrap().inner, ConfigValue::Int(1));
    let err = node.consume_argument().unwrap_err();
    assert_eq!(err.to_string(), "Expected at least 3 argument(s), found 2.");
}

#[test]
fn terminate_needs_everything_consumed() {
    let mut node = first_node("n 1 2 { c }");
    let err = node.terminate().unwrap_err();
    assert_eq!(err.to_string(), "Unexpected node.");
    assert!(node.consume_child("c").is_ok());
    let err = node.terminate().unwrap_err();
    assert_eq!(err.to_string(), "Expected 0 argument(s), found 2.");
    node.consume_argument().unwrap();
    node.consume_argument().unwrap();
    assert_eq!(node.terminate(), Ok(()));
}

#[test]
fn terminate_needs_properties_consumed() {
    let mut n = ConfigNode::new("n").with_prop("p", ConfigValue::Int(1));
    let err = n.terminate().unwrap_err();
    assert_eq!(err.to_string(), "Unexpected property: p.");
    assert!(n.consume_optional_property("p").is_some());
    assert_eq!(n.terminate(), Ok(()));
}

#[test]
fn children_by_name() {
    let mut node = first_node("n {\na 1\nb\na 2\n}");
    let firsts = node.consume_children_matching(&AllowedNodeNames::from_single("a"));
    assert_eq!(firsts.len(), 2);
    assert!(node.consume_child_optional("a").is_none());
    assert!(node.consume_child("b").is_ok());
    let err = node.consume_child("b").unwrap_err();
    assert_eq!(err.to_string(), "Expected one of the following node types are: b");
    assert_eq!(node.terminate(), Ok(()));
}

#[test]
fn eq_no_span_ignores_spans() {
    let parsed = first_node("n 1 a=\"x\" { c }");
    let built = ConfigNode::new("n")
        .with_arg(ConfigValue::Int(1))
        .with_prop("a", ConfigValue::String("x"))
        .with_child(ConfigNode::new("c"));
    assert!(parsed.eq_no_span(&built));
    assert!(parsed.eq_no_span(&parsed));
    let other = ConfigNode::new("n").with_arg(ConfigValue::Int(2));
    assert!(!parsed.eq_no_span(&other));
}

#[test]
fn eq_no_span_with_repeated_property_names() {
    let node = first_node("n a=1 a=2");
    assert!(!node.eq_no_span(&node));
}

#[test]
fn deep_clone_is_equal() {
    let node = first_node("n 1 a=2 { c 3 { d } }");
    let copy = node.deep_clone();
    assert!(copy.eq_no_span(&node));
    assert!(node.eq_no_span(&copy));
}

// ----- reading values -----

#[test]
fn integer_conversions() {
    let v = Spanned::new(ConfigValue::Int(300), Span::from_range(0, 3));
    assert_eq!(<i64 as ParseConfigValue>::consume_value(v), Ok(300));
    assert_eq!(<u16 as ParseConfigValue>::consume_value(v), Ok(300));
    let err = <u8 as ParseConfigValue>::consume_value(v).unwrap_err();
    assert_eq!(
        err.to_string(),
        "Failed to convert number to u8: out of range integral type conversion attempted"
    );
    let b = Spanned::new(ConfigValue::Bool(true), Span::from_range(0, 4));
    let err = <i32 as ParseConfigValue>::consume_value(b).unwrap_err();
    assert_eq!(err.to_string(), "Expected type int but found bool");
    assert!(matches!(err, ConfigError::Type { expected: ConfigValueType::Int, found: ConfigValueType::Bool, .. }));
}

#[test]
fn string_conversions() {
    let v = Spanned::new(ConfigValue::String("hi"), Span::from_range(1, 3));
    assert_eq!(<String as ParseConfigValue>::consume_value(v), Ok("hi".to_string()));
    assert_eq!(&*<Box<str> as ParseConfigValue>::consume_value(v).unwrap(), "hi");
    assert_eq!(&*<Rc<str> as ParseConfigValue>::consume_value(v).unwrap(), "hi");
    assert_eq!(&*<Arc<str> as ParseConfigValue>::consume_value(v).unwrap(), "hi");
    assert_eq!(<PathBuf as ParseConfigValue>::consume_value(v).unwrap(), PathBuf::from("hi"));
    let spanned = <Spanned<String> as ParseConfigValue>::consume_value(v).unwrap();
    assert_eq!(spanned.span, Span::from_range(1, 3));
    let i = Spanned::new(ConfigValue::Int(1), Span::from_range(0, 1));
    assert_eq!(
        <String as ParseConfigValue>::consume_value(i).unwrap_err().to_string(),
        "Expected type string but found int"
    );
}

#[test]
fn config_node_reads_itself() {
    let node: ConfigNode = from_str("a\nb").unwrap();
    assert_eq!(node.name(), "document");
    assert_eq!(node.children().len(), 2);
}

#[test]
fn unexpected_node_lists_names() {
    let node = ConfigNode::new("zzz");
    let e = ConfigError::unexpected_node(&node, AllowedNodeNames::from_slice(&["a", "b"]));
    assert_eq!(e.to_string(), "Unexpected node type. Available node types are: a,b");
    assert!(!e.is_expect_item_error());
    let e = ConfigError::expected_property(&node, "p");
    assert!(e.is_expect_item_error());
}

// ----- names -----

#[test]
fn kebab_case() {
    assert_eq!(pascal_to_kebab("MyNode".to_string()), "my-node");
    assert_eq!(pascal_to_kebab("already-kebab".to_string()), "already-kebab");
    assert_eq!(pascal_to_kebab("\u{c9}cole".to_string()), "\u{e9}cole");
    assert_eq!(pascal_to_kebab(String::new()), "");
}

// ----- attributes -----

#[test]
fn field_attributes() {
    let a = FieldAttributes::parse(&vec![]).unwrap();
    assert!(matches!(a.handeling, FieldHandeling::Property(None)));
    assert_eq!(a.default, DefaultHandeling::Error);

    let a = FieldAttributes::parse(&vec![
        Attribute { path: "doc".to_string(), items: vec![] },
        config(vec![item("property", MetaArg::Str("renamed".to_string())), item("default", MetaArg::Nothing)]),
    ])
    .unwrap();
    match a.handeling {
        FieldHandeling::Property(Some(name)) => assert_eq!(&*name, "renamed"),
        h => panic!("{:?}", h),
    }
    assert_eq!(a.default, DefaultHandeling::DefaultTrait);
    assert_eq!(a.default.gen_code(), ".unwrap_or_else(|_|std::default::Default::default())");
    assert_eq!(DefaultHandeling::Error.gen_code(), "?");
}

#[test]
fn field_attribute_errors() {
    let e = FieldAttributes::parse(&vec![config(vec![
        item("child", MetaArg::Nothing),
        item("property", MetaArg::Str("a\"b".to_string())),
    ])])
    .unwrap_err();
    assert_eq!(e.to_string(), "Property(Some(\"a\\\"b\")) Child can't be used on the same field");
    let e = FieldAttributes::parse(&vec![config(vec![item("nope", MetaArg::Nothing)])]).unwrap_err();
    assert!(matches!(e, AttrError::Unknown { attr: 0, item: 0 }));
    assert_eq!(
        e.to_string(),
        "Unknown attribute valid attributes are: child, children, property, property(\"prop name\"), argument, arguments, default, flatten and node_name"
    );
    let e = FieldAttributes::parse(&vec![config(vec![item("property", MetaArg::Tokens(String::new()))])])
        .unwrap_err();
    assert_eq!(e.to_string(), "unexpected end of input, expected string literal");
    let e = FieldAttributes::parse(&vec![config(vec![item("property", MetaArg::Other)])]).unwrap_err();
    assert_eq!(e.to_string(), "expected parentheses");
    let e = FieldAttributes::parse(&vec![config(vec![item("child", MetaArg::Other)])]).unwrap_err();
    assert_eq!(e.to_string(), "expected `,`");
}

#[test]
fn variant_attributes() {
    let v = VariantAttributes::parse(&vec![]).unwrap();
    assert!(matches!(v.name, VariantName::FromVariant));
    assert_eq!(
        v.node_names("BuildStep"),
        "config_parser::AllowedNodeNames::from_single(\"build-step\")"
    );
    let v = VariantAttributes::parse(&vec![config(vec![item("node_name", MetaArg::Ident("any".to_string()))])])
        .unwrap();
    assert_eq!(v.node_names("X"), "config_parser::AllowedNodeNames::any()");
    let v = VariantAttributes::parse(&vec![config(vec![
        item("node_name", MetaArg::Tokens("Vec < T >".to_string())),
        item("impl_where", MetaArg::Tokens("T : Clone".to_string())),
    ])])
    .unwrap();
    assert_eq!(v.node_names("X"), "<Vec < T > as config_parser::ParseConfigNode>::allowed_node_names()");
    assert_eq!(v.impl_where.unwrap().added_predicates, "T : Clone");
    let e = VariantAttributes::parse(&vec![config(vec![item("node_name", MetaArg::Tokens("= =".to_string()))])])
        .unwrap_err();
    assert_eq!(
        e.to_string(),
        "Unknown node_name value. valid values are node_name=auto node_name=any node_name=\"new name\" node_name=MyForwardType"
    );
    let e = VariantAttributes::parse(&vec![config(vec![item("node_name", MetaArg::Nothing)])]).unwrap_err();
    assert_eq!(e.to_string(), "unexpected end of input, expected parentheses");
    let e = VariantAttributes::parse(&vec![config(vec![item("rename", MetaArg::Nothing)])]).unwrap_err();
    assert_eq!(e.to_string(), "Unknown variant attribute valid attributes are: impl_where, node_name");
}

#[test]
fn impl_where_must_hold_where_predicates() {
    let v = VariantAttributes::parse(&vec![config(vec![item("impl_where", MetaArg::Tokens(String::new()))])])
        .unwrap();
    assert_eq!(v.impl_where.unwrap().added_predicates, "");
    let v = VariantAttributes::parse(&vec![config(vec![item(
        "impl_where",
        MetaArg::Tokens("T : Clone , U : Copy ,".to_string()),
    )])])
    .unwrap();
    assert_eq!(v.impl_where.unwrap().added_predicates, "T : Clone , U : Copy ,");
    let e = VariantAttributes::parse(&vec![config(vec![
        item("node_name", MetaArg::Ident("any".to_string())),
        item("impl_where", MetaArg::Ident("T".to_string())),
    ])])
    .unwrap_err();
    assert!(matches!(e, AttrError::BadImplWhere { attr: 0, item: 1, .. }));
    assert_eq!(e.to_string(), "expected `:`");
    let e = VariantAttributes::parse(&vec![config(vec![item("impl_where", MetaArg::Str("T: Clone".to_string()))])])
        .unwrap_err();
    assert!(matches!(e, AttrError::BadImplWhere { attr: 0, item: 0, .. }));
    let e = VariantAttributes::parse(&vec![config(vec![item("impl_where", MetaArg::Other)])]).unwrap_err();
    assert_eq!(e.to_string(), "expected parentheses");
}

#[test]
fn property_names_are_written_as_debug_strings() {
    let e = FieldAttributes::parse(&vec![config(vec![
        item("child", MetaArg::Nothing),
        item("property", MetaArg::Str("a\u{1b}'b\\c\n".to_string())),
    ])])
    .unwrap_err();
    assert_eq!(
        e.to_string(),
        "Property(Some(\"a\\u{1b}'b\\\\c\\n\")) Child can't be used on the same field"
    );
    assert_eq!(
        e.to_string(),
        format!("Property(Some({:?})) Child can't be used on the same field", "a\u{1b}'b\\c\n")
    );
}

#[test]
fn property_value_right_before_a_closing_bracket() {
    assert_eq!(syntax_error("a { b c=\"d\"}").to_string(), "No closing bracket found");
    let mut a = first_node("a {\n b c=\"d\" }");
    let mut kids = a.consume_children_matching(&AllowedNodeNames::any());
    assert_eq!(kids.len(), 1);
    assert_eq!(kids[0].consume_optional_property_into::<String>("c").unwrap(), Some("d".to_string()));
}

// ----- derived code -----

fn no_generics() -> Generics {
    Generics { params: String::new(), ty_generics: String::new(), where_predicates: vec![] }
}

#[test]
fn derive_struct_code() {
    let fields = Fields::Named(vec![
        NamedField { ident: "name".to_string(), ty: "String".to_string(), attrs: vec![] },
        NamedField {
            ident: "kids".to_string(),
            ty: "Vec<Kid>".to_string(),
            attrs: vec![config(vec![item("children", MetaArg::Nothing)])],
        },
    ]);
    let init = gen_constructor(&fields).unwrap();
    assert_eq!(
        init,
        "{ name: node.consume_optional_property_into::<String>(\"name\")?.ok_or(config_parser::ConfigError::expected_property(node, \"name\"))?, kids: node.consume_children_into()?.into_iter().collect::<Vec<Kid>>() }"
    );
    let input = DeriveInput {
        ident: "MyNode".to_string(),
        attrs: vec![],
        generics: no_generics(),
        data: Data::Struct(fields),
    };
    let code = impl_config_node(input).unwrap();
    assert!(code.starts_with("impl<'c, > config_parser::ParseConfigNode<'c> for MyNode  where "));
    assert!(code.contains("config_parser::AllowedNodeNames::from_single(\"my-node\")"));
    assert!(code.parse::<proc_macro2::TokenStream>().is_ok());
}

#[test]
fn derive_tuple_and_unit() {
    assert_eq!(gen_constructor(&Fields::Unit).unwrap(), "");
    assert_eq!(gen_constructor(&Fields::Unnamed(0)).unwrap(), "()");
    assert_eq!(
        gen_constructor(&Fields::Unnamed(1)).unwrap(),
        "(config_parser::ParseConfigNode::consume_node(node, true)?)"
    );
    let e = gen_constructor(&Fields::Unnamed(2)).unwrap_err();
    assert_eq!(e.to_string(), "Only 1 field allowed in Tuple structs");
}

#[test]
fn derive_enum_code() {
    let input = DeriveInput {
        ident: "Step".to_string(),
        attrs: vec![],
        generics: Generics {
            params: "T".to_string(),
            ty_generics: "< T >".to_string(),
            where_predicates: vec!["T : Clone".to_string()],
        },
        data: Data::Enum(vec![
            Variant { ident: "Install".to_string(), attrs: vec![], fields: Fields::Unnamed(1) },
            Variant {
                ident: "Run".to_string(),
                attrs: vec![config(vec![item("node_name", MetaArg::Str("go".to_string()))])],
                fields: Fields::Unit,
            },
        ]),
    };
    let code = impl_config_node(input).unwrap();
    assert!(code.contains(
        "config_parser::AllowedNodeNames::empty().combine(config_parser::AllowedNodeNames::from_single(\"install\")).combine(config_parser::AllowedNodeNames::from_single(\"go\"))"
    ));
    assert!(code.contains("where T : Clone {"));
    assert!(code.parse::<proc_macro2::TokenStream>().is_ok());
}

#[test]
fn derive_value_code() {
    let data = Data::Enum(vec![
        Variant { ident: "Fast".to_string(), attrs: vec![], fields: Fields::Unit },
        Variant { ident: "VerySlow".to_string(), attrs: vec![], fields: Fields::Unnamed(0) },
    ]);
    let code = gen_value_code(&data).unwrap();
    assert!(code.contains("\"fast\" => Ok(Self::Fast), \"very-slow\" => Ok(Self::VerySlow()), "));
    assert!(code.contains("Valid options are: \", \"fast\", \"very-slow\"), val)"));
    let input = DeriveInput { ident: "Speed".to_string(), attrs: vec![], generics: no_generics(), data };
    let code = impl_config_value(input).unwrap();
    assert!(code.parse::<proc_macro2::TokenStream>().is_ok());
    let bad = Data::Enum(vec![Variant { ident: "A".to_string(), attrs: vec![], fields: Fields::Unnamed(1) }]);
    assert_eq!(gen_value_code(&bad).unwrap_err().to_string(), "Enum can not contain fields");
    assert!(matches!(gen_value_code(&Data::Union), Err(DeriveError::UnionValue)));
}

// ----- reading nodes into types -----

#[derive(Debug, PartialEq)]
struct Named {
    name: String,
    size: i64,
}

impl<'c> ParseConfigNode<'c> for Named {
    fn allowed_node_names() -> AllowedNodeNames {
        AllowedNodeNames::from_single("named")
    }

    fn consume_node(node: &mut ConfigNode<'c>, terminate: bool) -> Result<Self, ConfigError> {
        let me = Self {
            name: node
                .consume_optional_property_into::<String>("name")?
                .ok_or(ConfigError::expected_property(node, "name"))?,
            size: node
                .consume_optional_argument_into::<i64>()?
                .ok_or(ConfigError::expected_argument(node))?,
        };
        if terminate {
            node.terminate()?;
        }
        Ok(me)
    }
}

#[derive(Debug, PartialEq)]
struct Root {
    named: Named,
}

impl<'c> ParseConfigNode<'c> for Root {
    fn allowed_node_names() -> AllowedNodeNames {
        AllowedNodeNames::from_single("root")
    }

    fn consume_node(node: &mut ConfigNode<'c>, terminate: bool) -> Result<Self, ConfigError> {
        let me = Self {
            named: node
                .consume_optional_child_into::<Named>(true)?
                .ok_or(ConfigError::expected_children(node, Named::allowed_node_names()))?,
        };
        if terminate {
            node.terminate()?;
        }
        Ok(me)
    }
}

#[test]
fn read_into_types() {
    assert_eq!(
        from_str::<Root>("named 4 name=\"x\"").unwrap(),
        Root { named: Named { name: "x".to_string(), size: 4 } }
    );
    assert_eq!(
        from_str::<Root>("other").unwrap_err().to_string(),
        "Expected one of the following node types are: named"
    );
    assert_eq!(from_str::<Root>("named 4").unwrap_err().to_string(), "Missing property: name.");
    assert_eq!(
        from_str::<Root>("named name=x").unwrap_err().to_string(),
        "Expected at least 1 argument(s), found 0."
    );
    assert_eq!(
        from_str::<Root>("named 1 2 name=x").unwrap_err().to_string(),
        "Expected 1 argument(s), found 2."
    );
    assert_eq!(
        from_str::<Root>("named 1 name=x\nextra").unwrap_err().to_string(),
        "Unexpected node."
    );
}

#[test]
fn more_error_variants() {
    let min: Vec<char> = "-9223372036854775809".chars().collect();
    assert_eq!(int_from_str_radix(&min, 10).unwrap_err().kind, IntErrorKind::NegOverflow);
    let lowest: Vec<char> = "-9223372036854775808".chars().collect();
    assert_eq!(int_from_str_radix(&lowest, 10), Ok(i64::MIN));
    let empty: Vec<char> = Vec::new();
    assert_eq!(
        config_parser::float_literal_check(&empty).unwrap_err().kind,
        config_parser::FloatErrorKind::Empty
    );
    let ok: Vec<char> = "1.5e-3".chars().collect();
    assert!(config_parser::float_literal_check(&ok).is_ok());

    let e = VariantAttributes::parse(&vec![config(vec![item("node_name", MetaArg::Tokens(String::new()))])])
        .unwrap_err();
    assert!(e.to_string().starts_with("unexpected end of input, Unknown node_name value."));

    let union = DeriveInput { ident: "U".to_string(), attrs: vec![], generics: no_generics(), data: Data::Union };
    assert_eq!(
        impl_config_value(union).unwrap_err().to_string(),
        "Only tuple struct or tuple enums are supported"
    );
    let bad_attr = DeriveInput {
        ident: "S".to_string(),
        attrs: vec![config(vec![item("what", MetaArg::Nothing)])],
        generics: no_generics(),
        data: Data::Struct(Fields::Unit),
    };
    assert!(matches!(impl_config_node(bad_attr), Err(DeriveError::Attr(AttrError::UnknownVariant { attr: 0, item: 0 }))));
}

#[test]
fn single_name_allows_only_itself() {
    let one = AllowedNodeNames::from_single("x");
    assert!(one.is_allowed("x"));
    assert!(!one.is_allowed("y"));
    assert!(!one.is_allowed(""));
}
