use config_parser::attributes::{Attribute, MetaArg, MetaItem};
use config_parser::derive::{impl_config_node, Data, DeriveInput, Fields, Generics, NamedField};
use config_parser::{from_str, ConfigNode};

// The impls below are the code that the `ConfigNode` derive writes for
// `struct Node1;`, `struct Node2;` and `struct Test2 { #[config(children)]
// node1: Vec<Node1>, #[config(children)] node2: Vec<Node2> }`; the test
// `derived_code_is_what_stands_here` checks that.

#[derive(Debug, PartialEq)]
struct Node1;
#[derive(Debug, PartialEq)]
struct Node2;

#[derive(Debug, PartialEq)]
struct Test2 {
    node1: Vec<Node1>,
    node2: Vec<Node2>,
}

const NODE1_IMPL: &str = "impl<'c, > config_parser::ParseConfigNode<'c> for Node1  where  { fn allowed_node_names() -> config_parser::AllowedNodeNames { config_parser::AllowedNodeNames::from_single(\"node1\") } fn consume_node(node: &mut config_parser::ConfigNode<'c>, terminate: bool) -> Result<Self, config_parser::ConfigError> { let me = Self ; if terminate { node.terminate()?; } Ok(me) } }";

impl<'c, > config_parser::ParseConfigNode<'c> for Node1  where  { fn allowed_node_names() -> config_parser::AllowedNodeNames { config_parser::AllowedNodeNames::from_single("node1") } fn consume_node(node: &mut config_parser::ConfigNode<'c>, terminate: bool) -> Result<Self, config_parser::ConfigError> { let me = Self ; if terminate { node.terminate()?; } Ok(me) } }

impl<'c, > config_parser::ParseConfigNode<'c> for Node2  where  { fn allowed_node_names() -> config_parser::AllowedNodeNames { config_parser::AllowedNodeNames::from_single("node2") } fn consume_node(node: &mut config_parser::ConfigNode<'c>, terminate: bool) -> Result<Self, config_parser::ConfigError> { let me = Self ; if terminate { node.terminate()?; } Ok(me) } }

const TEST2_IMPL: &str = "impl<'c, > config_parser::ParseConfigNode<'c> for Test2  where  { fn allowed_node_names() -> config_parser::AllowedNodeNames { config_parser::AllowedNodeNames::from_single(\"test2\") } fn consume_node(node: &mut config_parser::ConfigNode<'c>, terminate: bool) -> Result<Self, config_parser::ConfigError> { let me = Self { node1: node.consume_children_into()?.into_iter().collect::<Vec<Node1>>(), node2: node.consume_children_into()?.into_iter().collect::<Vec<Node2>>() }; if terminate { node.terminate()?; } Ok(me) } }";

impl<'c, > config_parser::ParseConfigNode<'c> for Test2  where  { fn allowed_node_names() -> config_parser::AllowedNodeNames { config_parser::AllowedNodeNames::from_single("test2") } fn consume_node(node: &mut config_parser::ConfigNode<'c>, terminate: bool) -> Result<Self, config_parser::ConfigError> { let me = Self { node1: node.consume_children_into()?.into_iter().collect::<Vec<Node1>>(), node2: node.consume_children_into()?.into_iter().collect::<Vec<Node2>>() }; if terminate { node.terminate()?; } Ok(me) } }

// What the derive writes for `struct Shared { #[config(children)] node1:
// std::rc::Rc<[Node1]> }`: children collect into any type built from them.
#[derive(Debug, PartialEq)]
struct Shared {
    node1: std::rc::Rc<[Node1]>,
}

const SHARED_IMPL: &str = "impl<'c, > config_parser::ParseConfigNode<'c> for Shared  where  { fn allowed_node_names() -> config_parser::AllowedNodeNames { config_parser::AllowedNodeNames::from_single(\"shared\") } fn consume_node(node: &mut config_parser::ConfigNode<'c>, terminate: bool) -> Result<Self, config_parser::ConfigError> { let me = Self { node1: node.consume_children_into()?.into_iter().collect::<std::rc::Rc<[Node1]>>() }; if terminate { node.terminate()?; } Ok(me) } }";

impl<'c, > config_parser::ParseConfigNode<'c> for Shared  where  { fn allowed_node_names() -> config_parser::AllowedNodeNames { config_parser::AllowedNodeNames::from_single("shared") } fn consume_node(node: &mut config_parser::ConfigNode<'c>, terminate: bool) -> Result<Self, config_parser::ConfigError> { let me = Self { node1: node.consume_children_into()?.into_iter().collect::<std::rc::Rc<[Node1]>>() }; if terminate { node.terminate()?; } Ok(me) } }

fn no_generics() -> Generics {
    Generics { params: String::new(), ty_generics: String::new(), where_predicates: vec![] }
}

fn children_field(name: &str, ty: &str) -> NamedField {
    NamedField {
        ident: name.to_string(),
        ty: ty.to_string(),
        attrs: vec![Attribute {
            path: "config".to_string(),
            items: vec![MetaItem { path: "children".to_string(), arg: MetaArg::Nothing }],
        }],
    }
}

#[test]
fn derived_code_is_what_stands_here() {
    let node1 = DeriveInput {
        ident: "Node1".to_string(),
        attrs: vec![],
        generics: no_generics(),
        data: Data::Struct(Fields::Unit),
    };
    assert_eq!(impl_config_node(node1).unwrap(), NODE1_IMPL);
    let test2 = DeriveInput {
        ident: "Test2".to_string(),
        attrs: vec![],
        generics: no_generics(),
        data: Data::Struct(Fields::Named(vec![
            children_field("node1", "Vec<Node1>"),
            children_field("node2", "Vec<Node2>"),
        ])),
    };
    assert_eq!(impl_config_node(test2).unwrap(), TEST2_IMPL);
}

#[test]
fn multiple_config_children_in_one_node() {
    let code = r#"
node1
node1
node2
node1
"#;

    assert_eq!(
        from_str::<Test2>(code).unwrap(),
        Test2 {
            node1: vec![Node1, Node1, Node1],
            node2: vec![Node2]
        }
    );
}

#[test]
fn read_node_back() {
    let node: ConfigNode = from_str("node1").unwrap();
    assert_eq!(node.children().len(), 1);
}

#[test]
fn children_collect_into_a_shared_slice() {
    let shared = DeriveInput {
        ident: "Shared".to_string(),
        attrs: vec![],
        generics: no_generics(),
        data: Data::Struct(Fields::Named(vec![children_field("node1", "std::rc::Rc<[Node1]>")])),
    };
    assert_eq!(impl_config_node(shared).unwrap(), SHARED_IMPL);
    let read: Shared = from_str("node1\nnode1").unwrap();
    assert_eq!(&*read.node1, &[Node1, Node1][..]);
}
