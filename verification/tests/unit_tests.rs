use config_parser::parse::{is_whitespace, skip_space_and_comments, Parser};
use config_parser::{ConfigNode, ConfigValue, Span, Spanned};

fn float_of(v: &Spanned<ConfigValue>) -> f64 {
    match v.inner {
        ConfigValue::Float(text) => text.parse::<f64>().unwrap(),
        _ => panic!("not a float: {:?}", v),
    }
}

#[test]
fn parse_is_whitespace() {
    assert!(is_whitespace('\n'));
}

#[test]
fn parse_utils_is_whitespace() {
    assert!(is_whitespace('\n'));
}

#[test]
fn parse_skip_space_and_comments_no_newlines() {
    let mut parser = Parser::new("  //hello\nyow");
    assert_eq!(skip_space_and_comments(&mut parser, false), Ok(()));
    assert_eq!(skip_space_and_comments(&mut parser, false), Ok(()));
    assert_eq!(parser.str(), "\nyow");
}

#[test]
fn parse_utils_skip_space_and_comments_no_newlines() {
    let mut parser = Parser::new("  //hello\nyow");
    assert_eq!(skip_space_and_comments(&mut parser, false), Ok(()));
    assert_eq!(skip_space_and_comments(&mut parser, false), Ok(()));
    assert_eq!(parser.str(), "\nyow");
}

#[test]
fn parse_skip_space_and_comments() {
    let mut parser = Parser::new("  //hello\n\n");
    assert_eq!(skip_space_and_comments(&mut parser, true), Ok(()));
    assert_eq!(parser.str(), "");
}

#[test]
fn parse_utils_skip_space_and_comments() {
    let mut parser = Parser::new("  //hello\n\n");
    assert_eq!(skip_space_and_comments(&mut parser, true), Ok(()));
    assert_eq!(parser.str(), "");
}

fn check_parse_number() {
    assert_eq!(
        ConfigValue::parse_number(&mut Parser::new("0xff")),
        Ok(Some(Spanned::new(ConfigValue::Int(0xFF), Span::from_range(0, 4))))
    );

    assert_eq!(
        ConfigValue::parse_number(&mut Parser::new("0b0101")),
        Ok(Some(Spanned::new(ConfigValue::Int(0b0101), Span::from_range(0, 6))))
    );

    assert_eq!(
        ConfigValue::parse_number(&mut Parser::new("67")),
        Ok(Some(Spanned::new(ConfigValue::Int(67), Span::from_range(0, 2))))
    );

    let float = ConfigValue::parse_number(&mut Parser::new("1.3")).unwrap().unwrap();
    assert_eq!(float.span, Span::from_range(0, 3));
    assert_eq!(float_of(&float), 1.3);
}

#[test]
fn parse_parse_number() {
    check_parse_number();
}

#[test]
fn config_value_parse_number() {
    check_parse_number();
}

fn check_parse_node() {
    let code = "test_node";
    let mut node = ConfigNode::parse(&mut Parser::new(code)).unwrap().unwrap();
    assert_eq!(node.name_spanned(), Spanned::new("test_node", Span::from_range(0, 9)));
    assert!(node.properties().is_empty());
    assert!(node.children().is_empty());
    assert_eq!(node.consume_optional_argument(), None);
    assert_eq!(node.terminate(), Ok(()));
}

#[test]
fn parse_parse_node() {
    check_parse_node();
}

#[test]
fn config_node_parse_node() {
    check_parse_node();
}

fn check_parse_node_with_prop() {
    let code = "test_node /* next is an argument */ 1.3";
    let mut node = ConfigNode::parse(&mut Parser::new(code)).unwrap().unwrap();
    assert_eq!(node.name_spanned(), Spanned::new("test_node", Span::from_range(0, 9)));
    assert!(node.properties().is_empty());
    assert!(node.children().is_empty());
    let arg = node.consume_optional_argument().unwrap();
    assert_eq!(arg.span, Span::from_range(36, 39));
    assert_eq!(float_of(&arg), 1.3);
    assert_eq!(node.consume_optional_argument(), None);
    assert_eq!(node.terminate(), Ok(()));
}

#[test]
fn parse_parse_node_with_prop() {
    check_parse_node_with_prop();
}

#[test]
fn config_node_parse_node_with_prop() {
    check_parse_node_with_prop();
}
