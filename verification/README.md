# config_parser

A mostly KDL compatible configuration parser, verified with Verus.

```kdl
my_node properties_are_supported=#true {
    quoted-string "i am quoted"
    ident-string i_am_ident
    bool #true
    number 1
    hex-number 0xf
    bin-number 0b00
    float-number 0.5
    inline-comments /* inline comments are supported */ #true
}
```

## Layout

- `src/` is the verified library.
  - `source.rs`, `lexer.rs`: the cursor over a text, whitespace, comments and
    identifiers.
  - `number.rs`, `parse_value.rs`: numbers, booleans, quoted and unquoted
    strings. Floats are kept as the text of their literal.
  - `parse_node.rs`, `document.rs`: nodes, their arguments, properties and
    children, and whole documents. Each parser is specified by a spec
    function over the characters of the text (`spec_parse_node`,
    `spec_parse_document`, ...), and the executable parser is proved to
    compute it.
  - `node.rs`: nodes and the operations that consume their arguments,
    properties and children while a node is read into a type.
  - `traits.rs`, `impls.rs`: `ParseConfigNode` and `ParseConfigValue`, and
    their impls for common types.
  - `allowed.rs`, `error.rs`, `syntax_error.rs`: node name lists and errors
    with their messages.
  - `attributes.rs`, `derive.rs`, `case.rs`: what the `ConfigNode` and
    `ConfigValue` derives read from attributes and the impls they write, as
    source text.
  - `laws.rs`: properties that span several operations.
- `app/` holds what Verus does not see: `miette` diagnostics, the derive entry
  points on `syn` input, conversion of float literals and a command line
  front end.
- `tests/` runs the library on examples.
