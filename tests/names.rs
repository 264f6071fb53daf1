use scan_context::{extract_name, Field, FieldLink, SyntaxNode, SyntaxTree};

fn node(kind: &str, text: &str, fields: &[(Field, usize)], children: &[usize]) -> SyntaxNode {
    SyntaxNode {
        kind: kind.to_string(),
        start_line: 0,
        end_line: 0,
        text: text.to_string(),
        fields: fields.iter().map(|&(field, node)| FieldLink { field, node }).collect(),
        children: children.to_vec(),
    }
}

fn name(tree: &SyntaxTree, n: usize) -> Option<String> {
    extract_name(tree, n)
}

#[test]
fn named_declarations_use_the_name_field_verbatim() {
    let tree = SyntaxTree {
        nodes: vec![
            node("function_definition", "def go():", &[(Field::Name, 1)], &[1]),
            node("identifier", "go", &[], &[]),
            node("method_call_expression", "x.len()", &[(Field::Name, 3)], &[]),
            node("field_identifier", "len", &[], &[]),
            node("macro_invocation", "println!(\"a\")", &[(Field::Macro, 5)], &[]),
            node("identifier", "println", &[], &[]),
        ],
    };
    assert_eq!(name(&tree, 0).as_deref(), Some("go"));
    assert_eq!(name(&tree, 2).as_deref(), Some("len"));
    assert_eq!(name(&tree, 4).as_deref(), Some("println"));
}

#[test]
fn impl_blocks_use_type_then_trait_first_line() {
    let tree = SyntaxTree {
        nodes: vec![
            node("impl_item", "impl Display for Widget<\n    T> {}", &[(Field::Trait, 1), (Field::Type, 2)], &[]),
            node("type_identifier", "Display", &[], &[]),
            node("generic_type", "Widget<\n    T>", &[], &[]),
            node("impl_item", "impl Marker\r\n for () {}", &[(Field::Trait, 4)], &[]),
            node("type_identifier", "Marker\r\nextra", &[], &[]),
        ],
    };
    assert_eq!(name(&tree, 0).as_deref(), Some("Widget<"));
    assert_eq!(name(&tree, 3).as_deref(), Some("Marker"));
}

#[test]
fn let_patterns_are_reported_as_raw_text() {
    let tree = SyntaxTree {
        nodes: vec![
            node("let_declaration", "let (a,\n b) = p;", &[(Field::Pattern, 1)], &[]),
            node("tuple_pattern", "(a,\n b)", &[], &[]),
        ],
    };
    assert_eq!(name(&tree, 0).as_deref(), Some("(a,\n b)"));
}

#[test]
fn declarator_lists_take_the_first_named_declarator() {
    let tree = SyntaxTree {
        nodes: vec![
            node("lexical_declaration", "let a = 1, b = 2;", &[], &[1, 2, 3, 5]),
            node("let", "let", &[], &[]),
            node("variable_declarator", "[x]", &[], &[]),
            node("variable_declarator", "a = 1", &[(Field::Name, 4)], &[]),
            node("identifier", "a", &[], &[]),
            node("variable_declarator", "b = 2", &[(Field::Name, 6)], &[]),
            node("identifier", "b", &[], &[]),
            node("variable_declaration", "var;", &[], &[1, 99]),
            node("type_declaration", "type T int", &[], &[9]),
            node("type_spec", "T int", &[(Field::Name, 10)], &[]),
            node("type_identifier", "T", &[], &[]),
        ],
    };
    assert_eq!(name(&tree, 0).as_deref(), Some("a"));
    assert_eq!(name(&tree, 7), None);
    assert_eq!(name(&tree, 8).as_deref(), Some("T"));
}

#[test]
fn nested_fields_reach_the_wrapped_name() {
    let tree = SyntaxTree {
        nodes: vec![
            node("decorated_definition", "@cached\ndef f():", &[(Field::Definition, 1)], &[]),
            node("function_definition", "def f():", &[(Field::Name, 2)], &[]),
            node("identifier", "f", &[], &[]),
            node("field_declaration", "private int count;", &[(Field::Declarator, 4)], &[]),
            node("variable_declarator", "count", &[(Field::Name, 5)], &[]),
            node("identifier", "count", &[], &[]),
            node("local_variable_declaration", "int x;", &[(Field::Declarator, 7)], &[]),
            node("variable_declarator", "x", &[], &[]),
        ],
    };
    assert_eq!(name(&tree, 0).as_deref(), Some("f"));
    assert_eq!(name(&tree, 3).as_deref(), Some("count"));
    assert_eq!(name(&tree, 6), None);
}

#[test]
fn calls_assignments_and_imports() {
    let tree = SyntaxTree {
        nodes: vec![
            node("call_expression", "obj\n  .run()", &[(Field::Callee, 1)], &[]),
            node("member_expression", "obj\n  .run", &[], &[]),
            node("assignment", "x, y = 1, 2", &[(Field::Left, 3)], &[]),
            node("pattern_list", "x, y", &[], &[]),
            node("import_statement", "import {a,\n b} from 'm'", &[(Field::Source, 5)], &[]),
            node("string", "'m'", &[], &[]),
            node("import_statement", "import os", &[(Field::ModuleName, 7)], &[]),
            node("dotted_name", "os\nx", &[], &[]),
            node("use_declaration", "use a::{b,\n c};", &[(Field::Argument, 9)], &[]),
            node("scoped_use_list", "a::{b,\n c}", &[], &[]),
            node("short_var_declaration", "v := 3", &[(Field::Left, 11)], &[]),
            node("expression_list", "v", &[], &[]),
        ],
    };
    assert_eq!(name(&tree, 0).as_deref(), Some("obj"));
    assert_eq!(name(&tree, 2).as_deref(), Some("x, y"));
    assert_eq!(name(&tree, 4).as_deref(), Some("'m'"));
    assert_eq!(name(&tree, 6).as_deref(), Some("os\nx"));
    assert_eq!(name(&tree, 8).as_deref(), Some("a::{b,"));
    assert_eq!(name(&tree, 10).as_deref(), Some("v"));
}

#[test]
fn missing_names_are_absent_not_errors() {
    let tree = SyntaxTree {
        nodes: vec![
            node("function_item", "fn", &[], &[]),
            node("struct_item", "struct S;", &[(Field::Name, 50)], &[]),
            node("expression_statement", "f();", &[(Field::Name, 0)], &[]),
            node("novel_syntax", "???", &[(Field::Name, 0)], &[]),
        ],
    };
    assert_eq!(name(&tree, 0), None);
    assert_eq!(name(&tree, 1), None);
    assert_eq!(name(&tree, 2), None);
    assert_eq!(name(&tree, 3), None);
    assert_eq!(name(&tree, 4), None);
}

#[test]
fn field_labels_match_the_grammars() {
    let labels: Vec<&str> = Field::all().iter().map(|f| f.label()).collect();
    assert_eq!(
        labels,
        vec![
            "name", "type", "trait", "pattern", "argument", "left", "definition", "declarator",
            "function", "callee", "macro", "source", "module_name",
        ]
    );
}

#[test]
fn first_matching_field_link_is_used() {
    let tree = SyntaxTree {
        nodes: vec![
            node("mod_item", "mod m {}", &[(Field::Type, 1), (Field::Name, 2), (Field::Name, 1)], &[]),
            node("identifier", "wrong", &[], &[]),
            node("identifier", "m", &[], &[]),
        ],
    };
    assert_eq!(tree.field(0, Field::Name), Some(2));
    assert_eq!(tree.field(0, Field::Callee), None);
    assert_eq!(tree.field(7, Field::Name), None);
    assert_eq!(name(&tree, 0).as_deref(), Some("m"));
}
