use scan_context::{
    build_line_index, extract_block_context, find_comment_block_bounds, find_context_above,
    find_context_below, find_inline_context, is_comment_only_line, CodeContext, Field, FieldLink,
    SyntaxNode, SyntaxTree,
};

fn node(kind: &str, start: usize, end: usize, text: &str) -> SyntaxNode {
    SyntaxNode {
        kind: kind.to_string(),
        start_line: start,
        end_line: end,
        text: text.to_string(),
        fields: Vec::new(),
        children: Vec::new(),
    }
}

fn with_field(mut n: SyntaxNode, field: Field, target: usize) -> SyntaxNode {
    n.fields.push(FieldLink { field, node: target });
    n
}

fn with_children(mut n: SyntaxNode, children: &[usize]) -> SyntaxNode {
    n.children = children.to_vec();
    n
}

fn check(c: &Option<CodeContext>, kind: &str, name: Option<&str>, text: &str, line: usize) {
    let c = c.as_ref().expect("a context record");
    assert_eq!(c.kind, kind);
    assert_eq!(c.name.as_deref(), name);
    assert_eq!(c.text, text);
    assert_eq!(c.line, line);
}

#[test]
fn marker_above_function_links_to_it() {
    let src = "// REQ-001: must validate input\nfn check(x: i32) -> bool { x > 0 }";
    let lines: Vec<&str> = src.lines().collect();
    let tree = SyntaxTree {
        nodes: vec![
            with_children(node("source_file", 0, 1, src), &[1, 2]),
            node("line_comment", 0, 0, "// REQ-001: must validate input"),
            with_children(
                with_field(node("function_item", 1, 1, lines[1]), Field::Name, 3),
                &[3, 4, 5, 6],
            ),
            node("identifier", 1, 1, "check"),
            node("parameters", 1, 1, "(x: i32)"),
            node("primitive_type", 1, 1, "bool"),
            with_children(node("block", 1, 1, "{ x > 0 }"), &[7]),
            node("binary_expression", 1, 1, "x > 0"),
        ],
    };
    let index = build_line_index(&tree, lines.len());
    assert_eq!(find_comment_block_bounds(0, &index, &lines), (0, 0));
    let ctx = extract_block_context(&tree, 0, &lines);
    assert!(ctx.above.is_none());
    assert!(ctx.inline.is_none());
    check(&ctx.below, "function_item", Some("check"), "fn check(x: i32) -> bool { x > 0 }", 2);
}

#[test]
fn blank_line_after_comment_block_is_skipped() {
    let lines = vec!["// REQ-002: bounded", "// see the design note", "", "let limit = 10;"];
    let tree = SyntaxTree {
        nodes: vec![
            node("source_file", 0, 3, ""),
            node("line_comment", 0, 0, lines[0]),
            node("line_comment", 1, 1, lines[1]),
            with_field(node("let_declaration", 3, 3, lines[3]), Field::Pattern, 4),
            node("identifier", 3, 3, "limit"),
            node("integer_literal", 3, 3, "10"),
        ],
    };
    let index = build_line_index(&tree, lines.len());
    assert_eq!(find_comment_block_bounds(0, &index, &lines), (0, 1));
    assert_eq!(find_comment_block_bounds(1, &index, &lines), (0, 1));
    let ctx = extract_block_context(&tree, 0, &lines);
    check(&ctx.below, "let_declaration", Some("limit"), "let limit = 10;", 4);
    assert!(ctx.above.is_none());
    assert!(ctx.inline.is_none());
}

#[test]
fn unclassified_code_falls_back_to_unknown() {
    let lines = vec!["// REQ-003", "\u{3000}\tfrobnicate widget  "];
    let tree = SyntaxTree {
        nodes: vec![
            node("source_file", 0, 1, ""),
            node("line_comment", 0, 0, lines[0]),
            node("novel_statement", 1, 1, "frobnicate widget"),
        ],
    };
    let ctx = extract_block_context(&tree, 0, &lines);
    check(&ctx.below, "unknown", None, "frobnicate widget", 2);
}

#[test]
fn higher_priority_node_wins_on_a_line() {
    let lines = vec!["// REQ-004", "run(() => { let x = 1; });"];
    let tree = SyntaxTree {
        nodes: vec![
            node("program", 0, 1, ""),
            node("comment", 0, 0, lines[0]),
            with_field(node("call_expression", 1, 1, lines[1]), Field::Function, 3),
            node("identifier", 1, 1, "run"),
            node("arrow_function", 1, 1, "() => { let x = 1; }"),
            with_children(node("lexical_declaration", 1, 1, "let x = 1;"), &[6]),
            with_field(node("variable_declarator", 1, 1, "x = 1"), Field::Name, 7),
            node("identifier", 1, 1, "x"),
        ],
    };
    let ctx = extract_block_context(&tree, 0, &lines);
    check(&ctx.below, "lexical_declaration", Some("x"), "let x = 1;", 2);
}

#[test]
fn equal_priority_keeps_the_first_in_traversal_order() {
    let lines = vec!["// REQ-008", "a(); b();"];
    let tree = SyntaxTree {
        nodes: vec![
            node("source_file", 0, 1, ""),
            node("line_comment", 0, 0, lines[0]),
            node("expression_statement", 1, 1, "a();"),
            with_field(node("call_expression", 1, 1, "a()"), Field::Function, 4),
            node("identifier", 1, 1, "a"),
            node("expression_statement", 1, 1, "b();"),
            with_field(node("call_expression", 1, 1, "b()"), Field::Function, 7),
            node("identifier", 1, 1, "b"),
        ],
    };
    let ctx = extract_block_context(&tree, 0, &lines);
    check(&ctx.below, "call_expression", Some("a"), "a()", 2);
}

#[test]
fn code_above_is_found_past_blank_lines() {
    let lines = vec!["let ready = true;", "", "// REQ-005", "// continued"];
    let tree = SyntaxTree {
        nodes: vec![
            node("source_file", 0, 3, ""),
            with_field(node("let_declaration", 0, 0, lines[0]), Field::Pattern, 2),
            node("identifier", 0, 0, "ready"),
            node("line_comment", 2, 2, lines[2]),
            node("line_comment", 3, 3, lines[3]),
        ],
    };
    let index = build_line_index(&tree, lines.len());
    assert_eq!(find_comment_block_bounds(3, &index, &lines), (2, 3));
    check(&find_context_above(2, &index, &lines), "let_declaration", Some("ready"), lines[0], 1);
    assert!(find_context_below(3, &index, &lines).is_none());
    let ctx = extract_block_context(&tree, 3, &lines);
    check(&ctx.above, "let_declaration", Some("ready"), lines[0], 1);
    assert!(ctx.below.is_none());
}

#[test]
fn closing_brace_above_is_unknown_code() {
    let lines = vec!["}", "// REQ-006"];
    let tree = SyntaxTree {
        nodes: vec![node("source_file", 0, 1, ""), node("line_comment", 1, 1, lines[1])],
    };
    let ctx = extract_block_context(&tree, 1, &lines);
    check(&ctx.above, "unknown", None, "}", 1);
    assert!(ctx.below.is_none());
    assert!(ctx.inline.is_none());
}

#[test]
fn trailing_marker_reports_inline_code() {
    let lines = vec!["let port = 8080; // REQ-007"];
    let tree = SyntaxTree {
        nodes: vec![
            node("source_file", 0, 0, lines[0]),
            with_field(node("let_declaration", 0, 0, "let port = 8080;"), Field::Pattern, 2),
            node("identifier", 0, 0, "port"),
            node("integer_literal", 0, 0, "8080"),
            node("line_comment", 0, 0, "// REQ-007"),
        ],
    };
    let index = build_line_index(&tree, lines.len());
    assert!(!is_comment_only_line(0, &index, &lines));
    check(&find_inline_context(0, &index, &lines), "let_declaration", Some("port"), "let port = 8080;", 1);
    let ctx = extract_block_context(&tree, 0, &lines);
    check(&ctx.inline, "let_declaration", Some("port"), "let port = 8080;", 1);
    assert!(ctx.above.is_none());
    assert!(ctx.below.is_none());
}

#[test]
fn block_is_the_maximal_comment_run() {
    let lines = vec!["fn f() {}", "// a", "  # b", "/* c */", "x = 1 // d", "// e"];
    let tree = SyntaxTree {
        nodes: vec![
            node("source_file", 0, 5, ""),
            node("function_item", 0, 0, lines[0]),
            node("line_comment", 1, 1, "// a"),
            node("comment", 2, 2, "# b"),
            node("block_comment", 3, 3, "/* c */"),
            node("assignment", 4, 4, "x = 1"),
            node("line_comment", 4, 4, "// d"),
            node("line_comment", 5, 5, "// e"),
        ],
    };
    let index = build_line_index(&tree, lines.len());
    let only: Vec<bool> = (0..lines.len()).map(|l| is_comment_only_line(l, &index, &lines)).collect();
    assert_eq!(only, vec![false, true, true, true, false, true]);
    for c in 1..4 {
        assert_eq!(find_comment_block_bounds(c, &index, &lines), (1, 3));
    }
    assert_eq!(find_comment_block_bounds(5, &index, &lines), (5, 5));
    assert!(!is_comment_only_line(6, &index, &lines));
}

#[test]
fn lone_marker_is_its_own_block() {
    let lines = vec!["let a = 1;", "// REQ-009", "let b = 2;"];
    let tree = SyntaxTree {
        nodes: vec![
            node("source_file", 0, 2, ""),
            node("let_declaration", 0, 0, lines[0]),
            node("line_comment", 1, 1, lines[1]),
            node("let_declaration", 2, 2, lines[2]),
        ],
    };
    let index = build_line_index(&tree, lines.len());
    assert_eq!(find_comment_block_bounds(1, &index, &lines), (1, 1));
    let ctx = extract_block_context(&tree, 1, &lines);
    check(&ctx.above, "let_declaration", None, "let a = 1;", 1);
    check(&ctx.below, "let_declaration", None, "let b = 2;", 3);
}

#[test]
fn blank_line_with_a_comment_node_stays_in_the_block() {
    let lines = vec!["// a", "   ", "// b", "code()"];
    let tree = SyntaxTree {
        nodes: vec![
            node("source_file", 0, 3, ""),
            node("line_comment", 0, 0, "// a"),
            node("comment", 1, 1, ""),
            node("line_comment", 2, 2, "// b"),
        ],
    };
    let index = build_line_index(&tree, lines.len());
    assert_eq!(find_comment_block_bounds(0, &index, &lines), (0, 2));
    let ctx = extract_block_context(&tree, 0, &lines);
    check(&ctx.below, "unknown", None, "code()", 4);
}

#[test]
fn docstring_lines_are_not_code() {
    let lines = vec!["# REQ-010", "'''", "\"\"\"doc\"\"\"", "x = 1"];
    let tree = SyntaxTree { nodes: vec![node("module", 0, 3, ""), node("comment", 0, 0, lines[0])] };
    let ctx = extract_block_context(&tree, 0, &lines);
    check(&ctx.below, "unknown", None, "x = 1", 4);
}

#[test]
fn lines_outside_the_source_give_no_record() {
    let lines = vec!["// only", "call()"];
    let tree = SyntaxTree {
        nodes: vec![node("source_file", 0, 1, ""), node("line_comment", 0, 0, lines[0])],
    };
    let ctx = extract_block_context(&tree, 40, &lines);
    assert!(ctx.inline.is_none());
    assert!(ctx.below.is_none());
    check(&ctx.above, "unknown", None, "call()", 2);
    let far = extract_block_context(&tree, usize::MAX, &lines);
    assert!(far.inline.is_none());
    assert!(far.below.is_none());
    check(&far.above, "unknown", None, "call()", 2);
    let empty: Vec<&str> = Vec::new();
    let nothing = extract_block_context(&SyntaxTree { nodes: Vec::new() }, 0, &empty);
    assert!(nothing.above.is_none() && nothing.below.is_none() && nothing.inline.is_none());
}

#[test]
fn line_index_holds_one_entry_per_line() {
    let lines = vec!["// c", "let a = 1;", "f();"];
    let tree = SyntaxTree {
        nodes: vec![
            node("source_file", 0, 2, ""),
            node("line_comment", 0, 0, lines[0]),
            node("let_declaration", 1, 1, lines[1]),
            node("identifier", 1, 1, "a"),
            node("expression_statement", 2, 2, "f();"),
            node("call_expression", 2, 2, "f()"),
            node("let_declaration", 9, 9, "beyond the source"),
        ],
    };
    let index = build_line_index(&tree, lines.len());
    assert_eq!(index.comments, vec![true, false, false]);
    assert_eq!(index.nodes.len(), 3);
    assert_eq!(index.nodes[0].len(), 0);
    assert_eq!(index.nodes[1].len(), 1);
    assert_eq!(index.nodes[1][0].priority, 80);
    let kinds: Vec<&str> = index.nodes[2].iter().map(|i| i.kind.as_str()).collect();
    assert_eq!(kinds, vec!["expression_statement", "call_expression"]);
}
