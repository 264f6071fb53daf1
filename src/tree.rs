//! A parsed syntax tree held as plain values, and the name extractor over it.
use vstd::prelude::*;
use crate::text::{first_line, first_line_of, same_text};

verus! {

/// A named field through which a grammar links a node to one of its children.
#[derive(Clone, Copy, Debug, PartialEq, Eq, Structural)]
pub enum Field {
    Name,
    Type,
    Trait,
    Pattern,
    Argument,
    Left,
    Definition,
    Declarator,
    Function,
    Callee,
    Macro,
    Source,
    ModuleName,
}

/// The label that grammars give a field.
pub open spec fn field_label(f: Field) -> Seq<char> {
    match f {
        Field::Name => "name"@,
        Field::Type => "type"@,
        Field::Trait => "trait"@,
        Field::Pattern => "pattern"@,
        Field::Argument => "argument"@,
        Field::Left => "left"@,
        Field::Definition => "definition"@,
        Field::Declarator => "declarator"@,
        Field::Function => "function"@,
        Field::Callee => "callee"@,
        Field::Macro => "macro"@,
        Field::Source => "source"@,
        Field::ModuleName => "module_name"@,
    }
}

impl Field {
    /// The label of this field in the grammars.
    pub fn label(&self) -> (r: &'static str)
        ensures
            r@ == field_label(*self),
    {
        match self {
            Field::Name => "name",
            Field::Type => "type",
            Field::Trait => "trait",
            Field::Pattern => "pattern",
            Field::Argument => "argument",
            Field::Left => "left",
            Field::Definition => "definition",
            Field::Declarator => "declarator",
            Field::Function => "function",
            Field::Callee => "callee",
            Field::Macro => "macro",
            Field::Source => "source",
            Field::ModuleName => "module_name",
        }
    }

    /// Every field that the name extractor reads.
    pub fn all() -> (r: Vec<Field>)
        ensures
            forall|f: Field| r@.contains(f),
    {
        let r = vec![
            Field::Name,
            Field::Type,
            Field::Trait,
            Field::Pattern,
            Field::Argument,
            Field::Left,
            Field::Definition,
            Field::Declarator,
            Field::Function,
            Field::Callee,
            Field::Macro,
            Field::Source,
            Field::ModuleName,
        ];
        assert forall|f: Field| r@.contains(f) by {
            match f {
                Field::Name => assert(r@[0] == f),
                Field::Type => assert(r@[1] == f),
                Field::Trait => assert(r@[2] == f),
                Field::Pattern => assert(r@[3] == f),
                Field::Argument => assert(r@[4] == f),
                Field::Left => assert(r@[5] == f),
                Field::Definition => assert(r@[6] == f),
                Field::Declarator => assert(r@[7] == f),
                Field::Function => assert(r@[8] == f),
                Field::Callee => assert(r@[9] == f),
                Field::Macro => assert(r@[10] == f),
                Field::Source => assert(r@[11] == f),
                Field::ModuleName => assert(r@[12] == f),
            }
        }
        r
    }
}

/// A field of a node and the index of the node that it leads to.
#[derive(Clone, Copy, Debug, PartialEq, Eq, Structural)]
pub struct FieldLink {
    pub field: Field,
    pub node: usize,
}

/// One node of a syntax tree.
#[derive(Clone, Debug)]
pub struct SyntaxNode {
    /// The grammar's kind label, such as `function_item`.
    pub kind: String,
    /// First line of the node, 0-indexed.
    pub start_line: usize,
    /// Last line of the node, 0-indexed.
    pub end_line: usize,
    /// The node's source text.
    pub text: String,
    /// The node's named fields, each with the index of its node.
    pub fields: Vec<FieldLink>,
    /// The indices of the node's children, in source order.
    pub children: Vec<usize>,
}

/// A syntax tree whose nodes stand in depth-first (pre-order) traversal order,
/// the root first. Links are node indices; a link out of range leads nowhere.
#[derive(Clone, Debug)]
pub struct SyntaxTree {
    pub nodes: Vec<SyntaxNode>,
}

/// How much of a named node's text makes the name.
#[derive(Clone, Copy, Debug, PartialEq, Eq, Structural)]
pub enum Clip {
    Whole,
    FirstLine,
}

/// The kinds of child whose field names a multi-declarator statement.
#[derive(Clone, Copy, Debug, PartialEq, Eq, Structural)]
pub enum ChildKind {
    VariableDeclarator,
    TypeSpec,
}

/// The kind label of a child kind.
pub open spec fn child_label(c: ChildKind) -> Seq<char> {
    match c {
        ChildKind::VariableDeclarator => "variable_declarator"@,
        ChildKind::TypeSpec => "type_spec"@,
    }
}

/// Where a node of some kind keeps its name.
#[derive(Clone, Copy, Debug, PartialEq, Eq, Structural)]
pub enum NameRule {
    /// The kind has no name.
    Unnamed,
    /// The text of a field.
    Own(Field, Clip),
    /// The text of the first field, or else of the second.
    Either(Field, Field, Clip),
    /// The field of the first child of this kind that has it.
    Child(ChildKind, Field),
    /// The second field of the node under the first field.
    Nested(Field, Field),
}

/// Kinds whose `name` field holds their name.
pub open spec fn named_by_name_field(k: Seq<char>) -> bool {
    ||| k == "function_item"@
    ||| k == "struct_item"@
    ||| k == "enum_item"@
    ||| k == "trait_item"@
    ||| k == "mod_item"@
    ||| k == "type_alias"@
    ||| k == "type_item"@
    ||| k == "const_item"@
    ||| k == "static_item"@
    ||| k == "macro_definition"@
    ||| k == "function_declaration"@
    ||| k == "class_declaration"@
    ||| k == "interface_declaration"@
    ||| k == "method_definition"@
    ||| k == "variable_declarator"@
    ||| k == "function_definition"@
    ||| k == "class_definition"@
    ||| k == "method_declaration"@
    ||| k == "method_call_expression"@
}

/// The name rule of each kind.
pub open spec fn rule_of(k: Seq<char>) -> NameRule {
    if named_by_name_field(k) {
        NameRule::Own(Field::Name, Clip::Whole)
    } else if k == "impl_item"@ {
        NameRule::Either(Field::Type, Field::Trait, Clip::FirstLine)
    } else if k == "let_declaration"@ {
        NameRule::Own(Field::Pattern, Clip::Whole)
    } else if k == "use_declaration"@ {
        NameRule::Own(Field::Argument, Clip::FirstLine)
    } else if k == "variable_declaration"@ || k == "lexical_declaration"@ {
        NameRule::Child(ChildKind::VariableDeclarator, Field::Name)
    } else if k == "assignment"@ || k == "short_var_declaration"@ || k == "var_declaration"@ {
        NameRule::Own(Field::Left, Clip::FirstLine)
    } else if k == "decorated_definition"@ {
        NameRule::Nested(Field::Definition, Field::Name)
    } else if k == "type_declaration"@ {
        NameRule::Child(ChildKind::TypeSpec, Field::Name)
    } else if k == "field_declaration"@ || k == "local_variable_declaration"@ {
        NameRule::Nested(Field::Declarator, Field::Name)
    } else if k == "call_expression"@ {
        NameRule::Either(Field::Function, Field::Callee, Clip::FirstLine)
    } else if k == "macro_invocation"@ {
        NameRule::Own(Field::Macro, Clip::Whole)
    } else if k == "import_statement"@ || k == "import_declaration"@ {
        NameRule::Either(Field::Source, Field::ModuleName, Clip::Whole)
    } else {
        NameRule::Unnamed
    }
}

fn is_named_by_name_field(kind: &str) -> (r: bool)
    ensures
        r == named_by_name_field(kind@),
{
    same_text(kind, "function_item") || same_text(kind, "struct_item") || same_text(
        kind,
        "enum_item",
    ) || same_text(kind, "trait_item") || same_text(kind, "mod_item") || same_text(
        kind,
        "type_alias",
    ) || same_text(kind, "type_item") || same_text(kind, "const_item") || same_text(
        kind,
        "static_item",
    ) || same_text(kind, "macro_definition") || same_text(kind, "function_declaration")
        || same_text(kind, "class_declaration") || same_text(kind, "interface_declaration")
        || same_text(kind, "method_definition") || same_text(kind, "variable_declarator")
        || same_text(kind, "function_definition") || same_text(kind, "class_definition")
        || same_text(kind, "method_declaration") || same_text(kind, "method_call_expression")
}

/// Where a node of this kind keeps its name.
pub fn name_rule(kind: &str) -> (r: NameRule)
    ensures
        r == rule_of(kind@),
{
    if is_named_by_name_field(kind) {
        NameRule::Own(Field::Name, Clip::Whole)
    } else if same_text(kind, "impl_item") {
        NameRule::Either(Field::Type, Field::Trait, Clip::FirstLine)
    } else if same_text(kind, "let_declaration") {
        NameRule::Own(Field::Pattern, Clip::Whole)
    } else if same_text(kind, "use_declaration") {
        NameRule::Own(Field::Argument, Clip::FirstLine)
    } else if same_text(kind, "variable_declaration") || same_text(kind, "lexical_declaration") {
        NameRule::Child(ChildKind::VariableDeclarator, Field::Name)
    } else if same_text(kind, "assignment") || same_text(kind, "short_var_declaration")
        || same_text(kind, "var_declaration") {
        NameRule::Own(Field::Left, Clip::FirstLine)
    } else if same_text(kind, "decorated_definition") {
        NameRule::Nested(Field::Definition, Field::Name)
    } else if same_text(kind, "type_declaration") {
        NameRule::Child(ChildKind::TypeSpec, Field::Name)
    } else if same_text(kind, "field_declaration") || same_text(
        kind,
        "local_variable_declaration",
    ) {
        NameRule::Nested(Field::Declarator, Field::Name)
    } else if same_text(kind, "call_expression") {
        NameRule::Either(Field::Function, Field::Callee, Clip::FirstLine)
    } else if same_text(kind, "macro_invocation") {
        NameRule::Own(Field::Macro, Clip::Whole)
    } else if same_text(kind, "import_statement") || same_text(kind, "import_declaration") {
        NameRule::Either(Field::Source, Field::ModuleName, Clip::Whole)
    } else {
        NameRule::Unnamed
    }
}

/// The node that the first link for `f` at or after `i` leads to.
pub open spec fn link_from(links: Seq<FieldLink>, f: Field, i: int) -> Option<usize>
    decreases links.len() - i,
{
    if 0 <= i < links.len() {
        if links[i].field == f {
            Some(links[i].node)
        } else {
            link_from(links, f, i + 1)
        }
    } else {
        None
    }
}

/// The node under field `f` of node `n`, when both are in the tree.
pub open spec fn field_node(nodes: Seq<SyntaxNode>, n: int, f: Field) -> Option<usize> {
    if 0 <= n < nodes.len() {
        let c = link_from(nodes[n].fields@, f, 0);
        if c is Some && c->0 < nodes.len() {
            c
        } else {
            None
        }
    } else {
        None
    }
}

/// `t`, or its first line.
pub open spec fn clipped(t: Seq<char>, c: Clip) -> Seq<char> {
    match c {
        Clip::Whole => t,
        Clip::FirstLine => first_line_of(t),
    }
}

/// The clipped text of the node under field `f` of node `n`.
pub open spec fn field_text(nodes: Seq<SyntaxNode>, n: int, f: Field, c: Clip) -> Option<
    Seq<char>,
> {
    match field_node(nodes, n, f) {
        Some(m) => Some(clipped(nodes[m as int].text@, c)),
        None => None,
    }
}

/// The text under field `f` of the first child of `n`, from the `i`-th on, whose kind is
/// `ck` and that has field `f`.
pub open spec fn child_field_text(
    nodes: Seq<SyntaxNode>,
    n: int,
    ck: ChildKind,
    f: Field,
    i: int,
) -> Option<Seq<char>>
    decreases nodes[n].children@.len() - i,
{
    if 0 <= i < nodes[n].children@.len() {
        let c = nodes[n].children@[i] as int;
        if c < nodes.len() && nodes[c].kind@ == child_label(ck) && field_node(nodes, c, f) is Some {
            field_text(nodes, c, f, Clip::Whole)
        } else {
            child_field_text(nodes, n, ck, f, i + 1)
        }
    } else {
        None
    }
}

/// The name of node `n`, as its kind's rule finds it.
pub open spec fn name_of(nodes: Seq<SyntaxNode>, n: int) -> Option<Seq<char>> {
    if 0 <= n < nodes.len() {
        match rule_of(nodes[n].kind@) {
            NameRule::Unnamed => None,
            NameRule::Own(f, c) => field_text(nodes, n, f, c),
            NameRule::Either(f, g, c) => if field_node(nodes, n, f) is Some {
                field_text(nodes, n, f, c)
            } else {
                field_text(nodes, n, g, c)
            },
            NameRule::Child(ck, f) => child_field_text(nodes, n, ck, f, 0),
            NameRule::Nested(f, g) => match field_node(nodes, n, f) {
                Some(m) => field_text(nodes, m as int, g, Clip::Whole),
                None => None,
            },
        }
    } else {
        None
    }
}

/// The characters of an optional string.
pub open spec fn text_opt(o: Option<String>) -> Option<Seq<char>> {
    match o {
        Some(s) => Some(s@),
        None => None,
    }
}

impl SyntaxTree {
    /// The node under field `f` of node `n`, if the tree has both.
    pub fn field(&self, n: usize, f: Field) -> (r: Option<usize>)
        ensures
            r == field_node(self.nodes@, n as int, f),
    {
        if n >= self.nodes.len() {
            return None;
        }
        let links = &self.nodes[n].fields;
        let mut i: usize = 0;
        while i < links.len()
            invariant
                n < self.nodes@.len(),
                links == &self.nodes@[n as int].fields,
                i <= links@.len(),
                link_from(links@, f, 0) == link_from(links@, f, i as int),
            decreases links@.len() - i,
        {
            if links[i].field == f {
                let c = links[i].node;
                if c < self.nodes.len() {
                    return Some(c);
                } else {
                    return None;
                }
            }
            i += 1;
        }
        None
    }

    fn field_text(&self, n: usize, f: Field, c: Clip) -> (r: Option<String>)
        ensures
            text_opt(r) == field_text(self.nodes@, n as int, f, c),
    {
        match self.field(n, f) {
            Some(m) => {
                let t = self.nodes[m].text.as_str();
                match c {
                    Clip::Whole => Some(t.to_string()),
                    Clip::FirstLine => Some(first_line(t)),
                }
            },
            None => None,
        }
    }

    fn child_field_text(&self, n: usize, ck: ChildKind, f: Field) -> (r: Option<String>)
        requires
            n < self.nodes@.len(),
        ensures
            text_opt(r) == child_field_text(self.nodes@, n as int, ck, f, 0),
    {
        let children = &self.nodes[n].children;
        let want = match ck {
            ChildKind::VariableDeclarator => "variable_declarator",
            ChildKind::TypeSpec => "type_spec",
        };
        let mut i: usize = 0;
        while i < children.len()
            invariant
                n < self.nodes@.len(),
                children == &self.nodes@[n as int].children,
                want@ == child_label(ck),
                i <= children@.len(),
                child_field_text(self.nodes@, n as int, ck, f, 0) == child_field_text(
                    self.nodes@,
                    n as int,
                    ck,
                    f,
                    i as int,
                ),
            decreases children@.len() - i,
        {
            let c = children[i];
            if c < self.nodes.len() && same_text(self.nodes[c].kind.as_str(), want) && self.field(
                c,
                f,
            ).is_some() {
                return self.field_text(c, f, Clip::Whole);
            }
            i += 1;
        }
        None
    }
}

/// The name of node `n`: the text that its kind's rule points at, if the node has it.
pub fn extract_name(tree: &SyntaxTree, n: usize) -> (r: Option<String>)
    ensures
        text_opt(r) == name_of(tree.nodes@, n as int),
{
    if n >= tree.nodes.len() {
        return None;
    }
    match name_rule(tree.nodes[n].kind.as_str()) {
        NameRule::Unnamed => None,
        NameRule::Own(f, c) => tree.field_text(n, f, c),
        NameRule::Either(f, g, c) => {
            if tree.field(n, f).is_some() {
                tree.field_text(n, f, c)
            } else {
                tree.field_text(n, g, c)
            }
        },
        NameRule::Child(ck, f) => tree.child_field_text(n, ck, f),
        NameRule::Nested(f, g) => match tree.field(n, f) {
            Some(m) => tree.field_text(m, g, Clip::Whole),
            None => None,
        },
    }
}

} // verus!
