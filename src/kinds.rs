//! The node classifier: which node kinds are worth reporting, which are scopes,
//! how they rank on a shared line, and where each kind keeps its name.
use vstd::prelude::*;
use crate::text::same_text;

verus! {

/// Function and method definitions.
pub open spec fn function_kind(k: Seq<char>) -> bool {
    ||| k == "function_item"@
    ||| k == "function_definition"@
    ||| k == "function_declaration"@
    ||| k == "method_definition"@
    ||| k == "method_declaration"@
}

/// Type definitions: structs, classes, interfaces, enums, traits and type aliases.
pub open spec fn type_kind(k: Seq<char>) -> bool {
    ||| k == "type_declaration"@
    ||| k == "trait_definition"@
    ||| k == "struct_item"@
    ||| k == "struct_definition"@
    ||| k == "class_declaration"@
    ||| k == "class_definition"@
    ||| k == "interface_declaration"@
    ||| k == "enum_item"@
    ||| k == "enum_declaration"@
    ||| k == "trait_item"@
    ||| k == "type_alias"@
    ||| k == "type_item"@
}

/// Variable, constant and field declarations.
pub open spec fn declaration_kind(k: Seq<char>) -> bool {
    ||| k == "let_declaration"@
    ||| k == "const_declaration"@
    ||| k == "const_item"@
    ||| k == "static_item"@
    ||| k == "variable_declaration"@
    ||| k == "lexical_declaration"@
    ||| k == "short_var_declaration"@
    ||| k == "var_declaration"@
    ||| k == "field_declaration"@
    ||| k == "local_variable_declaration"@
}

/// Assignments.
pub open spec fn assignment_kind(k: Seq<char>) -> bool {
    ||| k == "assignment_expression"@
    ||| k == "assignment_statement"@
    ||| k == "assignment"@
}

/// Calls and macro invocations.
pub open spec fn call_kind(k: Seq<char>) -> bool {
    ||| k == "call_expression"@
    ||| k == "method_call_expression"@
    ||| k == "macro_invocation"@
}

/// Imports and use declarations.
pub open spec fn import_kind(k: Seq<char>) -> bool {
    ||| k == "use_declaration"@
    ||| k == "import_statement"@
    ||| k == "import_declaration"@
}

/// The kinds worth reporting as the code that a comment is about.
pub open spec fn interesting(k: Seq<char>) -> bool {
    ||| function_kind(k)
    ||| type_kind(k)
    ||| declaration_kind(k)
    ||| assignment_kind(k)
    ||| call_kind(k)
    ||| import_kind(k)
    ||| k == "arrow_function"@
    ||| k == "function_expression"@
    ||| k == "lambda_expression"@
    ||| k == "variable_declarator"@
    ||| k == "impl_item"@
    ||| k == "macro_definition"@
    ||| k == "expression_statement"@
    ||| k == "return_statement"@
    ||| k == "mod_item"@
    ||| k == "module_declaration"@
    ||| k == "package_clause"@
    ||| k == "namespace_definition"@
    ||| k == "decorated_definition"@
}

/// The kinds that can lexically contain other code.
pub open spec fn scope(k: Seq<char>) -> bool {
    ||| function_kind(k)
    ||| k == "arrow_function"@
    ||| k == "lambda_expression"@
    ||| k == "closure_expression"@
    ||| k == "struct_item"@
    ||| k == "struct_definition"@
    ||| k == "class_declaration"@
    ||| k == "class_definition"@
    ||| k == "interface_declaration"@
    ||| k == "type_declaration"@
    ||| k == "enum_item"@
    ||| k == "enum_declaration"@
    ||| k == "trait_item"@
    ||| k == "trait_definition"@
    ||| k == "impl_item"@
    ||| k == "mod_item"@
    ||| k == "module_declaration"@
    ||| k == "namespace_definition"@
    ||| k == "decorated_definition"@
}

/// The rank of a kind among the nodes that start on one line; higher wins.
pub open spec fn priority(k: Seq<char>) -> int {
    if function_kind(k) {
        100
    } else if type_kind(k) {
        90
    } else if k == "impl_item"@ {
        85
    } else if declaration_kind(k) {
        80
    } else if assignment_kind(k) {
        70
    } else if call_kind(k) {
        60
    } else if k == "return_statement"@ {
        50
    } else if import_kind(k) {
        45
    } else if k == "expression_statement"@ {
        30
    } else if k == "decorated_definition"@ {
        25
    } else {
        10
    }
}

fn is_function_kind(kind: &str) -> (r: bool)
    ensures
        r == function_kind(kind@),
{
    same_text(kind, "function_item") || same_text(kind, "function_definition") || same_text(
        kind,
        "function_declaration",
    ) || same_text(kind, "method_definition") || same_text(kind, "method_declaration")
}

fn is_type_kind(kind: &str) -> (r: bool)
    ensures
        r == type_kind(kind@),
{
    same_text(kind, "type_declaration") || same_text(kind, "trait_definition") || same_text(
        kind,
        "struct_item",
    ) || same_text(kind, "struct_definition") || same_text(kind, "class_declaration")
        || same_text(kind, "class_definition") || same_text(kind, "interface_declaration")
        || same_text(kind, "enum_item") || same_text(kind, "enum_declaration") || same_text(
        kind,
        "trait_item",
    ) || same_text(kind, "type_alias") || same_text(kind, "type_item")
}

fn is_declaration_kind(kind: &str) -> (r: bool)
    ensures
        r == declaration_kind(kind@),
{
    same_text(kind, "let_declaration") || same_text(kind, "const_declaration") || same_text(
        kind,
        "const_item",
    ) || same_text(kind, "static_item") || same_text(kind, "variable_declaration") || same_text(
        kind,
        "lexical_declaration",
    ) || same_text(kind, "short_var_declaration") || same_text(kind, "var_declaration")
        || same_text(kind, "field_declaration") || same_text(kind, "local_variable_declaration")
}

fn is_assignment_kind(kind: &str) -> (r: bool)
    ensures
        r == assignment_kind(kind@),
{
    same_text(kind, "assignment_expression") || same_text(kind, "assignment_statement")
        || same_text(kind, "assignment")
}

fn is_call_kind(kind: &str) -> (r: bool)
    ensures
        r == call_kind(kind@),
{
    same_text(kind, "call_expression") || same_text(kind, "method_call_expression") || same_text(
        kind,
        "macro_invocation",
    )
}

fn is_import_kind(kind: &str) -> (r: bool)
    ensures
        r == import_kind(kind@),
{
    same_text(kind, "use_declaration") || same_text(kind, "import_statement") || same_text(
        kind,
        "import_declaration",
    )
}

/// Whether a node of this kind is worth reporting as context.
pub fn is_interesting_kind(kind: &str) -> (r: bool)
    ensures
        r == interesting(kind@),
{
    is_function_kind(kind) || is_type_kind(kind) || is_declaration_kind(kind)
        || is_assignment_kind(kind) || is_call_kind(kind) || is_import_kind(kind) || same_text(
        kind,
        "arrow_function",
    ) || same_text(kind, "function_expression") || same_text(kind, "lambda_expression")
        || same_text(kind, "variable_declarator") || same_text(kind, "impl_item") || same_text(
        kind,
        "macro_definition",
    ) || same_text(kind, "expression_statement") || same_text(kind, "return_statement")
        || same_text(kind, "mod_item") || same_text(kind, "module_declaration") || same_text(
        kind,
        "package_clause",
    ) || same_text(kind, "namespace_definition") || same_text(kind, "decorated_definition")
}

/// Whether a node of this kind is a scope container.
pub fn is_scope_kind(kind: &str) -> (r: bool)
    ensures
        r == scope(kind@),
{
    is_function_kind(kind) || same_text(kind, "arrow_function") || same_text(
        kind,
        "lambda_expression",
    ) || same_text(kind, "closure_expression") || same_text(kind, "struct_item") || same_text(
        kind,
        "struct_definition",
    ) || same_text(kind, "class_declaration") || same_text(kind, "class_definition")
        || same_text(kind, "interface_declaration") || same_text(kind, "type_declaration")
        || same_text(kind, "enum_item") || same_text(kind, "enum_declaration") || same_text(
        kind,
        "trait_item",
    ) || same_text(kind, "trait_definition") || same_text(kind, "impl_item") || same_text(kind, "mod_item") || same_text(
        kind,
        "module_declaration",
    ) || same_text(kind, "namespace_definition") || same_text(kind, "decorated_definition")
}

/// The priority of a kind: 100 for functions down to 10 for anything unlisted.
pub fn kind_priority(kind: &str) -> (r: i32)
    ensures
        r as int == priority(kind@),
{
    if is_function_kind(kind) {
        100
    } else if is_type_kind(kind) {
        90
    } else if same_text(kind, "impl_item") {
        85
    } else if is_declaration_kind(kind) {
        80
    } else if is_assignment_kind(kind) {
        70
    } else if is_call_kind(kind) {
        60
    } else if same_text(kind, "return_statement") {
        50
    } else if is_import_kind(kind) {
        45
    } else if same_text(kind, "expression_statement") {
        30
    } else if same_text(kind, "decorated_definition") {
        25
    } else {
        10
    }
}

} // verus!
