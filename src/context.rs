//! The block boundary resolver and the context finder: from the line of a marker
//! comment to the comment block around it and the code above, below and on it.
use vstd::prelude::*;
use crate::kinds::{interesting, is_interesting_kind, kind_priority, priority};
use crate::text::{
    first_line,
    first_line_of,
    holds_code,
    is_comment_kind,
    names_comment,
    opens_comment,
    opens_comment_text,
    trim_of,
    trim_text,
};
use crate::tree::{extract_name, name_of, text_opt, SyntaxNode, SyntaxTree};

verus! {

/// Code found near a comment.
#[derive(Clone, Debug)]
pub struct CodeContext {
    /// The node kind, such as `function_item`, or `unknown` for unclassified code.
    pub kind: String,
    /// The name found in the node, if any.
    pub name: Option<String>,
    /// The first line of the node's text, or the trimmed source line.
    pub text: String,
    /// The line, 1-indexed.
    pub line: usize,
}

/// Code found around a comment block.
#[derive(Clone, Debug)]
pub struct BlockContext {
    /// The nearest code above the block.
    pub above: Option<CodeContext>,
    /// The nearest code below the block.
    pub below: Option<CodeContext>,
    /// The code on the comment's own line.
    pub inline: Option<CodeContext>,
}

/// What the context finder keeps of a node worth reporting.
#[derive(Clone, Debug)]
pub struct NodeInfo {
    pub kind: String,
    pub name: Option<String>,
    /// The first line of the node's text.
    pub text: String,
    pub priority: i32,
}

/// The nodes of a tree by the line on which they start: one entry per source line.
#[derive(Clone, Debug)]
pub struct LineIndex {
    /// Whether a comment node starts on the line.
    pub comments: Vec<bool>,
    /// The nodes worth reporting that start on the line, in traversal order.
    pub nodes: Vec<Vec<NodeInfo>>,
}

/// A context record as values.
pub struct ContextView {
    pub kind: Seq<char>,
    pub name: Option<Seq<char>>,
    pub text: Seq<char>,
    pub line: int,
}

/// A node info as values.
pub struct InfoView {
    pub kind: Seq<char>,
    pub name: Option<Seq<char>>,
    pub text: Seq<char>,
    pub priority: int,
}

/// A line index as values.
pub struct LineTable {
    pub comments: Seq<bool>,
    pub rows: Seq<Seq<InfoView>>,
}

pub open spec fn context_view(c: CodeContext) -> ContextView {
    ContextView { kind: c.kind@, name: text_opt(c.name), text: c.text@, line: c.line as int }
}

pub open spec fn context_opt(o: Option<CodeContext>) -> Option<ContextView> {
    match o {
        Some(c) => Some(context_view(c)),
        None => None,
    }
}

pub open spec fn info_view(i: NodeInfo) -> InfoView {
    InfoView { kind: i.kind@, name: text_opt(i.name), text: i.text@, priority: i.priority as int }
}

pub open spec fn row_view(r: Vec<NodeInfo>) -> Seq<InfoView> {
    r@.map_values(|i: NodeInfo| info_view(i))
}

impl View for LineIndex {
    type V = LineTable;

    open spec fn view(&self) -> LineTable {
        LineTable {
            comments: self.comments@,
            rows: self.nodes@.map_values(|r: Vec<NodeInfo>| row_view(r)),
        }
    }
}

/// The characters of each source line.
pub open spec fn lines_of(source_lines: &[&str]) -> Seq<Seq<char>> {
    source_lines@.map_values(|s: &str| s@)
}

/// A node that the context finder reports: worth reporting and not a comment.
pub open spec fn candidate(x: SyntaxNode) -> bool {
    !names_comment(x.kind@) && interesting(x.kind@)
}

/// Some node among the first `n` is a comment that starts on line `l`.
pub open spec fn comment_among(nodes: Seq<SyntaxNode>, l: int, n: int) -> bool {
    exists|i: int| 0 <= i < n && nodes[i].start_line == l && names_comment(#[trigger] nodes[i].kind@)
}

/// What the context finder keeps of node `i`.
pub open spec fn info_of(nodes: Seq<SyntaxNode>, i: int) -> InfoView {
    InfoView {
        kind: nodes[i].kind@,
        name: name_of(nodes, i),
        text: first_line_of(nodes[i].text@),
        priority: priority(nodes[i].kind@),
    }
}

/// The reported nodes among the first `n` that start on line `l`, in traversal order.
pub open spec fn infos_among(nodes: Seq<SyntaxNode>, l: int, n: int) -> Seq<InfoView>
    decreases n,
{
    if n <= 0 {
        Seq::empty()
    } else {
        let prev = infos_among(nodes, l, n - 1);
        if candidate(nodes[n - 1]) && nodes[n - 1].start_line == l {
            prev.push(info_of(nodes, n - 1))
        } else {
            prev
        }
    }
}

/// The line table of a tree over `count` source lines.
pub open spec fn table_of(nodes: Seq<SyntaxNode>, count: int) -> LineTable {
    LineTable {
        comments: Seq::new(count as nat, |l: int| comment_among(nodes, l, nodes.len() as int)),
        rows: Seq::new(count as nat, |l: int| infos_among(nodes, l, nodes.len() as int)),
    }
}

/// Line `l` holds only a comment: a comment node starts there and its trimmed text opens
/// a comment or is empty.
pub open spec fn comment_only(t: LineTable, lines: Seq<Seq<char>>, l: int) -> bool {
    &&& 0 <= l < lines.len()
    &&& l < t.comments.len()
    &&& t.comments[l]
    &&& (opens_comment(trim_of(lines[l])) || trim_of(lines[l]).len() == 0)
}

/// The first line of the comment block that ends at line `l`.
pub open spec fn walk_up(t: LineTable, lines: Seq<Seq<char>>, l: int) -> int
    decreases l,
{
    if l > 0 && comment_only(t, lines, l - 1) {
        walk_up(t, lines, l - 1)
    } else {
        l
    }
}

/// The last line of the comment block that starts at line `l`.
pub open spec fn walk_down(t: LineTable, lines: Seq<Seq<char>>, l: int) -> int
    decreases lines.len() - l,
{
    if 0 <= l && l + 1 < lines.len() && comment_only(t, lines, l + 1) {
        walk_down(t, lines, l + 1)
    } else {
        l
    }
}

/// The first node of highest priority among the first `n` of a row.
pub open spec fn best_among(row: Seq<InfoView>, n: int) -> Option<int>
    decreases n,
{
    if n <= 0 {
        None
    } else {
        let b = best_among(row, n - 1);
        if b is None || row[n - 1].priority > row[b->0].priority {
            Some(n - 1)
        } else {
            b
        }
    }
}

/// The first node of highest priority in a row.
pub open spec fn best(row: Seq<InfoView>) -> Option<int> {
    best_among(row, row.len() as int)
}

/// The record of line `l`: its best node, or else, where the line holds code, the
/// trimmed line as `unknown`.
pub open spec fn record_at(t: LineTable, lines: Seq<Seq<char>>, l: int) -> Option<ContextView> {
    if 0 <= l < t.rows.len() && best(t.rows[l]) is Some {
        let x = t.rows[l][best(t.rows[l])->0];
        Some(ContextView { kind: x.kind, name: x.name, text: x.text, line: l + 1 })
    } else if 0 <= l < lines.len() && holds_code(trim_of(lines[l])) {
        Some(ContextView { kind: "unknown"@, name: None, text: trim_of(lines[l]), line: l + 1 })
    } else {
        None
    }
}

/// The first record at line `l` or above it.
pub open spec fn record_up_from(t: LineTable, lines: Seq<Seq<char>>, l: int) -> Option<
    ContextView,
>
    decreases l + 1,
{
    if l < 0 {
        None
    } else if record_at(t, lines, l) is Some {
        record_at(t, lines, l)
    } else {
        record_up_from(t, lines, l - 1)
    }
}

/// The first record at line `l` or below it, within the source.
pub open spec fn record_down_from(t: LineTable, lines: Seq<Seq<char>>, l: int) -> Option<
    ContextView,
>
    decreases lines.len() - l,
{
    if l < 0 || l >= lines.len() {
        None
    } else if record_at(t, lines, l) is Some {
        record_at(t, lines, l)
    } else {
        record_down_from(t, lines, l + 1)
    }
}

/// The nearest record above a block that starts at line `s`.
pub open spec fn above_block(t: LineTable, lines: Seq<Seq<char>>, s: int) -> Option<
    ContextView,
> {
    if s <= 0 {
        None
    } else {
        record_up_from(t, lines, s - 1)
    }
}

/// The nearest record below a block that ends at line `e`.
pub open spec fn below_block(t: LineTable, lines: Seq<Seq<char>>, e: int) -> Option<
    ContextView,
> {
    record_down_from(t, lines, e + 1)
}

/// Builds the line index of a tree over `line_count` source lines.
pub fn build_line_index(tree: &SyntaxTree, line_count: usize) -> (r: LineIndex)
    ensures
        r@ == table_of(tree.nodes@, line_count as int),
{
    let mut comments: Vec<bool> = Vec::new();
    let mut rows: Vec<Vec<NodeInfo>> = Vec::new();
    let mut l: usize = 0;
    while l < line_count
        invariant
            l <= line_count,
            comments@.len() == l,
            rows@.len() == l,
            forall|k: int| 0 <= k < l ==> !comments@[k],
            forall|k: int| 0 <= k < l ==> rows@[k]@.len() == 0,
        decreases line_count - l,
    {
        comments.push(false);
        rows.push(Vec::new());
        l += 1;
    }
    let nodes = &tree.nodes;
    let mut i: usize = 0;
    while i < nodes.len()
        invariant
            nodes == &tree.nodes,
            i <= nodes@.len(),
            comments@.len() == line_count,
            rows@.len() == line_count,
            forall|k: int| 0 <= k < line_count ==> comments@[k] == comment_among(nodes@, k, i as int),
            forall|k: int|
                0 <= k < line_count ==> row_view(#[trigger] rows@[k]) == infos_among(
                    nodes@,
                    k,
                    i as int,
                ),
        decreases nodes@.len() - i,
    {
        let node = &nodes[i];
        let line = node.start_line;
        let ghost old_comments = comments@;
        let ghost old_rows = rows@;
        if is_comment_kind(node.kind.as_str()) {
            if line < line_count {
                comments.set(line, true);
            }
            assert forall|k: int| 0 <= k < line_count implies comments@[k] == comment_among(
                nodes@,
                k,
                i + 1,
            ) by {
                if k == line {
                    assert(nodes@[i as int].start_line == k && names_comment(nodes@[i as int].kind@));
                } else {
                    assert(comment_among(nodes@, k, i + 1) ==> comment_among(nodes@, k, i as int));
                }
            }
        } else {
            if line < line_count && is_interesting_kind(node.kind.as_str()) {
                let info = NodeInfo {
                    kind: node.kind.clone(),
                    name: extract_name(tree, i),
                    text: first_line(node.text.as_str()),
                    priority: kind_priority(node.kind.as_str()),
                };
                assert(info_view(info) == info_of(nodes@, i as int));
                let mut row = Vec::new();
                std::mem::swap(&mut row, &mut rows[line]);
                row.push(info);
                rows.set(line, row);
                assert(row_view(rows@[line as int]) =~= row_view(old_rows[line as int]).push(
                    info_of(nodes@, i as int),
                ));
            }
            assert forall|k: int| 0 <= k < line_count implies comments@[k] == comment_among(
                nodes@,
                k,
                i + 1,
            ) by {
                assert(comment_among(nodes@, k, i + 1) ==> comment_among(nodes@, k, i as int));
            }
        }
        i += 1;
    }
    let r = LineIndex { comments, nodes: rows };
    assert(r@.comments =~= table_of(tree.nodes@, line_count as int).comments);
    assert(r@.rows =~= table_of(tree.nodes@, line_count as int).rows);
    r
}

/// Whether line `line` holds only a comment.
pub fn is_comment_only_line(line: usize, index: &LineIndex, source_lines: &[&str]) -> (r: bool)
    ensures
        r == comment_only(index@, lines_of(source_lines), line as int),
{
    if line < source_lines.len() && line < index.comments.len() && index.comments[line] {
        let t = trim_text(source_lines[line]);
        opens_comment_text(t) || t.is_empty()
    } else {
        false
    }
}

/// The first and last line of the comment block around `start_line`, both inclusive.
pub fn find_comment_block_bounds(start_line: usize, index: &LineIndex, source_lines: &[&str]) -> (r:
    (usize, usize))
    ensures
        r.0 == walk_up(index@, lines_of(source_lines), start_line as int),
        r.1 == walk_down(index@, lines_of(source_lines), start_line as int),
{
    let ghost t = index@;
    let ghost lines = lines_of(source_lines);
    let mut s = start_line;
    while s > 0 && is_comment_only_line(s - 1, index, source_lines)
        invariant
            t == index@,
            lines == lines_of(source_lines),
            s <= start_line,
            walk_up(t, lines, start_line as int) == walk_up(t, lines, s as int),
        decreases s,
    {
        s -= 1;
    }
    let mut e = start_line;
    while e < source_lines.len() && e + 1 < source_lines.len() && is_comment_only_line(
        e + 1,
        index,
        source_lines,
    )
        invariant
            t == index@,
            lines == lines_of(source_lines),
            start_line <= e,
            lines.len() == source_lines@.len(),
            walk_down(t, lines, start_line as int) == walk_down(t, lines, e as int),
        decreases source_lines@.len() - e,
    {
        e += 1;
    }
    (s, e)
}

/// The first node of highest priority in a row.
pub fn best_node(row: &Vec<NodeInfo>) -> (r: Option<usize>)
    ensures
        r is Some <==> best(row_view(*row)) is Some,
        r is Some ==> best(row_view(*row)) == Some(r->0 as int) && r->0 < row@.len(),
{
    let ghost rv = row_view(*row);
    let mut b: Option<usize> = None;
    let mut i: usize = 0;
    while i < row.len()
        invariant
            i <= row@.len(),
            rv == row_view(*row),
            b is Some <==> best_among(rv, i as int) is Some,
            b is Some ==> best_among(rv, i as int) == Some(b->0 as int) && b->0 < i,
        decreases row@.len() - i,
    {
        match b {
            None => {
                b = Some(i);
            },
            Some(j) => {
                if row[i].priority > row[j].priority {
                    b = Some(i);
                }
            },
        }
        i += 1;
    }
    b
}

fn copy_text(o: &Option<String>) -> (r: Option<String>)
    ensures
        text_opt(r) == text_opt(*o),
{
    match o {
        Some(s) => Some(s.clone()),
        None => None,
    }
}

/// The record of one line: its best node, or else its trimmed text as `unknown` code.
fn line_record(line: usize, index: &LineIndex, source_lines: &[&str]) -> (r: Option<CodeContext>)
    ensures
        context_opt(r) == record_at(index@, lines_of(source_lines), line as int),
{
    if line < index.nodes.len() {
        let row = &index.nodes[line];
        match best_node(row) {
            Some(b) => {
                let x = &row[b];
                assert(index@.rows[line as int] == row_view(*row));
                return Some(
                    CodeContext {
                        kind: x.kind.clone(),
                        name: copy_text(&x.name),
                        text: x.text.clone(),
                        line: line + 1,
                    },
                );
            },
            None => {},
        }
    }
    if line < source_lines.len() {
        let t = trim_text(source_lines[line]);
        if !t.is_empty() && !opens_comment_text(t) {
            return Some(
                CodeContext { kind: "unknown".to_string(), name: None, text: t.to_string(), line: line + 1 },
            );
        }
    }
    None
}

proof fn lemma_up_past_end(t: LineTable, lines: Seq<Seq<char>>, l: int, top: int)
    requires
        t.rows.len() <= top,
        lines.len() <= top,
        top - 1 <= l,
    ensures
        record_up_from(t, lines, l) == record_up_from(t, lines, top - 1),
    decreases l - top + 1,
{
    if l > top - 1 {
        lemma_up_past_end(t, lines, l - 1, top);
    }
}

/// The nearest code above a block that starts at `block_start`.
pub fn find_context_above(block_start: usize, index: &LineIndex, source_lines: &[&str]) -> (r:
    Option<CodeContext>)
    ensures
        context_opt(r) == above_block(index@, lines_of(source_lines), block_start as int),
{
    if block_start == 0 {
        return None;
    }
    let ghost t = index@;
    let ghost lines = lines_of(source_lines);
    let top = if index.nodes.len() > source_lines.len() {
        index.nodes.len()
    } else {
        source_lines.len()
    };
    let mut line = block_start - 1;
    if line >= top {
        proof {
            lemma_up_past_end(t, lines, line as int, top as int);
        }
        if top == 0 {
            return None;
        }
        line = top - 1;
    }
    loop
        invariant
            t == index@,
            lines == lines_of(source_lines),
            record_up_from(t, lines, block_start - 1) == record_up_from(t, lines, line as int),
        decreases line,
    {
        let r = line_record(line, index, source_lines);
        if r.is_some() {
            return r;
        }
        if line == 0 {
            assert(record_up_from(t, lines, -1) is None);
            return None;
        }
        line -= 1;
    }
}

/// The nearest code below a block that ends at `block_end`.
pub fn find_context_below(block_end: usize, index: &LineIndex, source_lines: &[&str]) -> (r:
    Option<CodeContext>)
    ensures
        context_opt(r) == below_block(index@, lines_of(source_lines), block_end as int),
{
    let ghost t = index@;
    let ghost lines = lines_of(source_lines);
    if block_end >= source_lines.len() {
        return None;
    }
    let mut line = block_end + 1;
    while line < source_lines.len()
        invariant
            t == index@,
            lines == lines_of(source_lines),
            lines.len() == source_lines@.len(),
            line <= source_lines@.len(),
            record_down_from(t, lines, block_end + 1) == record_down_from(t, lines, line as int),
        decreases source_lines@.len() - line,
    {
        let r = line_record(line, index, source_lines);
        if r.is_some() {
            return r;
        }
        line += 1;
    }
    None
}

/// The code on the comment's own line.
pub fn find_inline_context(comment_line: usize, index: &LineIndex, source_lines: &[&str]) -> (r:
    Option<CodeContext>)
    ensures
        context_opt(r) == record_at(index@, lines_of(source_lines), comment_line as int),
{
    line_record(comment_line, index, source_lines)
}

/// The context of the comment that starts on line `comment_line` (0-indexed): the code
/// above its comment block, below it, and on the comment's own line.
pub fn extract_block_context(tree: &SyntaxTree, comment_line: usize, source_lines: &[&str]) -> (r:
    BlockContext)
    ensures
        context_opt(r.above) == above_block(
            table_of(tree.nodes@, source_lines@.len() as int),
            lines_of(source_lines),
            walk_up(
                table_of(tree.nodes@, source_lines@.len() as int),
                lines_of(source_lines),
                comment_line as int,
            ),
        ),
        context_opt(r.below) == below_block(
            table_of(tree.nodes@, source_lines@.len() as int),
            lines_of(source_lines),
            walk_down(
                table_of(tree.nodes@, source_lines@.len() as int),
                lines_of(source_lines),
                comment_line as int,
            ),
        ),
        context_opt(r.inline) == record_at(
            table_of(tree.nodes@, source_lines@.len() as int),
            lines_of(source_lines),
            comment_line as int,
        ),
{
    let index = build_line_index(tree, source_lines.len());
    let (block_start, block_end) = find_comment_block_bounds(comment_line, &index, source_lines);
    let above = find_context_above(block_start, &index, source_lines);
    let below = find_context_below(block_end, &index, source_lines);
    let inline = find_inline_context(comment_line, &index, source_lines);
    BlockContext { above, below, inline }
}

proof fn lemma_walk_up(t: LineTable, lines: Seq<Seq<char>>, l: int)
    requires
        0 <= l,
    ensures
        0 <= walk_up(t, lines, l) <= l,
        forall|k: int| walk_up(t, lines, l) <= k < l ==> comment_only(t, lines, k),
        !comment_only(t, lines, walk_up(t, lines, l) - 1),
    decreases l,
{
    if l > 0 && comment_only(t, lines, l - 1) {
        lemma_walk_up(t, lines, l - 1);
    }
}

proof fn lemma_walk_down(t: LineTable, lines: Seq<Seq<char>>, l: int)
    requires
        0 <= l,
    ensures
        l <= walk_down(t, lines, l),
        forall|k: int| l < k <= walk_down(t, lines, l) ==> comment_only(t, lines, k),
        !comment_only(t, lines, walk_down(t, lines, l) + 1),
    decreases lines.len() - l,
{
    if l + 1 < lines.len() && comment_only(t, lines, l + 1) {
        lemma_walk_down(t, lines, l + 1);
    }
}

/// The block around a comment line is the maximal run of comment-only lines through it:
/// it holds the line, every other line in it holds only a comment, and neither the line
/// just above it nor the line just below it does.
pub proof fn block_is_maximal_comment_run(t: LineTable, lines: Seq<Seq<char>>, c: int)
    requires
        0 <= c,
    ensures
        walk_up(t, lines, c) <= c <= walk_down(t, lines, c),
        forall|k: int|
            walk_up(t, lines, c) <= k <= walk_down(t, lines, c) && k != c ==> comment_only(
                t,
                lines,
                k,
            ),
        !comment_only(t, lines, walk_up(t, lines, c) - 1),
        !comment_only(t, lines, walk_down(t, lines, c) + 1),
{
    lemma_walk_up(t, lines, c);
    lemma_walk_down(t, lines, c);
}

/// A comment line with no comment-only line next to it is a block of its own.
pub proof fn lone_comment_is_own_block(t: LineTable, lines: Seq<Seq<char>>, c: int)
    requires
        0 <= c,
        !comment_only(t, lines, c - 1),
        !comment_only(t, lines, c + 1),
    ensures
        walk_up(t, lines, c) == c,
        walk_down(t, lines, c) == c,
{
}

proof fn lemma_best_among(row: Seq<InfoView>, n: int)
    requires
        0 <= n <= row.len(),
    ensures
        best_among(row, n) is None <==> n == 0,
        best_among(row, n) is Some ==> {
            let b = best_among(row, n)->0;
            &&& 0 <= b < n
            &&& forall|j: int| 0 <= j < n ==> row[j].priority <= row[b].priority
            &&& forall|j: int| 0 <= j < b ==> row[j].priority < row[b].priority
        },
    decreases n,
{
    if n > 0 {
        lemma_best_among(row, n - 1);
    }
}

/// Of the nodes that start on one line, the one chosen has the highest priority, and every
/// node before it has a lower one; none is chosen only where the line has no node.
pub proof fn best_has_highest_priority(row: Seq<InfoView>)
    ensures
        best(row) is None <==> row.len() == 0,
        best(row) is Some ==> {
            let b = best(row)->0;
            &&& 0 <= b < row.len()
            &&& forall|j: int| 0 <= j < row.len() ==> row[j].priority <= row[b].priority
            &&& forall|j: int| 0 <= j < b ==> row[j].priority < row[b].priority
        },
{
    lemma_best_among(row, row.len() as int);
}

proof fn lemma_up_line(t: LineTable, lines: Seq<Seq<char>>, l: int)
    ensures
        record_up_from(t, lines, l) is Some ==> 1 <= record_up_from(t, lines, l)->0.line <= l + 1,
    decreases l + 1,
{
    if l >= 0 && record_at(t, lines, l) is None {
        lemma_up_line(t, lines, l - 1);
    }
}

proof fn lemma_down_line(t: LineTable, lines: Seq<Seq<char>>, l: int)
    ensures
        record_down_from(t, lines, l) is Some ==> l + 1 <= record_down_from(t, lines, l)->0.line,
    decreases lines.len() - l,
{
    if 0 <= l < lines.len() && record_at(t, lines, l) is None {
        lemma_down_line(t, lines, l + 1);
    }
}

/// The code found above a block lies on a line before the block's first line, and the code
/// found below it on a line after its last; record lines count from 1.
pub proof fn records_lie_outside_the_block(t: LineTable, lines: Seq<Seq<char>>, c: int)
    requires
        0 <= c,
    ensures
        above_block(t, lines, walk_up(t, lines, c)) is Some ==> 1 <= above_block(
            t,
            lines,
            walk_up(t, lines, c),
        )->0.line <= walk_up(t, lines, c),
        below_block(t, lines, walk_down(t, lines, c)) is Some ==> walk_down(t, lines, c) + 1
            < below_block(t, lines, walk_down(t, lines, c))->0.line,
        record_at(t, lines, c) is Some ==> record_at(t, lines, c)->0.line == c + 1,
{
    let s = walk_up(t, lines, c);
    let e = walk_down(t, lines, c);
    lemma_up_line(t, lines, s - 1);
    lemma_down_line(t, lines, e + 1);
}

} // verus!
