//! The scope hierarchy builder: the scope nodes that enclose a line, innermost first.
use vstd::prelude::*;
use vstd::seq_lib::{to_multiset_build, to_multiset_insert};
use crate::kinds::{is_scope_kind, scope};
use crate::tree::{extract_name, name_of, text_opt, SyntaxNode, SyntaxTree};

verus! {

/// One construct that encloses a line.
#[derive(Clone, Debug)]
pub struct ScopeItem {
    /// The node kind, such as `impl_item`.
    pub kind: String,
    /// The name found in the node, if any.
    pub name: Option<String>,
    /// The line on which the construct starts, 1-indexed.
    pub line: usize,
}

/// A scope item as values.
pub struct ScopeView {
    pub kind: Seq<char>,
    pub name: Option<Seq<char>>,
    pub line: int,
}

pub open spec fn scope_view(s: ScopeItem) -> ScopeView {
    ScopeView { kind: s.kind@, name: text_opt(s.name), line: s.line as int }
}

pub open spec fn scopes_view(v: Seq<ScopeItem>) -> Seq<ScopeView> {
    v.map_values(|s: ScopeItem| scope_view(s))
}

/// Node `x` is a scope whose lines hold `target`.
pub open spec fn encloses(x: SyntaxNode, target: int) -> bool {
    scope(x.kind@) && x.start_line <= target <= x.end_line
}

/// The frame of node `i`.
pub open spec fn frame_of(nodes: Seq<SyntaxNode>, i: int) -> ScopeView {
    ScopeView { kind: nodes[i].kind@, name: name_of(nodes, i), line: nodes[i].start_line + 1 }
}

/// The frames of the first `n` nodes that enclose `target`, in traversal order.
pub open spec fn frames_among(nodes: Seq<SyntaxNode>, target: int, n: int) -> Seq<ScopeView>
    decreases n,
{
    if n <= 0 {
        Seq::empty()
    } else {
        let prev = frames_among(nodes, target, n - 1);
        if encloses(nodes[n - 1], target) {
            prev.push(frame_of(nodes, n - 1))
        } else {
            prev
        }
    }
}

/// The first index at or after `k` whose line is not above `line`, or the length of `s`.
pub open spec fn insert_pos_from(s: Seq<ScopeView>, line: int, k: int) -> int
    decreases s.len() - k,
{
    if 0 <= k < s.len() && s[k].line > line {
        insert_pos_from(s, line, k + 1)
    } else {
        k
    }
}

/// `x` placed after the frames of `s` whose line is above its own, and before the rest.
pub open spec fn insert_desc(s: Seq<ScopeView>, x: ScopeView) -> Seq<ScopeView> {
    s.insert(insert_pos_from(s, x.line, 0), x)
}

/// `s` sorted by line, descending; of frames with equal lines, the later in `s` comes first.
pub open spec fn sort_desc(s: Seq<ScopeView>) -> Seq<ScopeView>
    decreases s.len(),
{
    if s.len() == 0 {
        s
    } else {
        insert_desc(sort_desc(s.drop_last()), s.last())
    }
}

/// The hierarchy of `target`: the frames that enclose it, sorted by line, descending.
pub open spec fn hierarchy_of(nodes: Seq<SyntaxNode>, target: int) -> Seq<ScopeView> {
    sort_desc(frames_among(nodes, target, nodes.len() as int))
}

/// The scopes whose lines hold `target_line` (0-indexed), innermost first: by start line,
/// descending, and where two start on one line, the later in traversal order (the nested
/// one) first.
pub fn extract_hierarchy(tree: &SyntaxTree, target_line: usize) -> (r: Vec<ScopeItem>)
    requires
        target_line < usize::MAX,
    ensures
        scopes_view(r@) == hierarchy_of(tree.nodes@, target_line as int),
{
    let nodes = &tree.nodes;
    let mut scopes: Vec<ScopeItem> = Vec::new();
    let mut i: usize = 0;
    while i < nodes.len()
        invariant
            nodes == &tree.nodes,
            i <= nodes@.len(),
            target_line < usize::MAX,
            scopes_view(scopes@) == sort_desc(frames_among(nodes@, target_line as int, i as int)),
        decreases nodes@.len() - i,
    {
        let node = &nodes[i];
        let ghost before = frames_among(nodes@, target_line as int, i as int);
        if is_scope_kind(node.kind.as_str()) && node.start_line <= target_line && target_line
            <= node.end_line {
            let item = ScopeItem {
                kind: node.kind.clone(),
                name: extract_name(tree, i),
                line: node.start_line + 1,
            };
            let ghost v = scopes_view(scopes@);
            let ghost x = scope_view(item);
            assert(x == frame_of(nodes@, i as int));
            let mut k: usize = 0;
            while k < scopes.len() && scopes[k].line > item.line
                invariant
                    k <= scopes@.len(),
                    v == scopes_view(scopes@),
                    x == scope_view(item),
                    insert_pos_from(v, x.line, 0) == insert_pos_from(v, x.line, k as int),
                decreases scopes@.len() - k,
            {
                k += 1;
            }
            scopes.insert(k, item);
            assert(scopes_view(scopes@) =~= v.insert(k as int, x));
            assert(before.push(x).drop_last() =~= before);
        }
        i += 1;
    }
    scopes
}

proof fn lemma_insert_pos(s: Seq<ScopeView>, line: int, k: int)
    requires
        0 <= k <= s.len(),
    ensures
        k <= insert_pos_from(s, line, k) <= s.len(),
        forall|j: int| k <= j < insert_pos_from(s, line, k) ==> s[j].line > line,
        insert_pos_from(s, line, k) < s.len() ==> s[insert_pos_from(s, line, k)].line <= line,
    decreases s.len() - k,
{
    if k < s.len() && s[k].line > line {
        lemma_insert_pos(s, line, k + 1);
    }
}

/// Lines descend along `s`.
pub open spec fn descending(s: Seq<ScopeView>) -> bool {
    forall|i: int, j: int| 0 <= i < j < s.len() ==> s[i].line >= s[j].line
}

/// Lines strictly descend along `s`.
pub open spec fn strictly_descending(s: Seq<ScopeView>) -> bool {
    forall|i: int, j: int| 0 <= i < j < s.len() ==> s[i].line > s[j].line
}

/// No two frames of `s` start on one line.
pub open spec fn distinct_lines(s: Seq<ScopeView>) -> bool {
    forall|i: int, j: int| 0 <= i < s.len() && 0 <= j < s.len() && i != j ==> s[i].line != s[j].line
}

proof fn lemma_sort_desc(s: Seq<ScopeView>)
    ensures
        descending(sort_desc(s)),
        sort_desc(s).to_multiset() == s.to_multiset(),
        sort_desc(s).len() == s.len(),
        forall|i: int|
            0 <= i < sort_desc(s).len() ==> exists|j: int|
                0 <= j < s.len() && #[trigger] sort_desc(s)[i] == s[j],
        distinct_lines(s) ==> strictly_descending(sort_desc(s)),
    decreases s.len(),
{
    if s.len() > 0 {
        let p = s.drop_last();
        let x = s.last();
        let sp = sort_desc(p);
        lemma_sort_desc(p);
        let k = insert_pos_from(sp, x.line, 0);
        lemma_insert_pos(sp, x.line, 0);
        let r = sp.insert(k, x);
        assert(r == sort_desc(s));
        assert(p.push(x) =~= s);
        to_multiset_build(p, x);
        to_multiset_insert(sp, k, x);
        assert forall|i: int, j: int| 0 <= i < j < r.len() implies r[i].line >= r[j].line by {
            if j < k {
            } else if j == k {
            } else if i < k {
                assert(sp[j - 1].line <= sp[k].line);
            } else if i == k {
                assert(sp[j - 1].line <= sp[k].line);
            } else {
            }
        }
        assert forall|i: int| 0 <= i < r.len() implies exists|j: int|
            0 <= j < s.len() && #[trigger] r[i] == s[j] by {
            if i < k {
                let j0 = choose|j: int| 0 <= j < p.len() && sp[i] == p[j];
                assert(r[i] == s[j0]);
            } else if i == k {
                assert(r[i] == s[s.len() - 1]);
            } else {
                let j0 = choose|j: int| 0 <= j < p.len() && sp[i - 1] == p[j];
                assert(r[i] == s[j0]);
            }
        }
        if distinct_lines(s) {
            assert(distinct_lines(p)) by {
                assert forall|i: int, j: int|
                    0 <= i < p.len() && 0 <= j < p.len() && i != j implies p[i].line
                    != p[j].line by {
                    assert(p[i] == s[i] && p[j] == s[j]);
                }
            }
            assert forall|i: int| 0 <= i < sp.len() implies sp[i].line != x.line by {
                let j0 = choose|j: int| 0 <= j < p.len() && sp[i] == p[j];
                assert(p[j0] == s[j0]);
                assert(s[s.len() - 1] == x);
            }
            assert forall|i: int, j: int| 0 <= i < j < r.len() implies r[i].line > r[j].line by {
                if j < k {
                } else if j == k {
                    assert(r[i] == sp[i]);
                } else if i < k {
                    assert(sp[j - 1].line <= sp[k].line);
                } else if i == k {
                    assert(r[j] == sp[j - 1]);
                    assert(sp[j - 1].line <= sp[k].line);
                } else {
                }
            }
        }
    }
}

/// The hierarchy of a line holds exactly the frames of the scopes that enclose it, each
/// once, with start lines descending: strictly so where no two of them start on one line.
pub proof fn hierarchy_is_ordered(nodes: Seq<SyntaxNode>, target: int)
    ensures
        descending(hierarchy_of(nodes, target)),
        hierarchy_of(nodes, target).to_multiset() == frames_among(
            nodes,
            target,
            nodes.len() as int,
        ).to_multiset(),
        distinct_lines(frames_among(nodes, target, nodes.len() as int)) ==> strictly_descending(
            hierarchy_of(nodes, target),
        ),
{
    lemma_sort_desc(frames_among(nodes, target, nodes.len() as int));
}

} // verus!
