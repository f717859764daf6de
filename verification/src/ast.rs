//! The AST model of the extractor, and the two searches it runs.
//!
//! The external toolchain reports, for every compiled source file, a parse
//! tree whose nodes carry a kind, an optional declared name, a byte range
//! into the (line-ending-normalized) file content, and child nodes.  The
//! extractor reads nothing else of a node, so that is the whole model.
//!
//! Both searches are depth-first in document order, left to right: a node
//! is visited before its children, and its children before its later
//! siblings.
use vstd::prelude::*;

use crate::chars::str_eq;

verus! {

/// The kinds of AST node the extractor distinguishes.
#[derive(Debug, Clone, Copy, PartialEq, Eq, Structural)]
pub enum AstKind {
    /// A contract definition; its children are the contract's body.
    ContractDefinition,
    /// A function definition; its byte range is the function's source text.
    FunctionDefinition,
    /// Any other node; the searches only walk through it.
    Other,
}

/// One AST node: its kind, its declared name if it has one, the byte range
/// of its source text, and its children.
#[derive(Debug)]
pub struct AstNode {
    pub kind: AstKind,
    pub name: Option<String>,
    pub src_start: usize,
    pub src_len: usize,
    pub children: Vec<AstNode>,
}

/// Whether a node declares the given name.
pub open spec fn spec_node_named(n: AstNode, name: Seq<char>) -> bool {
    n.name matches Some(m) && m@ == name
}

/// The body of the first contract definition named `name`, searching `n`
/// and its descendants depth-first in document order.  A matching contract
/// definition ends the search at once; every other node is walked through.
pub open spec fn spec_scope_of_node(n: AstNode, name: Seq<char>) -> Option<Seq<AstNode>>
    decreases n,
{
    if n.kind == AstKind::ContractDefinition && spec_node_named(n, name) {
        Some(n.children@)
    } else {
        spec_scope_of_nodes(n.children@, name)
    }
}

/// The same search over a node list, left to right.
pub open spec fn spec_scope_of_nodes(nodes: Seq<AstNode>, name: Seq<char>) -> Option<Seq<AstNode>>
    decreases nodes,
{
    if nodes.len() == 0 {
        None
    } else {
        match spec_scope_of_node(nodes[0], name) {
            Some(s) => Some(s),
            None => spec_scope_of_nodes(nodes.drop_first(), name),
        }
    }
}

/// The byte range of the first function definition named `name`, searching
/// `n` and its descendants depth-first in document order.  A function
/// definition is terminal: one with another name is passed over without
/// descending into it, so a function nested inside a mismatched function is
/// never found — nor is a function a parent contract contributed, since the
/// search scope is one contract's own body.
pub open spec fn spec_function_src_of_node(n: AstNode, name: Seq<char>) -> Option<(usize, usize)>
    decreases n,
{
    if n.kind == AstKind::FunctionDefinition {
        if spec_node_named(n, name) {
            Some((n.src_start, n.src_len))
        } else {
            None
        }
    } else {
        spec_function_src_of_nodes(n.children@, name)
    }
}

/// The same search over a node list, left to right.
pub open spec fn spec_function_src_of_nodes(nodes: Seq<AstNode>, name: Seq<char>) -> Option<
    (usize, usize),
>
    decreases nodes,
{
    if nodes.len() == 0 {
        None
    } else {
        match spec_function_src_of_node(nodes[0], name) {
            Some(s) => Some(s),
            None => spec_function_src_of_nodes(nodes.drop_first(), name),
        }
    }
}

/// Whether this node declares the given name.
fn node_named(n: &AstNode, name: &str) -> (r: bool)
    ensures
        r == spec_node_named(*n, name@),
{
    match &n.name {
        Some(m) => str_eq(m.as_str(), name),
        None => false,
    }
}

/// Finds the body of the first contract definition named `name` under this
/// node, depth-first in document order.
pub fn scope_of_node<'a>(n: &'a AstNode, name: &str) -> (r: Option<&'a Vec<AstNode>>)
    ensures
        r matches Some(v) ==> spec_scope_of_node(*n, name@) == Some(v@),
        r is None ==> spec_scope_of_node(*n, name@) is None,
    decreases *n,
{
    if matches!(n.kind, AstKind::ContractDefinition) && node_named(n, name) {
        Some(&n.children)
    } else {
        scope_of_nodes(&n.children, name)
    }
}

/// Finds the body of the first contract definition named `name` in a node
/// list, depth-first in document order.
pub fn scope_of_nodes<'a>(nodes: &'a Vec<AstNode>, name: &str) -> (r: Option<&'a Vec<AstNode>>)
    ensures
        r matches Some(v) ==> spec_scope_of_nodes(nodes@, name@) == Some(v@),
        r is None ==> spec_scope_of_nodes(nodes@, name@) is None,
    decreases nodes@,
{
    let mut i: usize = 0;
    proof {
        assert(nodes@.skip(0int) =~= nodes@);
    }
    while i < nodes.len()
        invariant
            i <= nodes@.len(),
            spec_scope_of_nodes(nodes@, name@) == spec_scope_of_nodes(nodes@.skip(i as int), name@),
        decreases nodes@.len() - i,
    {
        proof {
            assert(nodes@.skip(i as int)[0] == nodes@[i as int]);
            assert(nodes@.skip(i as int).drop_first() =~= nodes@.skip(i + 1));
        }
        let found = scope_of_node(&nodes[i], name);
        if found.is_some() {
            return found;
        }
        i = i + 1;
    }
    None
}

/// Finds the byte range of the first function definition named `name` in a
/// node list, depth-first in document order.  Function definitions with
/// another name are passed over, not descended into.
pub fn function_src_of_nodes(nodes: &Vec<AstNode>, name: &str) -> (r: Option<(usize, usize)>)
    ensures
        r == spec_function_src_of_nodes(nodes@, name@),
    decreases nodes@,
{
    let mut i: usize = 0;
    proof {
        assert(nodes@.skip(0int) =~= nodes@);
    }
    while i < nodes.len()
        invariant
            i <= nodes@.len(),
            spec_function_src_of_nodes(nodes@, name@) == spec_function_src_of_nodes(
                nodes@.skip(i as int),
                name@,
            ),
        decreases nodes@.len() - i,
    {
        proof {
            assert(nodes@.skip(i as int)[0] == nodes@[i as int]);
            assert(nodes@.skip(i as int).drop_first() =~= nodes@.skip(i + 1));
        }
        let found = function_src_of_node(&nodes[i], name);
        if found.is_some() {
            return found;
        }
        i = i + 1;
    }
    None
}

/// Finds the byte range of the first function definition named `name`
/// under this node, depth-first in document order.
pub fn function_src_of_node(n: &AstNode, name: &str) -> (r: Option<(usize, usize)>)
    ensures
        r == spec_function_src_of_node(*n, name@),
    decreases *n,
{
    if matches!(n.kind, AstKind::FunctionDefinition) {
        if node_named(n, name) {
            Some((n.src_start, n.src_len))
        } else {
            None
        }
    } else {
        function_src_of_nodes(&n.children, name)
    }
}

} // verus!
