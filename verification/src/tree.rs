//! The trusted boundary to the external grammar: the concrete syntax tree
//! produced by `tree_sitter` with the `tree_sitter_beancount` grammar.
//!
//! Each wrapper makes one call into the parsing library; the names below
//! stand for what those calls return. A parse tree and its nodes are opaque
//! to verification: everything the extractor learns about them comes through
//! these contracts.

use vstd::prelude::*;
use vstd::string::StringSliceAdditionalSpecFns;

verus! {

#[verifier::external_type_specification]
#[verifier::external_body]
pub struct ExTree(tree_sitter::Tree);

#[verifier::external_type_specification]
#[verifier::external_body]
pub struct ExNode<'a>(tree_sitter::Node<'a>);

/// The tree the grammar produces for a source text, if any; parsing is a
/// deterministic function of the text (and of the grammar compiled into
/// this binary).
pub uninterp spec fn parse_result_of(src: Seq<u8>) -> Option<tree_sitter::Tree>;

/// The root node of a tree.
pub uninterp spec fn tree_root_of(t: &tree_sitter::Tree) -> tree_sitter::Node;

/// The kind (grammar rule name) of a node, as bytes.
pub uninterp spec fn node_kind_of(n: tree_sitter::Node) -> Seq<u8>;

/// The byte offset where a node starts.
pub uninterp spec fn node_start_of(n: tree_sitter::Node) -> int;

/// The byte offset where a node ends.
pub uninterp spec fn node_end_of(n: tree_sitter::Node) -> int;

/// The 0-based row of a node's start position.
pub uninterp spec fn node_row_of(n: tree_sitter::Node) -> int;

/// The 0-based column of a node's start position.
pub uninterp spec fn node_col_of(n: tree_sitter::Node) -> int;

/// The number of named children of a node.
pub uninterp spec fn node_named_count_of(n: tree_sitter::Node) -> int;

/// The named child of a node at an in-range index.
pub uninterp spec fn node_named_child_of(n: tree_sitter::Node, i: int) -> tree_sitter::Node;

/// The number of children (named or not) of a node.
pub uninterp spec fn node_child_count_of(n: tree_sitter::Node) -> int;

/// The child of a node at an in-range index.
pub uninterp spec fn node_child_of(n: tree_sitter::Node, i: int) -> tree_sitter::Node;

/// The first child carrying a given field name, if any.
pub uninterp spec fn node_field_of(n: tree_sitter::Node, name: Seq<u8>) -> Option<
    tree_sitter::Node,
>;

/// Whether a node is an error node.
pub uninterp spec fn node_is_error_of(n: tree_sitter::Node) -> bool;

/// Whether a node is a missing node inserted for error recovery.
pub uninterp spec fn node_is_missing_of(n: tree_sitter::Node) -> bool;

/// Whether a node or any of its descendants is an error or missing node.
pub uninterp spec fn node_has_error_of(n: tree_sitter::Node) -> bool;

/// Relies on `tree_sitter::Parser`: a fresh parser is given the grammar of
/// `tree_sitter_beancount` and run on the source text. The three calls form
/// one unit so that the result is a function of the text alone: the parser
/// is new, so no other state can influence the tree.
#[verifier::external_body]
pub fn parse_tree(source: &[u8]) -> (r: Option<tree_sitter::Tree>)
    ensures
        r == parse_result_of(source@),
{
    let mut parser = tree_sitter::Parser::new();
    match parser.set_language(&tree_sitter_beancount::language()) {
        Ok(()) => parser.parse(source, None),
        Err(_) => None,
    }
}

/// Relies on `Tree::root_node`.
#[verifier::external_body]
pub fn tree_root<'a>(t: &'a tree_sitter::Tree) -> (r: tree_sitter::Node<'a>)
    ensures
        r == tree_root_of(t),
{
    t.root_node()
}

/// Relies on `Node::kind`: the node's grammar rule name.
#[verifier::external_body]
pub fn node_kind(n: &tree_sitter::Node) -> (r: Vec<u8>)
    ensures
        r@ == node_kind_of(*n),
{
    n.kind().as_bytes().to_vec()
}

/// Relies on `Node::start_byte`.
#[verifier::external_body]
pub fn node_start_byte(n: &tree_sitter::Node) -> (r: usize)
    ensures
        r as int == node_start_of(*n),
{
    n.start_byte()
}

/// Relies on `Node::end_byte`.
#[verifier::external_body]
pub fn node_end_byte(n: &tree_sitter::Node) -> (r: usize)
    ensures
        r as int == node_end_of(*n),
{
    n.end_byte()
}

/// Relies on `Node::start_position`: the 0-based row and column.
#[verifier::external_body]
pub fn node_start_point(n: &tree_sitter::Node) -> (r: (usize, usize))
    ensures
        r.0 as int == node_row_of(*n),
        r.1 as int == node_col_of(*n),
{
    let p = n.start_position();
    (p.row, p.column)
}

/// Relies on `Node::named_child_count` (a `u32` in the underlying library).
#[verifier::external_body]
pub fn node_named_child_count(n: &tree_sitter::Node) -> (r: usize)
    ensures
        r as int == node_named_count_of(*n),
        r <= u32::MAX,
{
    n.named_child_count()
}

/// Relies on `Node::named_child`: present exactly for indices below the
/// named-child count.
#[verifier::external_body]
pub fn node_named_child<'a>(n: &tree_sitter::Node<'a>, i: usize) -> (r: Option<
    tree_sitter::Node<'a>,
>)
    requires
        i as int <= u32::MAX,
    ensures
        (i as int) < node_named_count_of(*n) ==> r == Some(node_named_child_of(*n, i as int)),
        (i as int) >= node_named_count_of(*n) ==> r is None,
{
    n.named_child(i as u32)
}

/// Relies on `Node::child_count` (a `u32` in the underlying library).
#[verifier::external_body]
pub fn node_child_count(n: &tree_sitter::Node) -> (r: usize)
    ensures
        r as int == node_child_count_of(*n),
        r <= u32::MAX,
{
    n.child_count()
}

/// Relies on `Node::child`: present exactly for indices below the child
/// count.
#[verifier::external_body]
pub fn node_child<'a>(n: &tree_sitter::Node<'a>, i: usize) -> (r: Option<tree_sitter::Node<'a>>)
    requires
        i as int <= u32::MAX,
    ensures
        (i as int) < node_child_count_of(*n) ==> r == Some(node_child_of(*n, i as int)),
        (i as int) >= node_child_count_of(*n) ==> r is None,
{
    n.child(i as u32)
}

/// Relies on `Node::child_by_field_name`: the first child with that field
/// name.
#[verifier::external_body]
pub fn node_field<'a>(n: &tree_sitter::Node<'a>, name: &str) -> (r: Option<tree_sitter::Node<'a>>)
    ensures
        r == node_field_of(*n, name.spec_bytes()),
{
    n.child_by_field_name(name)
}

/// Relies on `Node::is_error`.
#[verifier::external_body]
pub fn node_is_error(n: &tree_sitter::Node) -> (r: bool)
    ensures
        r == node_is_error_of(*n),
{
    n.is_error()
}

/// Relies on `Node::is_missing`.
#[verifier::external_body]
pub fn node_is_missing(n: &tree_sitter::Node) -> (r: bool)
    ensures
        r == node_is_missing_of(*n),
{
    n.is_missing()
}

/// Relies on `Node::has_error`.
#[verifier::external_body]
pub fn node_has_error(n: &tree_sitter::Node) -> (r: bool)
    ensures
        r == node_has_error_of(*n),
{
    n.has_error()
}

} // verus!
