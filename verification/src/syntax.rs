//! The syntax tree of a document: a tree-sitter `Tree` for the Rust grammar.
//! The verifier sees a tree only through the S-expression of its root; what
//! the parser does is assumed, not proved.

use crate::buffer::{rope_text, rope_to_string};
use crate::edit::InputEdit;
use ropey::Rope;
use tree_sitter::{LanguageError, Parser, Tree};
use vstd::prelude::*;

verus! {

/// `tree_sitter::Tree`: the verifier sees it only through `tree_sexp`.
#[verifier::external_type_specification]
#[verifier::external_body]
pub struct ExTree(Tree);

/// `tree_sitter::LanguageError`: nothing is read from it.
#[verifier::external_type_specification]
#[verifier::external_body]
pub struct ExLanguageError(LanguageError);

/// The S-expression that `Node::to_sexp` gives for the root of a tree.
pub uninterp spec fn tree_sexp(tree: Tree) -> Seq<char>;

/// The S-expression of the tree that `Parser::parse` builds for a text under
/// the Rust grammar, given `hint` as the earlier tree or none.
pub uninterp spec fn parse_sexp(text: Seq<char>, hint: Option<Tree>) -> Seq<char>;

/// The tree that `Tree::edit` makes of a tree.
pub uninterp spec fn edited_tree(tree: Tree, edit: InputEdit) -> Tree;

/// The S-expression of the tree that the parser builds for a text when it is
/// given no earlier tree.
pub open spec fn fresh_parse_sexp(text: Seq<char>) -> Seq<char> {
    parse_sexp(text, None)
}

/// The earlier tree that the parser is given, if any.
pub open spec fn hint_of(old_tree: Option<&Tree>) -> Option<Tree> {
    match old_tree {
        Some(tree) => Some(*tree),
        None => None,
    }
}

/// Makes a parser with `Parser::new`, gives it the Rust grammar with
/// `Parser::set_language` and runs `Parser::parse` on `text`, with
/// `old_tree` as the tree to reuse. A tree always comes back: the parser
/// takes the grammar, which is generated for a version that it supports, and
/// a parser with a grammar, no timeout and no cancellation flag gives a tree
/// for every text, with error nodes where the text is malformed. The
/// S-expression of the tree depends on the text and on the earlier tree
/// alone.
#[verifier::external_body]
fn run_parser(text: &str, old_tree: Option<&Tree>) -> (outcome: Result<Option<Tree>, LanguageError>)
    ensures
        outcome matches Ok(Some(_)),
        outcome matches Ok(Some(tree)) ==> tree_sexp(tree) == parse_sexp(text@, hint_of(old_tree)),
{
    let mut parser = Parser::new();
    parser.set_language(tree_sitter_rust::language())?;
    Ok(parser.parse(text, old_tree))
}

/// `Tree::edit` shifts the ranges of the tree's nodes as `edit` says. What
/// it leaves depends on the tree and on the edit alone.
#[verifier::external_body]
fn tree_edit(tree: &mut Tree, edit: &InputEdit)
    ensures
        *final(tree) == edited_tree(*old(tree), *edit),
{
    let (start, old_end, new_end) =
        (edit.start_position, edit.old_end_position, edit.new_end_position);
    tree.edit(&tree_sitter::InputEdit {
        start_byte: edit.start_byte,
        old_end_byte: edit.old_end_byte,
        new_end_byte: edit.new_end_byte,
        start_position: tree_sitter::Point { row: start.row, column: start.column },
        old_end_position: tree_sitter::Point { row: old_end.row, column: old_end.column },
        new_end_position: tree_sitter::Point { row: new_end.row, column: new_end.column },
    })
}

/// `Node::to_sexp` on the root node of the tree.
#[verifier::external_body]
pub(crate) fn tree_to_sexp(tree: &Tree) -> (sexp: String)
    ensures
        sexp@ == tree_sexp(*tree),
{
    tree.root_node().to_sexp()
}

/// `Tree::clone` makes a tree of its own with the same nodes.
#[verifier::external_body]
pub(crate) fn tree_clone(tree: &Tree) -> (copy: Tree)
    ensures
        tree_sexp(copy) == tree_sexp(*tree),
{
    tree.clone()
}

/// The tree that a run of the parser gave.
fn tree_of_outcome(outcome: Result<Option<Tree>, LanguageError>) -> (tree: Tree)
    requires
        outcome matches Ok(Some(_)),
    ensures
        outcome == Ok::<Option<Tree>, LanguageError>(Some(tree)),
{
    match outcome {
        Ok(Some(tree)) => tree,
        _ => unreached(),
    }
}

/// Parses the buffer, reusing what it can of `old_tree`. An earlier tree must
/// have been told of every edit made to the buffer since it was built.
pub fn parse(contents: &Rope, old_tree: Option<&Tree>) -> (tree: Tree)
    ensures
        tree_sexp(tree) == parse_sexp(rope_text(*contents), hint_of(old_tree)),
{
    let text = rope_to_string(contents);
    tree_of_outcome(run_parser(text.as_str(), old_tree))
}

/// Parses the buffer with no earlier tree to go by.
pub fn parse_from_scratch(contents: &Rope) -> (tree: Tree)
    ensures
        tree_sexp(tree) == fresh_parse_sexp(rope_text(*contents)),
{
    parse(contents, None)
}

/// Tells `tree` of an edit to its text and parses the edited buffer anew with
/// the tree as a hint. `contents` is the buffer after the edit.
pub fn reparse(contents: &Rope, tree: &mut Tree, edit: &InputEdit)
    ensures
        tree_sexp(*final(tree)) == parse_sexp(
            rope_text(*contents),
            Some(edited_tree(*old(tree), *edit)),
        ),
{
    tree_edit(tree, edit);
    let parsed = parse(contents, Some(tree));
    *tree = parsed;
}

} // verus!
