//! The state of one open document, its buffer and its syntax tree, and the
//! changes that an editor makes to it.

use crate::buffer::{rope_clone, rope_text, rope_to_string};
use crate::edit::{
    apply_edit, describes_edit, is_valid_range, range_valid, replace_range, InputEdit,
};
use crate::coords::Range;
use crate::syntax::{
    edited_tree, fresh_parse_sexp, parse_from_scratch, parse_sexp, reparse, tree_clone,
    tree_sexp, tree_to_sexp,
};
use ropey::Rope;
use tree_sitter::Tree;
use vstd::prelude::*;

verus! {

/// One change that an editor reports: `text` takes the place of `range`, or
/// of the whole document where there is no range.
pub struct ContentChange {
    pub range: Option<Range>,
    pub text: String,
}

/// The change at `index` of a list has a range that is not valid in the
/// document as the changes before it left it.
#[derive(Clone, Copy, Debug, PartialEq, Eq, Structural)]
pub struct ChangeError {
    pub index: usize,
}

/// A change can be applied to `s` when its range, if it has one, is valid
/// in `s`.
pub open spec fn change_valid(s: Seq<char>, change: ContentChange) -> bool {
    match change.range {
        Some(range) => range_valid(s, range),
        None => true,
    }
}

/// The text that a change makes of `s`.
pub open spec fn change_text(s: Seq<char>, change: ContentChange) -> Seq<char> {
    match change.range {
        Some(range) => replace_range(s, range, change.text@),
        None => change.text@,
    }
}

/// The text that a list of changes makes of `s`, each applied to what the
/// ones before it left.
pub open spec fn apply_all(s: Seq<char>, changes: Seq<ContentChange>) -> Seq<char>
    decreases changes.len(),
{
    if changes.len() == 0 {
        s
    } else {
        change_text(apply_all(s, changes.drop_last()), changes.last())
    }
}

/// True when each change of the list can be applied to what the ones before
/// it left of `s`.
pub open spec fn all_valid(s: Seq<char>, changes: Seq<ContentChange>) -> bool
    decreases changes.len(),
{
    changes.len() == 0 || (all_valid(s, changes.drop_last()) && change_valid(
        apply_all(s, changes.drop_last()),
        changes.last(),
    ))
}

/// Every change of a valid list is valid in what the changes before it left,
/// and these form a valid list themselves.
pub proof fn lemma_all_valid_prefix(s: Seq<char>, changes: Seq<ContentChange>, i: int)
    requires
        all_valid(s, changes),
        0 <= i < changes.len(),
    ensures
        all_valid(s, changes.take(i)),
        change_valid(apply_all(s, changes.take(i)), changes[i]),
    decreases changes.len(),
{
    if i == changes.len() - 1 {
        assert(changes.take(i) =~= changes.drop_last());
    } else {
        lemma_all_valid_prefix(s, changes.drop_last(), i);
        assert(changes.drop_last().take(i) =~= changes.take(i));
    }
}

/// The buffer and the syntax tree of one open document.
pub struct PerFileState {
    pub contents: Rope,
    pub tree: Tree,
}

/// True when `after` is what one change makes of `before`: the buffer holds
/// the changed text, and the tree is what the parser gave for it. For a
/// change with a range the parser went by the tree of `before`, told of the
/// edit that describes the change; for one without, by no earlier tree.
pub open spec fn change_step(
    before: PerFileState,
    change: ContentChange,
    after: PerFileState,
) -> bool {
    &&& after.text() == change_text(before.text(), change)
    &&& match change.range {
        Some(range) => exists|edit: InputEdit|
            {
                &&& #[trigger] describes_edit(before.text(), range, change.text@, edit)
                &&& tree_sexp(after.tree) == parse_sexp(
                    after.text(),
                    Some(edited_tree(before.tree, edit)),
                )
            },
        None => tree_sexp(after.tree) == fresh_parse_sexp(change.text@),
    }
}

/// True when `states` are the states that a document goes through under
/// `changes`: one more than there are changes, each made of the one before
/// it by the change of its place.
pub open spec fn change_chain(states: Seq<PerFileState>, changes: Seq<ContentChange>) -> bool {
    &&& states.len() == changes.len() + 1
    &&& forall|i: int|
        0 <= i < changes.len() ==> #[trigger] change_step(states[i], changes[i], states[i + 1])
}

/// True when `after` is what the changes, made one after the other, make of
/// `before`. With no changes, `after` is `before`.
pub open spec fn follows(
    before: PerFileState,
    changes: Seq<ContentChange>,
    after: PerFileState,
) -> bool {
    exists|states: Seq<PerFileState>|
        {
            &&& #[trigger] change_chain(states, changes)
            &&& states[0] == before
            &&& states.last() == after
        }
}

/// A chain goes on by one state for one more change.
pub proof fn lemma_chain_push(
    states: Seq<PerFileState>,
    changes: Seq<ContentChange>,
    change: ContentChange,
    after: PerFileState,
)
    requires
        change_chain(states, changes),
        change_step(states.last(), change, after),
    ensures
        change_chain(states.push(after), changes.push(change)),
{
    let longer = states.push(after);
    let more = changes.push(change);
    assert forall|i: int| 0 <= i < more.len() implies #[trigger] change_step(
        longer[i],
        more[i],
        longer[i + 1],
    ) by {
        if i < changes.len() {
            assert(change_step(states[i], changes[i], states[i + 1]));
        }
    }
}

impl PerFileState {
    /// The chars of the document.
    pub open spec fn text(&self) -> Seq<char> {
        rope_text(self.contents)
    }

    /// True when the state is that of a document just opened with `text`:
    /// the buffer holds `text`, and the tree is what a parse of `text` from
    /// scratch gives.
    pub open spec fn is_fresh_open_of(&self, text: Seq<char>) -> bool {
        &&& rope_text(self.contents) == text
        &&& tree_sexp(self.tree) == fresh_parse_sexp(text)
    }

    /// True when the two states hold the same text and the same tree.
    pub open spec fn same_as(&self, other: PerFileState) -> bool {
        &&& rope_text(self.contents) == rope_text(other.contents)
        &&& tree_sexp(self.tree) == tree_sexp(other.tree)
    }

    /// The state of a document that was just opened with `text`.
    pub fn open(text: &str) -> (state: PerFileState)
        ensures
            state.is_fresh_open_of(text@),
    {
        let contents = Rope::from_str(text);
        let tree = parse_from_scratch(&contents);
        PerFileState { contents, tree }
    }

    /// A copy of the state, with a buffer and a tree of its own.
    pub fn snapshot(&self) -> (copy: PerFileState)
        ensures
            copy.same_as(*self),
    {
        PerFileState { contents: rope_clone(&self.contents), tree: tree_clone(&self.tree) }
    }

    /// Tells whether `change` can be applied to the document.
    pub fn is_valid_change(&self, change: &ContentChange) -> (valid: bool)
        ensures
            valid == change_valid(self.text(), *change),
    {
        match change.range {
            Some(range) => is_valid_range(&self.contents, range),
            None => true,
        }
    }

    /// Applies one change. With a range, the buffer is edited in place and
    /// the tree is told of the edit and parsed anew with itself as a hint.
    /// Without one, buffer and tree are made afresh from the new text.
    pub fn apply_change(&mut self, change: &ContentChange)
        requires
            change_valid(old(self).text(), *change),
        ensures
            change_step(*old(self), *change, *final(self)),
    {
        match change.range {
            Some(range) => {
                let input_edit = apply_edit(&mut self.contents, range, change.text.as_str());
                reparse(&self.contents, &mut self.tree, &input_edit);
            },
            None => {
                self.contents = Rope::from_str(change.text.as_str());
                self.tree = parse_from_scratch(&self.contents);
            },
        }
    }

    /// Applies the changes in order, each to the document as the ones before
    /// it left it, and stops before the first whose range is not valid. The
    /// document is then as the changes before that one left it.
    pub fn apply_changes(&mut self, changes: &Vec<ContentChange>) -> (r: Result<(), ChangeError>)
        ensures
            r is Ok <==> all_valid(old(self).text(), changes@),
            r is Ok ==> {
                &&& final(self).text() == apply_all(old(self).text(), changes@)
                &&& follows(*old(self), changes@, *final(self))
            },
            r matches Err(e) ==> {
                &&& e.index < changes.len()
                &&& all_valid(old(self).text(), changes@.take(e.index as int))
                &&& !change_valid(
                    apply_all(old(self).text(), changes@.take(e.index as int)),
                    changes[e.index as int],
                )
                &&& final(self).text() == apply_all(
                    old(self).text(),
                    changes@.take(e.index as int),
                )
                &&& follows(*old(self), changes@.take(e.index as int), *final(self))
            },
            changes.len() == 0 ==> *final(self) == *old(self),
    {
        let ghost before = self.text();
        let ghost mut states: Seq<PerFileState> = seq![*self];
        let mut i: usize = 0;
        while i < changes.len()
            invariant
                i <= changes.len(),
                before == old(self).text(),
                all_valid(before, changes@.take(i as int)),
                self.text() == apply_all(before, changes@.take(i as int)),
                change_chain(states, changes@.take(i as int)),
                states[0] == *old(self),
                states.last() == *self,
            decreases changes.len() - i,
        {
            proof {
                assert(changes@.take(i as int + 1).drop_last() =~= changes@.take(i as int));
                assert(changes@.take(i as int + 1).last() == changes@[i as int]);
            }
            if !self.is_valid_change(&changes[i]) {
                proof {
                    if all_valid(before, changes@) {
                        lemma_all_valid_prefix(before, changes@, i as int);
                    }
                }
                return Err(ChangeError { index: i });
            }
            self.apply_change(&changes[i]);
            proof {
                lemma_chain_push(states, changes@.take(i as int), changes@[i as int], *self);
                assert(changes@.take(i as int).push(changes@[i as int]) =~= changes@.take(
                    i as int + 1,
                ));
                states = states.push(*self);
            }
            i += 1;
        }
        proof {
            assert(changes@.take(i as int) =~= changes@);
        }
        Ok(())
    }

    /// The document's text, as a string.
    pub fn contents_string(&self) -> (text: String)
        ensures
            text@ == self.text(),
    {
        rope_to_string(&self.contents)
    }

    /// The S-expression of the root of the document's tree.
    pub fn tree_string(&self) -> (sexp: String)
        ensures
            sexp@ == tree_sexp(self.tree),
    {
        tree_to_sexp(&self.tree)
    }
}

} // verus!
