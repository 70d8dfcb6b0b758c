//! Classification of raw per-path git status flags into the three dirty
//! indicators shown in the prompt.

use vstd::prelude::*;

verus! {

/// The raw status flags a repository status provider reports for one path.
///
/// A path may carry any combination of these at once (for example a file
/// staged as new and then modified again in the worktree).
#[derive(Clone, Copy, Debug, PartialEq, Eq, Structural)]
pub struct StatusFlags {
    pub index_new: bool,
    pub index_modified: bool,
    pub index_deleted: bool,
    pub index_renamed: bool,
    pub index_typechange: bool,
    pub wt_new: bool,
    pub wt_modified: bool,
    pub wt_deleted: bool,
    pub wt_renamed: bool,
    pub wt_typechange: bool,
}

impl StatusFlags {
    /// The path has uncommitted changes to a tracked file in the worktree.
    pub open spec fn spec_worktree_dirty(self) -> bool {
        self.wt_modified || self.wt_deleted || self.wt_typechange || self.wt_renamed
    }

    /// The path has a change staged in the index.
    pub open spec fn spec_index_dirty(self) -> bool {
        self.index_new || self.index_modified || self.index_typechange || self.index_renamed
            || self.index_deleted
    }

    /// The path is present in the worktree but untracked.
    pub open spec fn spec_untracked(self) -> bool {
        self.wt_new
    }

    /// Whether this path's flags intersect the worktree-dirty group.
    pub fn worktree_dirty(&self) -> (r: bool)
        ensures
            r == self.spec_worktree_dirty(),
    {
        self.wt_modified || self.wt_deleted || self.wt_typechange || self.wt_renamed
    }

    /// Whether this path's flags intersect the index-dirty group.
    pub fn index_dirty(&self) -> (r: bool)
        ensures
            r == self.spec_index_dirty(),
    {
        self.index_new || self.index_modified || self.index_typechange || self.index_renamed
            || self.index_deleted
    }

    /// Whether this path is untracked.
    pub fn untracked(&self) -> (r: bool)
        ensures
            r == self.spec_untracked(),
    {
        self.wt_new
    }
}

/// Some path of the snapshot has staged changes.
pub open spec fn spec_index_any(s: Seq<StatusFlags>) -> bool {
    exists|j: int| 0 <= j < s.len() && s[j].spec_index_dirty()
}

/// Some path of the snapshot has worktree changes to a tracked file.
pub open spec fn spec_worktree_any(s: Seq<StatusFlags>) -> bool {
    exists|j: int| 0 <= j < s.len() && s[j].spec_worktree_dirty()
}

/// Some path of the snapshot is untracked.
pub open spec fn spec_untracked_any(s: Seq<StatusFlags>) -> bool {
    exists|j: int| 0 <= j < s.len() && s[j].spec_untracked()
}

/// In a nonempty snapshot in which every path's flags intersect the
/// worktree-dirty group, the worktree indicator comes out true.
pub proof fn lemma_worktree_dirty_everywhere(s: Seq<StatusFlags>)
    requires
        s.len() > 0,
        forall|j: int| 0 <= j < s.len() ==> s[j].spec_worktree_dirty(),
    ensures
        spec_worktree_any(s),
{
    assert(s[0].spec_worktree_dirty());
}

/// An empty snapshot yields all three indicators false.
pub proof fn lemma_empty_all_clean(s: Seq<StatusFlags>)
    requires
        s.len() == 0,
    ensures
        !spec_index_any(s),
        !spec_worktree_any(s),
        !spec_untracked_any(s),
{
}

/// Combined flags are not mutually exclusive: one path flagged both
/// index-new and worktree-modified sets both indicators at once.
pub proof fn lemma_combined_flags(s: Seq<StatusFlags>, j: int)
    requires
        0 <= j < s.len(),
        s[j].index_new,
        s[j].wt_modified,
    ensures
        spec_index_any(s),
        spec_worktree_any(s),
{
    assert(s[j].spec_index_dirty());
    assert(s[j].spec_worktree_dirty());
}

/// The short name shown when the repository head cannot be resolved.
pub open spec fn no_head_bytes() -> Seq<u8> {
    seq![78u8, 79u8, 32u8, 72u8, 69u8, 65u8, 68u8]
}

/// The head ref name to display: the resolved short name when one exists,
/// or the sentinel `NO HEAD` when the head is unborn or unresolvable.
pub fn head_ref_or_sentinel(head: Option<Vec<u8>>) -> (r: Vec<u8>)
    ensures
        head is Some ==> r@ == head->0@,
        head is None ==> r@ == no_head_bytes(),
{
    match head {
        Some(name) => name,
        None => {
            let mut v: Vec<u8> = Vec::new();
            v.push(78);
            v.push(79);
            v.push(32);
            v.push(72);
            v.push(69);
            v.push(65);
            v.push(68);
            proof {
                assert(v@ =~= no_head_bytes());
            }
            v
        },
    }
}

/// The per-repository summary the prompt shows: the head ref short name and
/// the three dirty indicators derived from a status snapshot.
pub struct GitBits {
    pub head_ref: Vec<u8>,
    pub index_modified: bool,
    pub worktree_modified: bool,
    pub untracked_files: bool,
}

impl GitBits {
    /// Classify a status snapshot.
    ///
    /// Each indicator is the union over all paths of the corresponding test
    /// on that path's flag set: once any path sets an indicator it stays set,
    /// and an empty snapshot leaves all three false.
    pub fn from_statuses(head_ref: Vec<u8>, statuses: &Vec<StatusFlags>) -> (r: GitBits)
        ensures
            r.head_ref@ == head_ref@,
            r.index_modified == spec_index_any(statuses@),
            r.worktree_modified == spec_worktree_any(statuses@),
            r.untracked_files == spec_untracked_any(statuses@),
    {
        let mut index_modified = false;
        let mut worktree_modified = false;
        let mut untracked_files = false;
        let n = statuses.len();
        let mut i: usize = 0;
        while i < n
            invariant
                0 <= i <= n,
                n == statuses@.len(),
                index_modified == exists|j: int| 0 <= j < i && statuses@[j].spec_index_dirty(),
                worktree_modified == exists|j: int|
                    0 <= j < i && statuses@[j].spec_worktree_dirty(),
                untracked_files == exists|j: int| 0 <= j < i && statuses@[j].spec_untracked(),
            decreases n - i,
        {
            let st = statuses[i];
            if st.worktree_dirty() {
                worktree_modified = true;
            }
            if st.index_dirty() {
                index_modified = true;
            }
            if st.untracked() {
                untracked_files = true;
            }
            i += 1;
        }
        GitBits { head_ref, index_modified, worktree_modified, untracked_files }
    }

    /// The dirty-state suffix for this summary: empty when all three
    /// indicators are false, otherwise `:` followed by `s`, `d`, `u` in that
    /// fixed order for whichever of index, worktree and untracked are set.
    pub open spec fn spec_elements(self) -> Seq<u8> {
        if self.index_modified || self.worktree_modified || self.untracked_files {
            seq![58u8] + (if self.index_modified {
                seq![115u8]
            } else {
                Seq::<u8>::empty()
            }) + (if self.worktree_modified {
                seq![100u8]
            } else {
                Seq::<u8>::empty()
            }) + (if self.untracked_files {
                seq![117u8]
            } else {
                Seq::<u8>::empty()
            })
        } else {
            Seq::<u8>::empty()
        }
    }

    /// Append the dirty-state suffix to `out`.
    pub fn write_elements(&self, out: &mut Vec<u8>)
        ensures
            final(out)@ == old(out)@ + self.spec_elements(),
    {
        if self.index_modified || self.worktree_modified || self.untracked_files {
            out.push(58);
            if self.index_modified {
                out.push(115);
            }
            if self.worktree_modified {
                out.push(100);
            }
            if self.untracked_files {
                out.push(117);
            }
        }
        proof {
            assert(out@ =~= old(out)@ + self.spec_elements());
        }
    }
}

} // verus!
