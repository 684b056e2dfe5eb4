//! The backfill of the folder-group migration: every folder of a store without groups
//! gets a group of its own.

use crate::text::{
    comes_before, lemma_text_less_total, lemma_text_less_transitive, same_text, text_less,
};
use vstd::prelude::*;

verus! {

/// A folder as the migration reads it.
#[derive(Debug)]
pub struct LegacyFolder {
    pub id: i32,
    pub name: String,
    /// When it was last opened, as stored: later times are greater texts.
    pub last_opened_at: String,
    /// The stored removal time, kept as it is.
    pub deleted_at: Option<String>,
}

/// A group to be inserted for a folder.
#[derive(Debug)]
pub struct BackfillGroup {
    pub folder_id: i32,
    pub name: String,
    pub sort_order: i32,
    pub deleted_at: Option<String>,
}

/// `a` gets its group no later than `b`: removed folders come last, then the most
/// recently opened come first, then the smaller id.
pub open spec fn precedes(a: LegacyFolder, b: LegacyFolder) -> bool {
    if (a.deleted_at is Some) != (b.deleted_at is Some) {
        a.deleted_at is None
    } else if a.last_opened_at@ != b.last_opened_at@ {
        text_less(b.last_opened_at@, a.last_opened_at@)
    } else {
        a.id <= b.id
    }
}

proof fn lemma_precedes_transitive(a: LegacyFolder, b: LegacyFolder, c: LegacyFolder)
    requires
        precedes(a, b),
        precedes(b, c),
    ensures
        precedes(a, c),
{
    let (x, y, z) = (a.last_opened_at@, b.last_opened_at@, c.last_opened_at@);
    lemma_text_less_total(x, y);
    lemma_text_less_total(y, z);
    lemma_text_less_total(x, z);
    if text_less(z, y) && text_less(y, x) {
        lemma_text_less_transitive(z, y, x);
    }
}

proof fn lemma_precedes_total(a: LegacyFolder, b: LegacyFolder)
    ensures
        precedes(a, b) || precedes(b, a),
{
    lemma_text_less_total(a.last_opened_at@, b.last_opened_at@);
}

fn is_before(a: &LegacyFolder, b: &LegacyFolder) -> (r: bool)
    ensures
        r == precedes(*a, *b),
{
    if a.deleted_at.is_some() != b.deleted_at.is_some() {
        a.deleted_at.is_none()
    } else if !same_text(a.last_opened_at.as_str(), b.last_opened_at.as_str()) {
        comes_before(b.last_opened_at.as_str(), a.last_opened_at.as_str())
    } else {
        a.id <= b.id
    }
}

/// `order` goes through the folders, each once, in the order in which they get their
/// groups.
pub open spec fn backfill_order(folders: Seq<LegacyFolder>, order: Seq<usize>) -> bool {
    &&& order.len() == folders.len()
    &&& order.no_duplicates()
    &&& forall|i: int| 0 <= i < order.len() ==> (#[trigger] order[i]) < folders.len()
    &&& forall|i: int, j: int|
        0 <= i < j < order.len() ==> precedes(
            folders[#[trigger] order[i] as int],
            folders[#[trigger] order[j] as int],
        )
}

fn sort_folders(folders: &Vec<LegacyFolder>) -> (order: Vec<usize>)
    ensures
        backfill_order(folders@, order@),
{
    let mut order: Vec<usize> = Vec::new();
    let mut k: usize = 0;
    while k < folders.len()
        invariant
            k <= folders@.len(),
            order@.len() == k,
            order@.no_duplicates(),
            forall|i: int| 0 <= i < order@.len() ==> (#[trigger] order@[i]) < k,
            forall|i: int, j: int|
                0 <= i < j < order@.len() ==> precedes(
                    folders@[#[trigger] order@[i] as int],
                    folders@[#[trigger] order@[j] as int],
                ),
        decreases folders@.len() - k,
    {
        let mut p: usize = 0;
        while p < order.len() && is_before(&folders[order[p]], &folders[k])
            invariant
                k < folders@.len(),
                p <= order@.len(),
                forall|i: int| 0 <= i < order@.len() ==> (#[trigger] order@[i]) < k,
                forall|i: int|
                    0 <= i < p ==> precedes(
                        folders@[#[trigger] order@[i] as int],
                        folders@[k as int],
                    ),
            decreases order@.len() - p,
        {
            p = p + 1;
        }
        let ghost before = order@;
        order.insert(p, k);
        proof {
            let after = order@;
            if p < before.len() {
                lemma_precedes_total(folders@[before[p as int] as int], folders@[k as int]);
            }
            assert forall|i: int, j: int| 0 <= i < j < after.len() implies precedes(
                folders@[#[trigger] after[i] as int],
                folders@[#[trigger] after[j] as int],
            ) by {
                let ii = if i < p { i } else { i - 1 };
                let jj = if j < p { j } else { j - 1 };
                if i != p && j != p {
                    assert(after[i] == before[ii] && after[j] == before[jj]);
                } else if i == p {
                    assert(after[j] == before[jj]);
                    if jj > p {
                        assert(before[p as int] < k);
                        lemma_precedes_transitive(
                            folders@[k as int],
                            folders@[before[p as int] as int],
                            folders@[before[jj] as int],
                        );
                    }
                } else {
                    assert(after[i] == before[i]);
                }
            }
            assert forall|i: int| 0 <= i < after.len() implies (#[trigger] after[i]) < k + 1 by {
                if i < p {
                    assert(after[i] == before[i]);
                } else if i > p {
                    assert(after[i] == before[i - 1]);
                }
            }
            assert forall|i: int, j: int|
                0 <= i < after.len() && 0 <= j < after.len() && i != j implies after[i]
                != after[j] by {
                let ii = if i < p { i } else { i - 1 };
                let jj = if j < p { j } else { j - 1 };
                if i != p && j != p {
                    assert(after[i] == before[ii] && after[j] == before[jj]);
                } else if i == p {
                    assert(after[j] == before[jj]);
                } else {
                    assert(after[i] == before[ii]);
                }
            }
        }
        k = k + 1;
    }
    order
}

/// A place as a sort order, as a cast does it.
#[verifier::truncate]
fn sort_order_at(i: usize) -> (r: i32)
    ensures
        r == i as int as i32,
{
    i as i32
}

/// The group of a folder: its name, its place as the sort order, and, for a removed
/// folder, its removal time, so that the two are removed together.
pub open spec fn group_for(g: BackfillGroup, f: LegacyFolder, place: int) -> bool {
    &&& g.folder_id == f.id
    &&& g.name == f.name
    &&& g.sort_order == place as i32
    &&& g.deleted_at == f.deleted_at
}

/// One group per folder, in the order in which the folders get them.
pub fn backfill_groups(folders: &Vec<LegacyFolder>) -> (r: Vec<BackfillGroup>)
    ensures
        r@.len() == folders@.len(),
        exists|order: Seq<usize>| #[trigger]
            backfill_order(folders@, order) && forall|i: int|
                0 <= i < r@.len() ==> group_for(#[trigger] r@[i], folders@[order[i] as int], i),
{
    let order = sort_folders(folders);
    let mut out: Vec<BackfillGroup> = Vec::new();
    let mut i: usize = 0;
    while i < order.len()
        invariant
            i <= order@.len(),
            backfill_order(folders@, order@),
            out@.len() == i,
            forall|j: int|
                0 <= j < i ==> group_for(#[trigger] out@[j], folders@[order@[j] as int], j),
        decreases order@.len() - i,
    {
        let f = &folders[order[i]];
        out.push(
            BackfillGroup {
                folder_id: f.id,
                name: f.name.clone(),
                sort_order: sort_order_at(i),
                deleted_at: f.deleted_at.clone(),
            },
        );
        i = i + 1;
    }
    out
}

} // verus!
