//! The idempotency ledger: one row for each request that a caller has
//! marked with a key, and in it the response once the request is done.

use super::key::IdempotencyKey;
use super::response::{ResponseView, SavedResponse};
use crate::domain::UserId;
use crate::sequences::{lemma_filter_all, lemma_filter_one_out};
use vstd::prelude::*;

verus! {

/// The mathematical form of a ledger row.
pub struct LedgerRowView {
    pub caller_id: u128,
    pub key: Seq<char>,
    pub created_at: u64,
    pub response: Option<ResponseView>,
}

/// Whether the row is the one of this caller and key.
pub open spec fn row_matches(row: LedgerRowView, caller_id: u128, key: Seq<char>) -> bool {
    row.caller_id == caller_id && row.key == key
}

/// Whether the ledger holds a row for this caller and key.
pub open spec fn has_row(rows: Seq<LedgerRowView>, caller_id: u128, key: Seq<char>) -> bool {
    exists|i: int| 0 <= i < rows.len() && row_matches(#[trigger] rows[i], caller_id, key)
}

/// The row of this caller and key, where the ledger holds one.
pub open spec fn row_of(rows: Seq<LedgerRowView>, caller_id: u128, key: Seq<char>) -> LedgerRowView {
    rows[choose|i: int| 0 <= i < rows.len() && row_matches(#[trigger] rows[i], caller_id, key)]
}

/// No two rows are of the same caller and key.
pub open spec fn keys_are_unique(rows: Seq<LedgerRowView>) -> bool {
    forall|i: int, j: int|
        #![trigger rows[i], rows[j]]
        0 <= i < rows.len() && 0 <= j < rows.len() && i != j ==> !row_matches(
            rows[j],
            rows[i].caller_id,
            rows[i].key,
        )
}

/// The row that a first claim writes: no response yet.
pub open spec fn claimed_row(caller_id: u128, key: Seq<char>, now: u64) -> LedgerRowView {
    LedgerRowView { caller_id, key, created_at: now, response: None }
}

/// The row with the response written into it.
pub open spec fn completed_row(row: LedgerRowView, response: ResponseView) -> LedgerRowView {
    LedgerRowView { response: Some(response), ..row }
}

/// The ledger once the response has been written into the row of this
/// caller and key. A ledger without such a row stays as it is.
pub open spec fn completed(
    rows: Seq<LedgerRowView>,
    caller_id: u128,
    key: Seq<char>,
    response: ResponseView,
) -> Seq<LedgerRowView> {
    rows.map_values(
        |row: LedgerRowView|
            if row_matches(row, caller_id, key) {
                completed_row(row, response)
            } else {
                row
            },
    )
}

/// The response that the ledger has saved for this caller and key, if it
/// has saved one.
pub open spec fn saved_response(rows: Seq<LedgerRowView>, caller_id: u128, key: Seq<char>) -> Option<
    ResponseView,
> {
    if has_row(rows, caller_id, key) {
        row_of(rows, caller_id, key).response
    } else {
        None
    }
}

/// The ledger without the row of this caller and key, where that row holds
/// no response. A row that holds one stays.
pub open spec fn unclaimed(rows: Seq<LedgerRowView>, caller_id: u128, key: Seq<char>) -> Seq<
    LedgerRowView,
> {
    rows.filter(|row: LedgerRowView| !(row_matches(row, caller_id, key) && row.response is None))
}

/// Whether a purge with this cutoff leaves the row in place: a row goes
/// where it was created before the cutoff.
pub open spec fn survives(row: LedgerRowView, older_than: u64) -> bool {
    row.created_at >= older_than
}

/// The rows that a purge with this cutoff leaves, in their order.
pub open spec fn purged(rows: Seq<LedgerRowView>, older_than: u64) -> Seq<LedgerRowView> {
    rows.filter(|row: LedgerRowView| survives(row, older_than))
}

/// In a ledger without double keys, the row of a caller and key is the row
/// at any place where one of that caller and key stands.
pub proof fn lemma_row_of(rows: Seq<LedgerRowView>, at: int, caller_id: u128, key: Seq<char>)
    requires
        keys_are_unique(rows),
        0 <= at < rows.len(),
        row_matches(rows[at], caller_id, key),
    ensures
        has_row(rows, caller_id, key),
        row_of(rows, caller_id, key) == rows[at],
{
    let chosen = choose|i: int| 0 <= i < rows.len() && row_matches(#[trigger] rows[i], caller_id, key);
    if chosen != at {
        assert(!row_matches(rows[chosen], rows[at].caller_id, rows[at].key));
    }
}

/// A purge keeps exactly the rows that survive it, and keeps them apart.
pub proof fn lemma_purged(rows: Seq<LedgerRowView>, older_than: u64)
    ensures
        purged(rows, older_than).len() <= rows.len(),
        forall|caller_id: u128, key: Seq<char>|
            #![trigger has_row(purged(rows, older_than), caller_id, key)]
            has_row(purged(rows, older_than), caller_id, key) ==> has_row(rows, caller_id, key),
        forall|i: int|
            0 <= i < rows.len() && survives(#[trigger] rows[i], older_than) ==> purged(
                rows,
                older_than,
            ).contains(rows[i]),
        forall|i: int|
            0 <= i < purged(rows, older_than).len() ==> rows.contains(
                #[trigger] purged(rows, older_than)[i],
            ) && survives(purged(rows, older_than)[i], older_than),
        keys_are_unique(rows) ==> keys_are_unique(purged(rows, older_than)),
    decreases rows.len(),
{
    let keep = |row: LedgerRowView| survives(row, older_than);
    let kept = purged(rows, older_than);
    reveal(Seq::filter);
    if rows.len() > 0 {
        let front = rows.drop_last();
        let last = rows.last();
        lemma_purged(front, older_than);
        let kept_front = purged(front, older_than);
        assert(kept == if keep(last) { kept_front.push(last) } else { kept_front });
        assert forall|i: int| 0 <= i < kept.len() implies rows.contains(#[trigger] kept[i])
            && survives(kept[i], older_than) by {
            if i < kept_front.len() {
                assert(front.contains(kept_front[i]));
                let j = choose|j: int| 0 <= j < front.len() && front[j] == kept_front[i];
                assert(rows[j] == kept[i]);
            } else {
                assert(rows[rows.len() - 1] == kept[i]);
            }
        }
        assert forall|i: int| 0 <= i < rows.len() && survives(#[trigger] rows[i], older_than)
            implies kept.contains(rows[i]) by {
            if i < front.len() {
                assert(front[i] == rows[i]);
                assert(kept_front.contains(front[i]));
                let j = choose|j: int| 0 <= j < kept_front.len() && kept_front[j] == front[i];
                assert(kept[j] == rows[i]);
            } else {
                assert(kept[kept.len() - 1] == rows[i]);
            }
        }
        assert forall|caller_id: u128, key: Seq<char>| #[trigger]
            has_row(kept, caller_id, key) implies has_row(rows, caller_id, key) by {
            let i = choose|i: int| 0 <= i < kept.len() && row_matches(#[trigger] kept[i], caller_id, key);
            assert(rows.contains(kept[i]));
            let j = choose|j: int| 0 <= j < rows.len() && rows[j] == kept[i];
            assert(row_matches(rows[j], caller_id, key));
        }
        if keys_are_unique(rows) {
            assert(keys_are_unique(front)) by {
                assert forall|i: int, j: int|
                    #![trigger front[i], front[j]]
                    0 <= i < front.len() && 0 <= j < front.len() && i != j implies !row_matches(
                    front[j],
                    front[i].caller_id,
                    front[i].key,
                ) by {
                    assert(!row_matches(rows[j], rows[i].caller_id, rows[i].key));
                }
            }
            assert forall|i: int, j: int|
                #![trigger kept[i], kept[j]]
                0 <= i < kept.len() && 0 <= j < kept.len() && i != j implies !row_matches(
                kept[j],
                kept[i].caller_id,
                kept[i].key,
            ) by {
                if i < kept_front.len() && j < kept_front.len() {
                    assert(!row_matches(kept_front[j], kept_front[i].caller_id, kept_front[i].key));
                } else {
                    let inner = if i < kept_front.len() { i } else { j };
                    assert(front.contains(kept_front[inner]));
                    let k = choose|k: int| 0 <= k < front.len() && front[k] == kept_front[inner];
                    assert(rows[k] == kept_front[inner]);
                    assert(!row_matches(rows[rows.len() - 1], rows[k].caller_id, rows[k].key));
                    assert(!row_matches(rows[k], rows[rows.len() - 1].caller_id, rows[rows.len() - 1].key));
                }
            }
        }
    }
}

/// A ledger without double keys stays one when a row is taken out.
pub proof fn lemma_remove_keeps_unique(rows: Seq<LedgerRowView>, at: int)
    requires
        keys_are_unique(rows),
        0 <= at < rows.len(),
    ensures
        keys_are_unique(rows.remove(at)),
{
    let after = rows.remove(at);
    assert forall|i: int, j: int|
        #![trigger after[i], after[j]]
        0 <= i < after.len() && 0 <= j < after.len() && i != j implies !row_matches(
        after[j],
        after[i].caller_id,
        after[i].key,
    ) by {
        let from_i = if i < at { i } else { i + 1 };
        let from_j = if j < at { j } else { j + 1 };
        assert(!row_matches(rows[from_j], rows[from_i].caller_id, rows[from_i].key));
    }
}

/// What a caller does after it has tried to claim a key.
#[derive(Debug, PartialEq, Eq)]
pub enum NextAction {
    /// The key was free and is now the caller's: do the work.
    StartProcessing,
    /// The work was done before: answer with what it gave then.
    ReturnSavedResponse(SavedResponse),
}

/// Why a claim gives no answer.
#[derive(Debug, Clone, Copy, PartialEq, Eq, Structural)]
pub enum LedgerError {
    /// The key is taken, and no response has been saved for it.
    ResponseMissing,
}

/// Decides what follows a claim, from what the store reported: how many
/// rows the conditional insert wrote, and the response that was then read
/// for the key where none was written.
pub fn next_action(n_inserted_rows: u64, saved: Option<SavedResponse>) -> (next: Result<
    NextAction,
    LedgerError,
>)
    ensures
        n_inserted_rows > 0 ==> next matches Ok(NextAction::StartProcessing),
        n_inserted_rows == 0 ==> match saved {
            Some(response) => next matches Ok(NextAction::ReturnSavedResponse(replay)) && replay
                == response,
            None => next matches Err(LedgerError::ResponseMissing),
        },
{
    if n_inserted_rows > 0 {
        Ok(NextAction::StartProcessing)
    } else {
        match saved {
            Some(response) => Ok(NextAction::ReturnSavedResponse(response)),
            None => Err(LedgerError::ResponseMissing),
        }
    }
}

struct LedgerRow {
    caller_id: UserId,
    key: IdempotencyKey,
    created_at: u64,
    response: Option<SavedResponse>,
}

impl View for LedgerRow {
    type V = LedgerRowView;

    closed spec fn view(&self) -> LedgerRowView {
        LedgerRowView {
            caller_id: self.caller_id@,
            key: self.key@,
            created_at: self.created_at,
            response: match self.response {
                Some(response) => Some(response@),
                None => None,
            },
        }
    }
}

spec fn row_views(rows: Seq<LedgerRow>) -> Seq<LedgerRowView> {
    Seq::new(rows.len(), |i: int| rows[i]@)
}

/// The ledger, held in memory.
pub struct Ledger {
    rows: Vec<LedgerRow>,
}

impl View for Ledger {
    type V = Seq<LedgerRowView>;

    closed spec fn view(&self) -> Seq<LedgerRowView> {
        Seq::new(self.rows@.len(), |i: int| self.rows@[i]@)
    }
}

impl Ledger {
    /// The ledger's invariant: no two rows are of the same caller and key.
    pub open spec fn wf(&self) -> bool {
        keys_are_unique(self@)
    }

    /// A ledger without rows.
    pub fn new() -> (ledger: Self)
        ensures
            ledger.wf(),
            ledger@ == Seq::<LedgerRowView>::empty(),
    {
        let ledger = Ledger { rows: Vec::new() };
        assert(ledger@ =~= Seq::<LedgerRowView>::empty());
        ledger
    }

    /// The number of rows.
    pub fn len(&self) -> (count: usize)
        ensures
            count == self@.len(),
    {
        self.rows.len()
    }

    fn position(&self, caller_id: UserId, key: &IdempotencyKey) -> (found: Option<usize>)
        requires
            self.wf(),
        ensures
            match found {
                Some(at) => at < self@.len() && row_matches(self@[at as int], caller_id@, key@)
                    && has_row(self@, caller_id@, key@) && row_of(self@, caller_id@, key@)
                    == self@[at as int],
                None => !has_row(self@, caller_id@, key@),
            },
    {
        let mut i: usize = 0;
        while i < self.rows.len()
            invariant
                i <= self.rows@.len(),
                keys_are_unique(self@),
                forall|j: int| 0 <= j < i ==> !row_matches(#[trigger] self@[j], caller_id@, key@),
            decreases self.rows@.len() - i,
        {
            let row = &self.rows[i];
            if row.caller_id == caller_id && row.key.same_as(key) {
                proof {
                    lemma_row_of(self@, i as int, caller_id@, key@);
                }
                return Some(i);
            }
            i += 1;
        }
        None
    }

    /// Claims the key for the caller. Where the ledger has no row for the
    /// two, one is written with `now` as its time and without a response,
    /// and the caller is to do the work. Where it has one, nothing is
    /// written: the saved response comes back, or an error where none has
    /// been saved yet.
    pub fn claim(&mut self, caller_id: UserId, key: &IdempotencyKey, now: u64) -> (claimed: Result<
        NextAction,
        LedgerError,
    >)
        requires
            old(self).wf(),
        ensures
            final(self).wf(),
            if has_row(old(self)@, caller_id@, key@) {
                &&& final(self)@ == old(self)@
                &&& match row_of(old(self)@, caller_id@, key@).response {
                    Some(response) => claimed matches Ok(NextAction::ReturnSavedResponse(replay))
                        && replay@ == response,
                    None => claimed matches Err(LedgerError::ResponseMissing),
                }
            } else {
                &&& final(self)@ == old(self)@.push(claimed_row(caller_id@, key@, now))
                &&& claimed matches Ok(NextAction::StartProcessing)
            },
    {
        match self.position(caller_id, key) {
            Some(at) => {
                match &self.rows[at].response {
                    Some(response) => Ok(NextAction::ReturnSavedResponse(response.clone())),
                    None => Err(LedgerError::ResponseMissing),
                }
            },
            None => {
                let ghost before = self@;
                let row = LedgerRow { caller_id, key: key.clone(), created_at: now, response: None };
                proof {
                    let after = before.push(row@);
                    assert forall|i: int, j: int|
                        #![trigger after[i], after[j]]
                        0 <= i < after.len() && 0 <= j < after.len() && i != j implies !row_matches(
                        after[j],
                        after[i].caller_id,
                        after[i].key,
                    ) by {
                        if i < before.len() && j < before.len() {
                            assert(!row_matches(before[j], before[i].caller_id, before[i].key));
                        } else if i < before.len() {
                            assert(!row_matches(before[i], caller_id@, key@));
                        } else {
                            assert(!row_matches(before[j], caller_id@, key@));
                        }
                    }
                    assert(Seq::new(
                        self.rows@.push(row).len(),
                        |i: int| self.rows@.push(row)[i]@,
                    ) =~= after);
                }
                self.rows.push(row);
                assert(self@ =~= before.push(claimed_row(caller_id@, key@, now)));
                Ok(NextAction::StartProcessing)
            },
        }
    }

    /// Writes the response into the row that the caller has claimed for the
    /// key. Where there is no such row, nothing changes.
    pub fn save_response(&mut self, key: &IdempotencyKey, user_id: UserId, response: SavedResponse)
        requires
            old(self).wf(),
        ensures
            final(self).wf(),
            final(self)@ == completed(old(self)@, user_id@, key@, response@),
    {
        let ghost before = self@;
        match self.position(user_id, key) {
            None => {
                assert(completed(before, user_id@, key@, response@) =~= before) by {
                    assert forall|i: int| 0 <= i < before.len() implies !row_matches(
                        #[trigger] before[i],
                        user_id@,
                        key@,
                    ) by {}
                }
            },
            Some(at) => {
                let ghost after = completed(before, user_id@, key@, response@);
                let ghost written = response@;
                let old_row = self.rows.remove(at);
                let row = LedgerRow {
                    caller_id: old_row.caller_id,
                    key: old_row.key,
                    created_at: old_row.created_at,
                    response: Some(response),
                };
                self.rows.insert(at, row);
                assert(self@ =~= after) by {
                    assert forall|i: int| 0 <= i < before.len() implies self@[i] == after[i] by {
                        if i != at {
                            assert(!row_matches(before[i], before[at as int].caller_id, before[at as int].key));
                        }
                    }
                }
                assert(keys_are_unique(after)) by {
                    assert forall|i: int, j: int|
                        #![trigger after[i], after[j]]
                        0 <= i < after.len() && 0 <= j < after.len() && i != j implies !row_matches(
                        after[j],
                        after[i].caller_id,
                        after[i].key,
                    ) by {
                        assert(!row_matches(before[j], before[i].caller_id, before[i].key));
                    }
                }
            },
        }
    }

    /// The response that has been saved for the caller and key, if one has
    /// been.
    pub fn get_saved_response(&self, key: &IdempotencyKey, user_id: UserId) -> (saved: Option<
        SavedResponse,
    >)
        requires
            self.wf(),
        ensures
            match saved {
                Some(response) => saved_response(self@, user_id@, key@) == Some(response@),
                None => saved_response(self@, user_id@, key@) is None,
            },
    {
        match self.position(user_id, key) {
            None => None,
            Some(at) => match &self.rows[at].response {
                Some(response) => Some(response.clone()),
                None => None,
            },
        }
    }

    /// Takes back a claim: removes the row of the caller and key where it
    /// holds no response yet. This is what the store does when the work
    /// behind a claim is abandoned before its response is saved.
    pub fn release(&mut self, key: &IdempotencyKey, user_id: UserId)
        requires
            old(self).wf(),
        ensures
            final(self).wf(),
            final(self)@ == unclaimed(old(self)@, user_id@, key@),
    {
        let ghost before = self@;
        let ghost keep = |row: LedgerRowView| !(row_matches(row, user_id@, key@) && row.response is None);
        let at = match self.position(user_id, key) {
            Some(at) => at,
            None => {
                proof {
                    lemma_filter_all(before, keep);
                }
                return ;
            },
        };
        if self.rows[at].response.is_some() {
            proof {
                assert forall|i: int| 0 <= i < before.len() implies keep(#[trigger] before[i]) by {
                    if i != at {
                        assert(!row_matches(before[i], before[at as int].caller_id, before[at as int].key));
                    }
                }
                lemma_filter_all(before, keep);
            }
            return ;
        }
        self.rows.remove(at);
        proof {
            assert(self@ =~= before.remove(at as int));
            assert forall|i: int| 0 <= i < before.len() && i != at implies keep(
                #[trigger] before[i],
            ) by {
                assert(!row_matches(before[i], before[at as int].caller_id, before[at as int].key));
            }
            lemma_filter_one_out(before, keep, at as int);
            lemma_remove_keeps_unique(before, at as int);
        }
    }

    /// Removes every row that was created before `older_than`, and says how
    /// many rows that were.
    pub fn purge(&mut self, older_than: u64) -> (count: u64)
        requires
            old(self).wf(),
        ensures
            final(self).wf(),
            final(self)@ == purged(old(self)@, older_than),
            count == old(self)@.len() - final(self)@.len(),
    {
        let ghost before = self@;
        let mut kept: Vec<LedgerRow> = Vec::new();
        let mut rows: Vec<LedgerRow> = Vec::new();
        core::mem::swap(&mut self.rows, &mut rows);
        let total: usize = rows.len();
        let mut count: usize = 0;
        let mut i: usize = 0;
        assert(rows@.take(0) =~= Seq::<LedgerRow>::empty());
        assert(row_views(rows@.take(0)) =~= Seq::<LedgerRowView>::empty());
        for row in it: rows
            invariant
                it.seq().len() == total,
                row_views(it.seq()) == before,
                i == it.index(),
                count + kept@.len() == i,
                row_views(kept@) == purged(before.take(i as int), older_than),
        {
            proof {
                reveal(Seq::filter);
                let done = before.take(i + 1);
                assert(done.drop_last() =~= before.take(i as int));
                assert(done.last() == row@);
            }
            if row.created_at < older_than {
                count += 1;
            } else {
                proof {
                    assert(row_views(kept@.push(row)) =~= row_views(kept@).push(row@));
                }
                kept.push(row);
            }
            i += 1;
        }
        proof {
            assert(before.take(total as int) =~= before);
            lemma_purged(before, older_than);
        }
        self.rows = kept;
        assert(self@ =~= row_views(kept@));
        count as u64
    }
}

} // verus!
