//! The store itself: rows in insertion order and the counter of
//! identifiers, kept well-formed by every operation.
use crate::db::model::{
    admits, current, distinct_from_earlier, filter_views, flipped, fresh_row, has_id,
    is_record_type, latest_first, latest_index, latest_time, lemma_newest_of_each,
    lemma_position_of_id_unique, lemma_position_unique, listed, loadable, newest_of_each, picked,
    position, position_of_id, precedes, query_outcome, retained_rows, rows_wf, rows_without,
    same_content, stores, superseded, toggled_rows, touched, upsert_outcome, value_outcome, views,
    RecordView, StoreState,
};
use crate::db::{accepts_every, is_known_type, Filter, Record, RecordInput, StoreError};
use vstd::prelude::*;
use vstd::string::*;

verus! {

/// The history store.
#[derive(Debug)]
pub struct Database {
    rows: Vec<Record>,
    last_id: i64,
}

impl Database {
    /// The rows, in insertion order.
    pub closed spec fn rows(&self) -> Seq<RecordView> {
        views(self.rows@)
    }

    /// The largest identifier handed out so far (0 before the first insert).
    pub closed spec fn last_id(&self) -> i64 {
        self.last_id
    }

    /// Rows and identifier counter together.
    pub open spec fn view(&self) -> StoreState {
        StoreState { rows: self.rows(), last_id: self.last_id() }
    }

    /// The store's invariant; see [`rows_wf`].  Every store satisfies it.
    pub open spec fn wf(&self) -> bool {
        rows_wf(self.rows(), self.last_id())
    }

    #[verifier::type_invariant]
    spec fn well_formed(&self) -> bool {
        rows_wf(views(self.rows@), self.last_id)
    }

    /// Every store satisfies its invariant: a no-op that lets verified
    /// callers know.
    pub fn assert_wf(&self)
        ensures
            self.wf(),
    {
        proof {
            use_type_invariant(self);
        }
    }

    /// An empty store whose first row will get identifier 1.
    pub fn new() -> (db: Self)
        ensures
            db.wf(),
            db@.rows == Seq::<RecordView>::empty(),
            db@.last_id == 0,
    {
        let db = Database { rows: Vec::new(), last_id: 0 };
        db
    }

    /// Moves the rows out, leaving the store empty for the moment.
    fn take_rows(&mut self) -> (rows: Vec<Record>)
        ensures
            rows@ == old(self).rows@,
            final(self).rows@.len() == 0,
            final(self).last_id == old(self).last_id,
    {
        proof {
            use_type_invariant(&*self);
        }
        let mut rows: Vec<Record> = Vec::new();
        core::mem::swap(&mut self.rows, &mut rows);
        rows
    }

    /// The position of the row that holds this content, if any.
    fn find(&self, record_type: &String, value: &String) -> (found: Option<usize>)
        ensures
            match found {
                Some(i) => i < self.rows().len() && same_content(
                    self.rows()[i as int],
                    record_type@,
                    value@,
                ),
                None => !stores(self.rows(), record_type@, value@),
            },
    {
        let mut i: usize = 0;
        while i < self.rows.len()
            invariant
                i <= self.rows@.len(),
                forall|k: int| 0 <= k < i ==> !same_content(self.rows()[k], record_type@, value@),
            decreases self.rows@.len() - i,
        {
            if self.rows[i].record_type == *record_type && self.rows[i].value == *value {
                return Some(i);
            }
            i = i + 1;
        }
        None
    }

    /// Insert-or-refresh by content identity; see [`upsert_outcome`].
    pub fn upsert(&mut self, record: RecordInput, now: u64) -> (result: Result<i64, StoreError>)
        ensures
            final(self).wf(),
            (result, final(self)@) == upsert_outcome(old(self)@, record@, now),
    {
        proof {
            use_type_invariant(&*self);
        }
        match self.find(&record.record_type, &record.value) {
            Some(i) => {
                proof {
                    lemma_position_unique(self.rows(), self.last_id(), i as int);
                }
                let ghost before = self.rows();
                let mut rows = self.take_rows();
                let id = rows[i].id;
                rows[i].updated_at = now;
                assert(views(rows@) =~= before.update(i as int, touched(before[i as int], now)));
                self.rows = rows;
                Ok(id)
            },
            None => {
                if let Some(s) = record.size {
                    if s > i64::MAX as u64 {
                        return Err(StoreError::SizeOutOfRange);
                    }
                }
                if !is_known_type(&record.record_type) {
                    return Err(StoreError::InvalidRecordType);
                }
                if self.last_id == i64::MAX {
                    return Err(StoreError::Full);
                }
                let ghost before = self.rows();
                let id = self.last_id + 1;
                let size = match record.size {
                    Some(s) => Some(s as i64),
                    None => None,
                };
                let row = Record {
                    id,
                    record_type: record.record_type,
                    value: record.value,
                    thumbnail: record.thumbnail,
                    size,
                    img_size: record.img_size,
                    created_at: now,
                    updated_at: now,
                    favorite: false,
                };
                let mut rows = self.take_rows();
                rows.push(row);
                assert(views(rows@) =~= before.push(fresh_row(record@, id, now)));
                self.last_id = id;
                self.rows = rows;
                Ok(id)
            },
        }
    }
}

impl Database {
    /// The number of rows.
    pub fn len(&self) -> (n: usize)
        ensures
            n == self@.rows.len(),
    {
        self.rows.len()
    }

    /// The position of the row with this identifier, if any.
    fn find_id(&self, id: i64) -> (found: Option<usize>)
        ensures
            match found {
                Some(i) => i < self.rows().len() && self.rows()[i as int].id == id,
                None => !has_id(self.rows(), id),
            },
    {
        let mut i: usize = 0;
        while i < self.rows.len()
            invariant
                i <= self.rows@.len(),
                forall|k: int| 0 <= k < i ==> self.rows()[k].id != id,
            decreases self.rows@.len() - i,
        {
            if self.rows[i].id == id {
                return Some(i);
            }
            i = i + 1;
        }
        None
    }

    /// The identifier of the row that holds this content, if any.
    pub fn lookup(&self, record_type: &String, value: &String) -> (id: Option<i64>)
        ensures
            id == if stores(self@.rows, record_type@, value@) {
                Some(self@.rows[position(self@.rows, record_type@, value@)].id)
            } else {
                None
            },
    {
        proof {
            use_type_invariant(self);
        }
        match self.find(record_type, value) {
            Some(i) => {
                proof {
                    lemma_position_unique(self.rows(), self.last_id(), i as int);
                }
                Some(self.rows[i].id)
            },
            None => None,
        }
    }

    /// The full, unsuppressed value of row `id`; see [`value_outcome`].
    pub fn get_value(&self, id: i64) -> (result: Result<String, StoreError>)
        ensures
            match result {
                Ok(v) => value_outcome(self@.rows, id) == Ok::<Seq<char>, StoreError>(v@),
                Err(e) => value_outcome(self@.rows, id) == Err::<Seq<char>, StoreError>(e),
            },
    {
        proof {
            use_type_invariant(self);
        }
        match self.find_id(id) {
            Some(i) => {
                proof {
                    lemma_position_of_id_unique(self.rows(), self.last_id(), i as int);
                }
                Ok(self.rows[i].value.clone())
            },
            None => Err(StoreError::NotFound),
        }
    }

    /// A copy of row `id`, if there is one.
    pub fn row(&self, id: i64) -> (found: Option<Record>)
        ensures
            match found {
                Some(r) => has_id(self@.rows, id) && r@ == self@.rows[position_of_id(
                    self@.rows,
                    id,
                )],
                None => !has_id(self@.rows, id),
            },
    {
        proof {
            use_type_invariant(self);
        }
        match self.find_id(id) {
            Some(i) => {
                proof {
                    lemma_position_of_id_unique(self.rows(), self.last_id(), i as int);
                }
                Some(self.rows[i].duplicate())
            },
            None => None,
        }
    }

    /// Flips the favorite flag of row `id` and leaves every other field and
    /// row alone; see [`toggled_rows`].
    pub fn toggle_favorite(&mut self, id: i64)
        ensures
            final(self).wf(),
            final(self)@.rows == toggled_rows(old(self)@.rows, id),
            final(self)@.last_id == old(self)@.last_id,
    {
        proof {
            use_type_invariant(&*self);
        }
        match self.find_id(id) {
            Some(i) => {
                proof {
                    lemma_position_of_id_unique(self.rows(), self.last_id(), i as int);
                }
                let ghost before = self.rows();
                let mut rows = self.take_rows();
                let flag = rows[i].favorite;
                rows[i].favorite = !flag;
                assert(views(rows@) =~= before.update(i as int, flipped(before[i as int])));
                self.rows = rows;
            },
            None => {},
        }
    }

    /// Removes row `id`; tells whether there was one.  See [`rows_without`].
    pub fn delete(&mut self, id: i64) -> (removed: bool)
        ensures
            final(self).wf(),
            removed == has_id(old(self)@.rows, id),
            final(self)@.rows == rows_without(old(self)@.rows, id),
            final(self)@.last_id == old(self)@.last_id,
    {
        proof {
            use_type_invariant(&*self);
        }
        match self.find_id(id) {
            Some(i) => {
                proof {
                    lemma_position_of_id_unique(self.rows(), self.last_id(), i as int);
                }
                let ghost before = self.rows();
                let mut rows = self.take_rows();
                let _ = rows.remove(i);
                assert(views(rows@) =~= before.remove(i as int));
                self.rows = rows;
                true
            },
            None => false,
        }
    }

    /// The position of the row that comes first in listing order.
    fn latest_row(&self) -> (best: usize)
        requires
            self.rows().len() > 0,
        ensures
            best < self.rows().len(),
            best == latest_index(self.rows()),
    {
        let ghost all = self.rows();
        let mut best: usize = 0;
        let mut j: usize = 1;
        while j < self.rows.len()
            invariant
                1 <= j <= self.rows@.len(),
                best < j,
                all == self.rows(),
                all.len() == self.rows@.len(),
                best == latest_index(all.take(j as int)),
            decreases self.rows@.len() - j,
        {
            proof {
                assert(all.take(j + 1).drop_last() =~= all.take(j as int));
            }
            if self.rows[j].comes_before(&self.rows[best]) {
                best = j;
            }
            j = j + 1;
        }
        assert(all.take(j as int) =~= all);
        best
    }

    /// The time of the latest update; see [`latest_time`].
    pub fn latest_update(&self) -> (time: u64)
        ensures
            time == latest_time(self@.rows),
    {
        if self.rows.len() == 0 {
            return 0;
        }
        let best = self.latest_row();
        self.rows[best].updated_at
    }

    /// Deletes every row but the most recently updated one; see
    /// [`retained_rows`].
    pub fn retain_latest_only(&mut self)
        ensures
            final(self).wf(),
            final(self)@.rows == retained_rows(old(self)@.rows),
            final(self)@.last_id == old(self)@.last_id,
    {
        proof {
            use_type_invariant(&*self);
        }
        if self.rows.len() == 0 {
            return ;
        }
        let best = self.latest_row();
        let mut kept: Vec<Record> = Vec::new();
        kept.push(self.rows[best].duplicate());
        self.rows = kept;
    }
}

impl Database {
    /// The positions of the rows that pass every filter, in row order.
    fn admitted_positions(&self, filters: &Vec<Filter>) -> (picks: Vec<usize>)
        ensures
            forall|k: int| 0 <= k < picks@.len() ==> picks@[k] < self.rows().len(),
            picked(self.rows(), picks@) == self.rows().filter(admits(filter_views(filters@))),
    {
        let ghost pred = admits(filter_views(filters@));
        let mut picks: Vec<usize> = Vec::new();
        let mut i: usize = 0;
        proof {
            reveal(Seq::filter);
        }
        while i < self.rows.len()
            invariant
                i <= self.rows@.len(),
                self.rows().len() == self.rows@.len(),
                pred == admits(filter_views(filters@)),
                forall|k: int| 0 <= k < picks@.len() ==> picks@[k] < i,
                picked(self.rows(), picks@) == self.rows().take(i as int).filter(pred),
            decreases self.rows@.len() - i,
        {
            if accepts_every(filters, &self.rows[i]) {
                picks.push(i);
            }
            proof {
                let rows = self.rows();
                assert(rows.take(i + 1) =~= rows.take(i as int).push(rows[i as int]));
                rows.take(i as int).lemma_filter_push(rows[i as int], pred);
            }
            i = i + 1;
        }
        assert(self.rows().take(i as int) =~= self.rows());
        picks
    }

    /// Among the rows at `picks`, the place of the one that comes first in
    /// listing order.
    fn latest_position(&self, picks: &Vec<usize>) -> (place: usize)
        requires
            picks@.len() > 0,
            forall|k: int| 0 <= k < picks@.len() ==> picks@[k] < self.rows().len(),
        ensures
            place < picks@.len(),
            place == latest_index(picked(self.rows(), picks@)),
    {
        let ghost all = picked(self.rows(), picks@);
        let mut best: usize = 0;
        let mut j: usize = 1;
        while j < picks.len()
            invariant
                1 <= j <= picks@.len(),
                best < j,
                all == picked(self.rows(), picks@),
                forall|k: int| 0 <= k < picks@.len() ==> picks@[k] < self.rows().len(),
                self.rows().len() == self.rows@.len(),
                best == latest_index(all.take(j as int)),
            decreases picks@.len() - j,
        {
            proof {
                assert(all.take(j + 1).drop_last() =~= all.take(j as int));
            }
            if self.rows[picks[j]].comes_before(&self.rows[picks[best]]) {
                best = j;
            }
            j = j + 1;
        }
        assert(all.take(j as int) =~= all);
        best
    }

    /// The rows that pass every filter, newest first, at most `limit` of
    /// them, each as a listing shows it; see [`query_outcome`].
    pub fn query(&self, filters: &Vec<Filter>, limit: u32) -> (out: Vec<Record>)
        ensures
            views(out@) == query_outcome(self.rows(), filter_views(filters@), limit as nat),
    {
        let mut picks = self.admitted_positions(filters);
        let ghost wanted = latest_first(picked(self.rows(), picks@), limit as nat);
        let mut out: Vec<Record> = Vec::new();
        let mut taken: u32 = 0;
        while taken < limit && picks.len() > 0
            invariant
                taken <= limit,
                self.rows().len() == self.rows@.len(),
                forall|k: int| 0 <= k < picks@.len() ==> picks@[k] < self.rows().len(),
                views(out@) + latest_first(
                    picked(self.rows(), picks@),
                    (limit - taken) as nat,
                ).map_values(|r: RecordView| listed(r)) == wanted.map_values(
                    |r: RecordView| listed(r),
                ),
            decreases limit - taken,
        {
            let ghost rest = picked(self.rows(), picks@);
            let place = self.latest_position(&picks);
            let at = picks.remove(place);
            out.push(self.rows[at].listing());
            taken = taken + 1;
            // The row just listed is the head of what was left to list.
            assert(picked(self.rows(), picks@) =~= rest.remove(place as int));
        }
        out
    }
}

/// Whether row `j` has another identifier than every earlier row.
fn check_distinct_from_earlier(rows: &Vec<Record>, j: usize) -> (ok: bool)
    requires
        j < rows@.len(),
    ensures
        ok == distinct_from_earlier(views(rows@), j as int),
{
    let mut i: usize = 0;
    while i < j
        invariant
            i <= j < rows@.len(),
            forall|k: int|
                0 <= k < i ==> (#[trigger] views(rows@)[k]).id != views(rows@)[j as int].id,
        decreases j - i,
    {
        if rows[i].id == rows[j].id {
            assert(views(rows@)[i as int].id == views(rows@)[j as int].id);
            return false;
        }
        i = i + 1;
    }
    true
}

/// Whether `rows` with `last_id` can be loaded; see [`loadable`].
pub fn rows_loadable(rows: &Vec<Record>, last_id: i64) -> (ok: bool)
    ensures
        ok == loadable(views(rows@), last_id),
{
    if last_id < 0 {
        return false;
    }
    let ghost all = views(rows@);
    let mut j: usize = 0;
    while j < rows.len()
        invariant
            0 <= last_id,
            j <= rows@.len(),
            all == views(rows@),
            forall|k: int| 0 <= k < j ==> 1 <= (#[trigger] all[k]).id <= last_id,
            forall|k: int| 0 <= k < j ==> is_record_type((#[trigger] all[k]).record_type),
            forall|k: int| 0 <= k < j ==> distinct_from_earlier(all, k),
        decreases rows@.len() - j,
    {
        let id = rows[j].id;
        if id < 1 || id > last_id {
            return false;
        }
        if !is_known_type(&rows[j].record_type) {
            return false;
        }
        if !check_distinct_from_earlier(rows, j) {
            proof {
                // Some earlier row has the identifier of row `j`.
                let i = choose|i: int| 0 <= i < j && (#[trigger] all[i]).id == all[j as int].id;
            }
            return false;
        }
        j = j + 1;
    }
    assert forall|a: int, b: int| 0 <= a < b < all.len() implies (#[trigger] all[a]).id != (
    #[trigger] all[b]).id by {
        assert(distinct_from_earlier(all, b));
    }
    true
}

/// Whether row `i` is an older duplicate; see [`superseded`].
fn is_superseded(rows: &Vec<Record>, i: usize) -> (older: bool)
    requires
        i < rows@.len(),
    ensures
        older == superseded(views(rows@), views(rows@)[i as int]),
{
    let ghost all = views(rows@);
    let mut j: usize = 0;
    while j < rows.len()
        invariant
            j <= rows@.len(),
            i < rows@.len(),
            all == views(rows@),
            forall|k: int|
                0 <= k < j ==> !(same_content(
                    #[trigger] all[k],
                    all[i as int].record_type,
                    all[i as int].value,
                ) && precedes(all[k], all[i as int])),
        decreases rows@.len() - j,
    {
        if rows[j].record_type == rows[i].record_type && rows[j].value == rows[i].value
            && rows[j].comes_before(&rows[i]) {
            assert(same_content(all[j as int], all[i as int].record_type, all[i as int].value));
            return true;
        }
        j = j + 1;
    }
    false
}

impl Database {
    /// A store over rows that were persisted earlier.
    ///
    /// Where several rows hold the same content, the most recently updated
    /// one is kept and the others are left out; see [`newest_of_each`].  Rows
    /// that cannot be loaded (see [`loadable`]) are refused as a whole.
    pub fn from_rows(rows: Vec<Record>, last_id: i64) -> (result: Result<Database, StoreError>)
        ensures
            result is Ok <==> loadable(views(rows@), last_id),
            match result {
                Ok(db) => db.wf() && db@ == (StoreState {
                    rows: newest_of_each(views(rows@)),
                    last_id,
                }),
                Err(e) => e == StoreError::Inconsistent,
            },
    {
        if !rows_loadable(&rows, last_id) {
            return Err(StoreError::Inconsistent);
        }
        let ghost all = views(rows@);
        let ghost pred = current(all);
        let mut kept: Vec<Record> = Vec::new();
        let mut i: usize = 0;
        proof {
            reveal(Seq::filter);
        }
        while i < rows.len()
            invariant
                i <= rows@.len(),
                all == views(rows@),
                pred == current(all),
                views(kept@) == all.take(i as int).filter(pred),
            decreases rows@.len() - i,
        {
            let older = is_superseded(&rows, i);
            proof {
                assert(all.take(i + 1) =~= all.take(i as int).push(all[i as int]));
                all.take(i as int).lemma_filter_push(all[i as int], pred);
            }
            if !older {
                let ghost before = views(kept@);
                kept.push(rows[i].duplicate());
                assert(views(kept@) =~= before.push(all[i as int]));
            }
            i = i + 1;
        }
        proof {
            assert(all.take(i as int) =~= all);
            lemma_newest_of_each(all, last_id);
        }
        Ok(Database { rows: kept, last_id })
    }

    /// Copies of all rows, in insertion order.
    pub fn records(&self) -> (all: Vec<Record>)
        ensures
            views(all@) == self@.rows,
    {
        let mut all: Vec<Record> = Vec::new();
        let mut i: usize = 0;
        while i < self.rows.len()
            invariant
                i <= self.rows@.len(),
                views(all@) == self.rows().take(i as int),
            decreases self.rows@.len() - i,
        {
            let ghost before = views(all@);
            all.push(self.rows[i].duplicate());
            i = i + 1;
            assert(self.rows().take(i as int) =~= before.push(self.rows()[i - 1]));
        }
        all
    }

    /// The largest identifier handed out so far.
    pub fn latest_id(&self) -> (id: i64)
        ensures
            id == self@.last_id,
    {
        self.last_id
    }
}

impl Database {
    /// The process keeps its store in a slot that is empty until [`init`]
    /// has run.  This is the store in `slot`, or the error that every
    /// operation reports while the slot is still empty.
    pub fn get(slot: &Option<Database>) -> (result: Result<&Database, StoreError>)
        ensures
            match *slot {
                Some(db) => result matches Ok(found) && *found == db,
                None => result matches Err(e) && e == StoreError::NotInitialized,
            },
    {
        match slot {
            Some(db) => Ok(db),
            None => Err(StoreError::NotInitialized),
        }
    }
}

} // verus!
