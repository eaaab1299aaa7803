//! The mathematical model of the history store: rows as a sequence, and the
//! meaning of every operation as a function on it.
use crate::db::{Filter, Record, StoreError};
use crate::text::contains_text;
use vstd::prelude::*;

verus! {

/// The mathematical content of a [`Record`].
pub struct RecordView {
    pub id: i64,
    pub record_type: Seq<char>,
    pub value: Seq<char>,
    pub thumbnail: Option<Seq<char>>,
    pub size: Option<i64>,
    pub img_size: Option<Seq<char>>,
    pub created_at: u64,
    pub updated_at: u64,
    pub favorite: bool,
}

/// The content of an optional string.
pub open spec fn opt_text(text: Option<String>) -> Option<Seq<char>> {
    match text {
        Some(s) => Some(s@),
        None => None,
    }
}

/// The content of a list of records.
pub open spec fn views(records: Seq<Record>) -> Seq<RecordView> {
    records.map_values(|r: Record| r@)
}

/// The mathematical content of a [`crate::db::RecordInput`].
pub struct RecordInputView {
    pub record_type: Seq<char>,
    pub value: Seq<char>,
    pub thumbnail: Option<Seq<char>>,
    pub size: Option<u64>,
    pub img_size: Option<Seq<char>>,
}

/// The state of a store: its rows in insertion order and the largest
/// identifier handed out so far.
pub struct StoreState {
    pub rows: Seq<RecordView>,
    pub last_id: i64,
}

/// The three record types, as text.
pub open spec fn is_record_type(t: Seq<char>) -> bool {
    t == "text"@ || t == "image"@ || t == "file"@
}

/// Content identity: same type and same value.
pub open spec fn same_content(r: RecordView, record_type: Seq<char>, value: Seq<char>) -> bool {
    r.record_type == record_type && r.value == value
}

/// Some row holds this content.
pub open spec fn stores(rows: Seq<RecordView>, record_type: Seq<char>, value: Seq<char>) -> bool {
    exists|i: int| 0 <= i < rows.len() && same_content(#[trigger] rows[i], record_type, value)
}

/// The position of a row that holds this content (meaningful when one does).
pub open spec fn position(rows: Seq<RecordView>, record_type: Seq<char>, value: Seq<char>) -> int {
    choose|i: int| 0 <= i < rows.len() && same_content(#[trigger] rows[i], record_type, value)
}

/// Some row has this identifier.
pub open spec fn has_id(rows: Seq<RecordView>, id: i64) -> bool {
    exists|i: int| 0 <= i < rows.len() && (#[trigger] rows[i]).id == id
}

/// The position of the row with this identifier (meaningful when there is one).
pub open spec fn position_of_id(rows: Seq<RecordView>, id: i64) -> int {
    choose|i: int| 0 <= i < rows.len() && (#[trigger] rows[i]).id == id
}

/// The store's invariant over its rows and the largest identifier handed out
/// so far: identifiers are positive, distinct and never above `last_id`;
/// no two rows hold the same content; every type is one of the three.
pub open spec fn rows_wf(rows: Seq<RecordView>, last_id: i64) -> bool {
    &&& 0 <= last_id
    &&& forall|i: int| 0 <= i < rows.len() ==> 1 <= (#[trigger] rows[i]).id <= last_id
    &&& forall|i: int| 0 <= i < rows.len() ==> is_record_type((#[trigger] rows[i]).record_type)
    &&& forall|i: int, j: int|
        0 <= i < j < rows.len() ==> (#[trigger] rows[i]).id != (#[trigger] rows[j]).id
    &&& forall|i: int, j: int|
        0 <= i < j < rows.len() ==> !same_content(
            #[trigger] rows[i],
            (#[trigger] rows[j]).record_type,
            rows[j].value,
        )
}

/// In a well-formed store the row that holds a given content is unique, so
/// [`position`] names it.
pub proof fn lemma_position_unique(rows: Seq<RecordView>, last_id: i64, i: int)
    requires
        rows_wf(rows, last_id),
        0 <= i < rows.len(),
    ensures
        stores(rows, rows[i].record_type, rows[i].value),
        position(rows, rows[i].record_type, rows[i].value) == i,
{
    let j = position(rows, rows[i].record_type, rows[i].value);
    assert(same_content(rows[j], rows[i].record_type, rows[i].value));
}

/// In a well-formed store the row with a given identifier is unique, so
/// [`position_of_id`] names it.
pub proof fn lemma_position_of_id_unique(rows: Seq<RecordView>, last_id: i64, i: int)
    requires
        rows_wf(rows, last_id),
        0 <= i < rows.len(),
    ensures
        has_id(rows, rows[i].id),
        position_of_id(rows, rows[i].id) == i,
{
    let j = position_of_id(rows, rows[i].id);
    assert(rows[j].id == rows[i].id);
}

/// Row `j` has another identifier than every earlier row.
pub open spec fn distinct_from_earlier(rows: Seq<RecordView>, j: int) -> bool {
    forall|i: int| 0 <= i < j ==> (#[trigger] rows[i]).id != rows[j].id
}

/// What rows must satisfy to be loaded: identifiers are positive, distinct
/// and never above `last_id`, and every type is one of the three.  (Rows
/// that hold the same content are no obstacle; see [`newest_of_each`].)
pub open spec fn loadable(rows: Seq<RecordView>, last_id: i64) -> bool {
    &&& 0 <= last_id
    &&& forall|i: int| 0 <= i < rows.len() ==> 1 <= (#[trigger] rows[i]).id <= last_id
    &&& forall|i: int| 0 <= i < rows.len() ==> is_record_type((#[trigger] rows[i]).record_type)
    &&& forall|i: int, j: int|
        0 <= i < j < rows.len() ==> (#[trigger] rows[i]).id != (#[trigger] rows[j]).id
}

/// Whether `r` is an older duplicate: some row holds the same content and
/// comes before it in listing order.
pub open spec fn superseded(rows: Seq<RecordView>, r: RecordView) -> bool {
    exists|j: int|
        0 <= j < rows.len() && same_content(#[trigger] rows[j], r.record_type, r.value)
            && precedes(rows[j], r)
}

/// Being no older duplicate among `rows`, as a predicate.
pub open spec fn current(rows: Seq<RecordView>) -> spec_fn(RecordView) -> bool {
    |r: RecordView| !superseded(rows, r)
}

/// The rows without their older duplicates, in the order they were in: of
/// the rows that hold the same content only the one that comes first in
/// listing order, the most recently updated one, stays.
pub open spec fn newest_of_each(rows: Seq<RecordView>) -> Seq<RecordView> {
    rows.filter(current(rows))
}

/// A row after a repeat occurrence of its content at time `now`.
pub open spec fn touched(r: RecordView, now: u64) -> RecordView {
    RecordView { updated_at: now, ..r }
}

/// The row created for `input` under identifier `id` at time `now`.
pub open spec fn fresh_row(input: RecordInputView, id: i64, now: u64) -> RecordView {
    RecordView {
        id,
        record_type: input.record_type,
        value: input.value,
        thumbnail: input.thumbnail,
        size: match input.size {
            Some(s) => Some(s as i64),
            None => None,
        },
        img_size: input.img_size,
        created_at: now,
        updated_at: now,
        favorite: false,
    }
}

/// Why `input` cannot be inserted as a new row, if it cannot.
pub open spec fn insert_error(input: RecordInputView, last_id: i64) -> Option<StoreError> {
    if input.size matches Some(s) && s > i64::MAX {
        Some(StoreError::SizeOutOfRange)
    } else if !is_record_type(input.record_type) {
        Some(StoreError::InvalidRecordType)
    } else if last_id >= i64::MAX {
        Some(StoreError::Full)
    } else {
        None
    }
}

/// Insert-or-refresh by content identity.  A row that already holds the
/// content gets `updated_at = now` and its identifier is returned; otherwise
/// a new row is appended under the next identifier.
pub open spec fn upsert_outcome(s: StoreState, input: RecordInputView, now: u64) -> (
    Result<i64, StoreError>,
    StoreState,
) {
    if stores(s.rows, input.record_type, input.value) {
        let i = position(s.rows, input.record_type, input.value);
        (Ok(s.rows[i].id), StoreState { rows: s.rows.update(i, touched(s.rows[i], now)), ..s })
    } else {
        match insert_error(input, s.last_id) {
            Some(e) => (Err(e), s),
            None => {
                let id = (s.last_id + 1) as i64;
                (Ok(id), StoreState { rows: s.rows.push(fresh_row(input, id, now)), last_id: id })
            },
        }
    }
}

/// A row with its favorite flag flipped.
pub open spec fn flipped(r: RecordView) -> RecordView {
    RecordView { favorite: !r.favorite, ..r }
}

/// The rows after flipping the favorite flag of row `id`; unchanged when no
/// row has that identifier.
pub open spec fn toggled_rows(rows: Seq<RecordView>, id: i64) -> Seq<RecordView> {
    if has_id(rows, id) {
        let i = position_of_id(rows, id);
        rows.update(i, flipped(rows[i]))
    } else {
        rows
    }
}

/// The rows after deleting row `id`; unchanged when no row has that
/// identifier.
pub open spec fn rows_without(rows: Seq<RecordView>, id: i64) -> Seq<RecordView> {
    if has_id(rows, id) {
        rows.remove(position_of_id(rows, id))
    } else {
        rows
    }
}

/// The rows after a retention wipe: only the row that comes first in listing
/// order stays.
pub open spec fn retained_rows(rows: Seq<RecordView>) -> Seq<RecordView> {
    if rows.len() == 0 {
        rows
    } else {
        seq![rows[latest_index(rows)]]
    }
}

/// The time of the latest update in the store (0 for a store without rows).
pub open spec fn latest_time(rows: Seq<RecordView>) -> u64 {
    if rows.len() == 0 {
        0
    } else {
        rows[latest_index(rows)].updated_at
    }
}

/// The time to record for a change that the clock puts at `wall`, in a store
/// whose latest update was at `latest`: the clock's time where it is later,
/// else the next moment after `latest` (`latest` itself only where there is
/// no later moment).
pub open spec fn later_than(latest: u64, wall: u64) -> u64 {
    if wall > latest {
        wall
    } else if latest < u64::MAX {
        (latest + 1) as u64
    } else {
        latest
    }
}

/// The full value of row `id`.
pub open spec fn value_outcome(rows: Seq<RecordView>, id: i64) -> Result<Seq<char>, StoreError> {
    if has_id(rows, id) {
        Ok(rows[position_of_id(rows, id)].value)
    } else {
        Err(StoreError::NotFound)
    }
}

/// The mathematical content of [`crate::db::QueryParams`].
pub struct QueryParamsView {
    pub last_updated_at: Option<u64>,
    pub limit: u32,
    pub keyword: Option<Seq<char>>,
    pub record_type: Option<Seq<char>>,
    pub favorite: Option<bool>,
}

/// The mathematical content of a [`Filter`].
pub enum FilterView {
    Keyword(Seq<char>),
    Type(Seq<char>),
    Favorite,
    Cursor(u64),
}

/// The content of a list of filters.
pub open spec fn filter_views(filters: Seq<Filter>) -> Seq<FilterView> {
    filters.map_values(|f: Filter| f@)
}

/// Whether one filter lets a row through.
pub open spec fn accepts(f: FilterView, r: RecordView) -> bool {
    match f {
        FilterView::Keyword(k) => (r.record_type == "text"@ || r.record_type == "file"@)
            && contains_text(r.value, k),
        FilterView::Type(t) => r.record_type == t,
        FilterView::Favorite => r.favorite,
        FilterView::Cursor(t) => r.updated_at < t,
    }
}

/// Whether every filter lets a row through.
pub open spec fn accepts_all(filters: Seq<FilterView>, r: RecordView) -> bool {
    forall|k: int| 0 <= k < filters.len() ==> accepts(#[trigger] filters[k], r)
}

/// The conjunction of `filters` as a predicate.
pub open spec fn admits(filters: Seq<FilterView>) -> spec_fn(RecordView) -> bool {
    |r: RecordView| accepts_all(filters, r)
}

/// The filters that a query's parameters stand for: a non-empty keyword, a
/// record type other than `all`, a cursor, and `favorite == true`.
pub open spec fn filters_of(q: QueryParamsView) -> Seq<FilterView> {
    let keyword = match q.keyword {
        Some(k) if k.len() > 0 => seq![FilterView::Keyword(k)],
        _ => Seq::empty(),
    };
    let record_type = match q.record_type {
        Some(t) if t != "all"@ => seq![FilterView::Type(t)],
        _ => Seq::empty(),
    };
    let cursor = match q.last_updated_at {
        Some(t) => seq![FilterView::Cursor(t)],
        None => Seq::empty(),
    };
    let favorite = match q.favorite {
        Some(true) => seq![FilterView::Favorite],
        _ => Seq::empty(),
    };
    keyword + record_type + cursor + favorite
}

/// Listing order: `a` comes before `b` when it was updated later, the larger
/// identifier first among rows updated at the same time.
pub open spec fn precedes(a: RecordView, b: RecordView) -> bool {
    a.updated_at > b.updated_at || (a.updated_at == b.updated_at && a.id > b.id)
}

/// The position of the row that comes first in listing order (0 for an
/// empty sequence).
pub open spec fn latest_index(rows: Seq<RecordView>) -> int
    decreases rows.len(),
{
    if rows.len() <= 1 {
        0
    } else {
        let best = latest_index(rows.drop_last());
        if precedes(rows.last(), rows[best]) {
            rows.len() - 1
        } else {
            best
        }
    }
}

/// The first `n` rows in listing order: the latest row, then the latest of
/// the rest, and so on.
pub open spec fn latest_first(rows: Seq<RecordView>, n: nat) -> Seq<RecordView>
    decreases n,
{
    if n == 0 || rows.len() == 0 {
        Seq::empty()
    } else {
        let i = latest_index(rows);
        seq![rows[i]] + latest_first(rows.remove(i), (n - 1) as nat)
    }
}

/// A row as a listing shows it: the value of an image row is left out, since
/// the thumbnail stands for it.
pub open spec fn listed(r: RecordView) -> RecordView {
    if r.record_type == "image"@ {
        RecordView { value: Seq::empty(), ..r }
    } else {
        r
    }
}

/// What a query returns: the rows that pass every filter, newest first, at
/// most `limit` of them, each as a listing shows it.
pub open spec fn query_outcome(rows: Seq<RecordView>, filters: Seq<FilterView>, limit: nat) -> Seq<
    RecordView,
> {
    latest_first(rows.filter(admits(filters)), limit).map_values(|r: RecordView| listed(r))
}

/// The rows at the given positions, in the order of the positions.
pub open spec fn picked(rows: Seq<RecordView>, picks: Seq<usize>) -> Seq<RecordView> {
    Seq::new(picks.len(), |k: int| rows[picks[k] as int])
}

/// What a filter keeps: every row that is kept is one of the rows and
/// satisfies the predicate, and rows with distinct identifiers stay so.
pub proof fn lemma_filter_keeps(rows: Seq<RecordView>, pred: spec_fn(RecordView) -> bool)
    requires
        forall|i: int, j: int|
            0 <= i < j < rows.len() ==> (#[trigger] rows[i]).id != (#[trigger] rows[j]).id,
    ensures
        forall|k: int|
            0 <= k < rows.filter(pred).len() ==> rows.contains(#[trigger] rows.filter(pred)[k])
                && pred(rows.filter(pred)[k]),
        forall|a: int, b: int|
            0 <= a < b < rows.filter(pred).len() ==> (#[trigger] rows.filter(pred)[a]).id != (
            #[trigger] rows.filter(pred)[b]).id,
    decreases rows.len(),
{
    reveal(Seq::filter);
    if rows.len() > 0 {
        let front = rows.drop_last();
        let kept = front.filter(pred);
        lemma_filter_keeps(front, pred);
        assert forall|k: int| 0 <= k < kept.len() implies rows.contains(#[trigger] kept[k])
            && kept[k].id != rows.last().id by {
            let i = choose|i: int| 0 <= i < front.len() && front[i] == kept[k];
            assert(rows[i] == kept[k]);
        }
        assert(rows.contains(rows.last())) by {
            assert(rows[rows.len() - 1] == rows.last());
        }
    }
}

/// Leaving out the older duplicates of rows that can be loaded gives a
/// well-formed store, and leaves a well-formed store as it is.
pub proof fn lemma_newest_of_each(rows: Seq<RecordView>, last_id: i64)
    requires
        loadable(rows, last_id),
    ensures
        rows_wf(newest_of_each(rows), last_id),
        rows_wf(rows, last_id) ==> newest_of_each(rows) == rows,
{
    let kept = newest_of_each(rows);
    lemma_filter_keeps(rows, current(rows));
    assert forall|a: int, b: int| 0 <= a < b < kept.len() implies !same_content(
        #[trigger] kept[a],
        (#[trigger] kept[b]).record_type,
        kept[b].value,
    ) by {
        // Of two rows with the same content one comes before the other,
        // which makes the other an older duplicate.
        let i = choose|i: int| 0 <= i < rows.len() && rows[i] == kept[a];
        let j = choose|j: int| 0 <= j < rows.len() && rows[j] == kept[b];
        assert(!superseded(rows, kept[a]) && !superseded(rows, kept[b]));
        if same_content(kept[a], kept[b].record_type, kept[b].value) {
            assert(kept[a].id != kept[b].id);
            assert(precedes(rows[i], rows[j]) || precedes(rows[j], rows[i]));
            assert(same_content(rows[j], rows[i].record_type, rows[i].value));
        }
    }
    assert forall|k: int| 0 <= k < kept.len() implies 1 <= (#[trigger] kept[k]).id <= last_id
        && is_record_type(kept[k].record_type) by {
        let i = choose|i: int| 0 <= i < rows.len() && rows[i] == kept[k];
    }
    if rows_wf(rows, last_id) {
        assert forall|i: int| 0 <= i < rows.len() implies current(rows)(#[trigger] rows[i]) by {
            if superseded(rows, rows[i]) {
                let j = choose|j: int|
                    0 <= j < rows.len() && same_content(
                        #[trigger] rows[j],
                        rows[i].record_type,
                        rows[i].value,
                    ) && precedes(rows[j], rows[i]);
                assert(j != i);
                if j < i {
                    assert(!same_content(rows[j], rows[i].record_type, rows[i].value));
                } else {
                    assert(!same_content(rows[i], rows[j].record_type, rows[j].value));
                }
            }
        }
        lemma_filter_all(rows, current(rows));
    }
}

/// A filter that every row passes leaves the rows as they are.
pub proof fn lemma_filter_all(rows: Seq<RecordView>, pred: spec_fn(RecordView) -> bool)
    requires
        forall|i: int| 0 <= i < rows.len() ==> pred(#[trigger] rows[i]),
    ensures
        rows.filter(pred) == rows,
    decreases rows.len(),
{
    reveal(Seq::filter);
    if rows.len() > 0 {
        let front = rows.drop_last();
        assert forall|i: int| 0 <= i < front.len() implies pred(#[trigger] front[i]) by {
            assert(front[i] == rows[i]);
        }
        lemma_filter_all(front, pred);
        assert(rows =~= front.push(rows.last()));
    }
}

} // verus!
