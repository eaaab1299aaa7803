//! What holds of the history store across calls: listing order, what a
//! query can return, idempotence of repeated submissions, and retention.
use crate::db::model::{
    accepts, accepts_all, admits, current, filters_of, flipped, fresh_row, has_id, is_record_type,
    later_than, latest_first, latest_index, latest_time, lemma_newest_of_each,
    lemma_position_of_id_unique, lemma_position_unique, listed, loadable, newest_of_each, position,
    position_of_id, precedes, query_outcome, retained_rows, rows_wf, same_content, stores,
    superseded, toggled_rows, touched, upsert_outcome, value_outcome, FilterView, QueryParamsView,
    RecordInputView, RecordView, StoreState,
};
use crate::db::StoreError;
use crate::text::contains_text;
use vstd::prelude::*;

verus! {

/// Rows are in listing order: no later row comes before an earlier one.
pub open spec fn newest_first(rows: Seq<RecordView>) -> bool {
    forall|a: int, b: int|
        0 <= a < b < rows.len() ==> !precedes(#[trigger] rows[b], #[trigger] rows[a])
}

/// The row at `latest_index` is not preceded by any other row: none was
/// updated later.
pub proof fn lemma_latest_index_is_latest(rows: Seq<RecordView>)
    requires
        rows.len() > 0,
    ensures
        0 <= latest_index(rows) < rows.len(),
        forall|i: int|
            0 <= i < rows.len() ==> !precedes(#[trigger] rows[i], rows[latest_index(rows)]),
        forall|i: int|
            0 <= i < rows.len() ==> (#[trigger] rows[i]).updated_at <= rows[latest_index(
                rows,
            )].updated_at,
    decreases rows.len(),
{
    if rows.len() > 1 {
        let front = rows.drop_last();
        lemma_latest_index_is_latest(front);
        let best = latest_index(front);
        assert forall|i: int| 0 <= i < rows.len() implies !precedes(
            #[trigger] rows[i],
            rows[latest_index(rows)],
        ) by {
            if i < rows.len() - 1 {
                assert(!precedes(front[i], front[best]));
            }
        }
    }
}

/// Listing order over a sequence: the result of [`latest_first`] has
/// `min(n, len)` rows, each of them one of `rows` and none taken twice,
/// newest first; and a row that was left out comes before none of those
/// listed.
pub proof fn lemma_latest_first(rows: Seq<RecordView>, n: nat)
    ensures
        latest_first(rows, n).len() == if n <= rows.len() {
            n
        } else {
            rows.len()
        },
        forall|k: int|
            0 <= k < latest_first(rows, n).len() ==> rows.contains(
                #[trigger] latest_first(rows, n)[k],
            ),
        newest_first(latest_first(rows, n)),
        latest_first(rows, n).to_multiset().subset_of(rows.to_multiset()),
        forall|j: int, k: int|
            0 <= j < rows.len() && 0 <= k < latest_first(rows, n).len() && !latest_first(
                rows,
                n,
            ).contains(#[trigger] rows[j]) ==> !precedes(
                rows[j],
                #[trigger] latest_first(rows, n)[k],
            ),
    decreases n,
{
    broadcast use vstd::seq_lib::group_to_multiset_ensures;

    let out = latest_first(rows, n);
    if n > 0 && rows.len() > 0 {
        let i = latest_index(rows);
        lemma_latest_index_is_latest(rows);
        let rest = rows.remove(i);
        let tail = latest_first(rest, (n - 1) as nat);
        lemma_latest_first(rest, (n - 1) as nat);
        // `out` is `rows[i]` followed by `tail`, and `tail` draws on `rest`,
        // which is `rows` without `rows[i]`.
        assert forall|k: int| 0 <= k < rest.len() implies rows.contains(#[trigger] rest[k]) by {}
        assert forall|k: int| 0 <= k < out.len() implies rows.contains(#[trigger] out[k]) by {
            if k > 0 {
                let j = choose|j: int| 0 <= j < rest.len() && rest[j] == tail[k - 1];
            }
        }
        assert forall|a: int, b: int| 0 <= a < b < out.len() implies !precedes(
            #[trigger] out[b],
            #[trigger] out[a],
        ) by {
            if a == 0 {
                let j = choose|j: int| 0 <= j < rows.len() && rows[j] == out[b];
            }
        }
        assert forall|j: int, k: int|
            0 <= j < rows.len() && 0 <= k < out.len() && !out.contains(
                #[trigger] rows[j],
            ) implies !precedes(rows[j], #[trigger] out[k]) by {
            assert(out[0] == rows[i]);
            let at = if j < i {
                j
            } else {
                j - 1
            };
            if k > 0 && tail.contains(rest[at]) {
                let m = choose|m: int| 0 <= m < tail.len() && tail[m] == rest[at];
                assert(out[m + 1] == rows[j]);
            }
        }
        vstd::seq_lib::to_multiset_insert(rest, i, rows[i]);
        assert(out =~= tail.insert(0, rows[i]));
        vstd::seq_lib::to_multiset_insert(tail, 0, rows[i]);
    }
}

/// Retention: a wipe of a non-empty store leaves exactly one row, one of the
/// rows that were there, and no row was updated later than it.
pub proof fn law_retention_keeps_latest(rows: Seq<RecordView>)
    requires
        rows.len() > 0,
    ensures
        retained_rows(rows).len() == 1,
        rows.contains(retained_rows(rows)[0]),
        forall|i: int|
            0 <= i < rows.len() ==> (#[trigger] rows[i]).updated_at <= retained_rows(
                rows,
            )[0].updated_at,
{
    lemma_latest_index_is_latest(rows);
}

/// Retention keeps the store's invariant.
pub proof fn law_retention_keeps_invariant(rows: Seq<RecordView>, last_id: i64)
    requires
        rows_wf(rows, last_id),
    ensures
        rows_wf(retained_rows(rows), last_id),
{
    if rows.len() > 0 {
        lemma_latest_index_is_latest(rows);
    }
}

/// `shown` is some stored row that passes every filter, as a listing shows
/// it.
pub open spec fn shows_admitted_row(
    rows: Seq<RecordView>,
    filters: Seq<FilterView>,
    shown: RecordView,
) -> bool {
    exists|j: int|
        0 <= j < rows.len() && accepts_all(filters, #[trigger] rows[j]) && shown == listed(
            rows[j],
        )
}

/// What a query returns: at most `limit` rows, newest first, each of them a
/// stored row that passes every filter, shown as a listing shows it; and as
/// many of those as the limit allows.
pub proof fn law_query_returns_admitted_rows(
    rows: Seq<RecordView>,
    filters: Seq<FilterView>,
    limit: nat,
)
    ensures
        query_outcome(rows, filters, limit).len() <= limit,
        query_outcome(rows, filters, limit).len() == if limit <= rows.filter(
            admits(filters),
        ).len() {
            limit
        } else {
            rows.filter(admits(filters)).len()
        },
        newest_first(query_outcome(rows, filters, limit)),
        forall|a: int, b: int|
            0 <= a < b < query_outcome(rows, filters, limit).len() ==> (#[trigger] query_outcome(
                rows,
                filters,
                limit,
            )[a]).updated_at >= (#[trigger] query_outcome(rows, filters, limit)[b]).updated_at,
        forall|k: int|
            0 <= k < query_outcome(rows, filters, limit).len() ==> shows_admitted_row(
                rows,
                filters,
                #[trigger] query_outcome(rows, filters, limit)[k],
            ),
{
    let hits = rows.filter(admits(filters));
    let picked = latest_first(hits, limit);
    let out = query_outcome(rows, filters, limit);
    lemma_latest_first(hits, limit);
    assert forall|a: int, b: int| 0 <= a < b < out.len() implies !precedes(
        #[trigger] out[b],
        #[trigger] out[a],
    ) && out[a].updated_at >= out[b].updated_at by {}
    assert forall|k: int| 0 <= k < out.len() implies shows_admitted_row(
        rows,
        filters,
        #[trigger] out[k],
    ) by {
        // `out[k]` shows `picked[k]`, which is one of `hits`, which is one of
        // `rows` and passes the filters.
        let h = choose|h: int| 0 <= h < hits.len() && hits[h] == picked[k];
        rows.lemma_filter_pred(admits(filters), h);
        rows.lemma_filter_contains_rev(admits(filters), hits[h]);
        let j = choose|j: int| 0 <= j < rows.len() && rows[j] == hits[h];
    }
}

/// Filter composition: a query with a non-empty keyword and a record type
/// other than `all` returns only rows of that type whose value contains the
/// keyword; such a row is a text or file row, and its value is shown in full.
pub proof fn law_keyword_and_type_compose(
    rows: Seq<RecordView>,
    q: QueryParamsView,
    keyword: Seq<char>,
    record_type: Seq<char>,
    k: int,
)
    requires
        q.keyword == Some(keyword),
        keyword.len() > 0,
        q.record_type == Some(record_type),
        record_type != "all"@,
        0 <= k < query_outcome(rows, filters_of(q), q.limit as nat).len(),
    ensures
        ({
            let shown = query_outcome(rows, filters_of(q), q.limit as nat)[k];
            &&& shown.record_type == record_type
            &&& (record_type == "text"@ || record_type == "file"@)
            &&& contains_text(shown.value, keyword)
        }),
{
    let filters = filters_of(q);
    law_query_returns_admitted_rows(rows, filters, q.limit as nat);
    let shown = query_outcome(rows, filters, q.limit as nat)[k];
    let j = choose|j: int|
        0 <= j < rows.len() && accepts_all(filters, #[trigger] rows[j]) && shown == listed(
            rows[j],
        );
    assert(accepts(filters[0], rows[j]));
    assert(accepts(filters[1], rows[j]));
    lemma_record_types_differ();
}

/// The three record types and the wildcard `all` are four different texts.
pub proof fn lemma_record_types_differ()
    ensures
        "text"@ != "image"@,
        "text"@ != "file"@,
        "image"@ != "file"@,
        "all"@ != "text"@,
        "all"@ != "image"@,
        "all"@ != "file"@,
        "image"@.len() > 0,
{
    reveal_strlit("text");
    reveal_strlit("image");
    reveal_strlit("file");
    reveal_strlit("all");
    assert("all"@.len() == 3);
    assert("text"@[0] == 't');
    assert("file"@[0] == 'f');
}

/// Query suppression: a listed image row carries no value, every other
/// listed row carries its stored value, and the full value of any listed row
/// is what `get_record_value` gives for its identifier.
pub proof fn law_listing_suppresses_image_values(
    rows: Seq<RecordView>,
    last_id: i64,
    filters: Seq<FilterView>,
    limit: nat,
    k: int,
)
    requires
        rows_wf(rows, last_id),
        0 <= k < query_outcome(rows, filters, limit).len(),
    ensures
        ({
            let shown = query_outcome(rows, filters, limit)[k];
            let stored = rows[position_of_id(rows, shown.id)];
            &&& has_id(rows, shown.id)
            &&& shown == listed(stored)
            &&& shown.record_type == "image"@ ==> shown.value == Seq::<char>::empty()
            &&& shown.record_type != "image"@ ==> shown.value == stored.value
            &&& value_outcome(rows, shown.id) == Ok::<Seq<char>, StoreError>(stored.value)
        }),
{
    law_query_returns_admitted_rows(rows, filters, limit);
    let shown = query_outcome(rows, filters, limit)[k];
    let j = choose|j: int|
        0 <= j < rows.len() && accepts_all(filters, #[trigger] rows[j]) && shown == listed(
            rows[j],
        );
    lemma_position_of_id_unique(rows, last_id, j);
}

/// The store after submitting `input` once at each of `times`, in order.
pub open spec fn resubmitted(s: StoreState, input: RecordInputView, times: Seq<u64>) -> StoreState
    decreases times.len(),
{
    if times.len() == 0 {
        s
    } else {
        upsert_outcome(resubmitted(s, input, times.drop_last()), input, times.last()).1
    }
}

/// What the last of the submissions at `times` returns.
pub open spec fn last_answer(s: StoreState, input: RecordInputView, times: Seq<u64>) -> Result<
    i64,
    StoreError,
>
    recommends
        times.len() > 0,
{
    upsert_outcome(resubmitted(s, input, times.drop_last()), input, times.last()).0
}

/// The row that holds the content of `input` (meaningful when one does).
pub open spec fn row_of(s: StoreState, input: RecordInputView) -> RecordView {
    s.rows[position(s.rows, input.record_type, input.value)]
}

/// A submission keeps the store's invariant, whatever it returns.
pub proof fn law_upsert_keeps_invariant(s: StoreState, input: RecordInputView, now: u64)
    requires
        rows_wf(s.rows, s.last_id),
    ensures
        rows_wf(upsert_outcome(s, input, now).1.rows, upsert_outcome(s, input, now).1.last_id),
{
    let after = upsert_outcome(s, input, now).1;
    // Either one row was touched or one was appended; every other row is as
    // it was.
    assert forall|a: int, b: int| 0 <= a < b < after.rows.len() implies (
    #[trigger] after.rows[a]).id != (#[trigger] after.rows[b]).id && !same_content(
        after.rows[a],
        after.rows[b].record_type,
        after.rows[b].value,
    ) by {}
    assert forall|a: int| 0 <= a < after.rows.len() implies 1 <= (
    #[trigger] after.rows[a]).id <= after.last_id && is_record_type(
        after.rows[a].record_type,
    ) by {}
}

/// An accepted submission leaves the content stored, under the identifier it
/// returned and with `updated_at` set to the time of the submission.
pub proof fn law_upsert_stores_content(s: StoreState, input: RecordInputView, now: u64)
    requires
        rows_wf(s.rows, s.last_id),
        upsert_outcome(s, input, now).0 is Ok,
    ensures
        ({
            let (answer, after) = upsert_outcome(s, input, now);
            &&& stores(after.rows, input.record_type, input.value)
            &&& answer == Ok::<i64, StoreError>(row_of(after, input).id)
            &&& row_of(after, input).updated_at == now
            &&& stores(s.rows, input.record_type, input.value) ==> {
                &&& after.rows.len() == s.rows.len()
                &&& after.last_id == s.last_id
                &&& row_of(after, input) == touched(row_of(s, input), now)
            }
            &&& !stores(s.rows, input.record_type, input.value) ==> {
                &&& after.rows.len() == s.rows.len() + 1
                &&& row_of(after, input) == fresh_row(input, (s.last_id + 1) as i64, now)
            }
        }),
{
    let (answer, after) = upsert_outcome(s, input, now);
    law_upsert_keeps_invariant(s, input, now);
    let i = if stores(s.rows, input.record_type, input.value) {
        position(s.rows, input.record_type, input.value)
    } else {
        s.rows.len() as int
    };
    lemma_position_unique(after.rows, after.last_id, i);
}

/// Idempotence: when the first of several submissions of the same content is
/// accepted, every later one returns the same identifier and adds no row; the
/// content is stored in exactly one row, whose `updated_at` is the time of the
/// last submission and whose `created_at` is still what the first one left.
/// Submitted to an empty store, the content is the only row.
pub proof fn law_repeats_keep_one_row(s: StoreState, input: RecordInputView, times: Seq<u64>)
    requires
        rows_wf(s.rows, s.last_id),
        times.len() >= 1,
        upsert_outcome(s, input, times[0]).0 is Ok,
    ensures
        ({
            let first = upsert_outcome(s, input, times[0]);
            let after = resubmitted(s, input, times);
            &&& rows_wf(after.rows, after.last_id)
            &&& stores(after.rows, input.record_type, input.value)
            &&& last_answer(s, input, times) == first.0
            &&& last_answer(s, input, times) == Ok::<i64, StoreError>(row_of(after, input).id)
            &&& after.rows.len() == first.1.rows.len()
            &&& after.last_id == first.1.last_id
            &&& row_of(after, input).updated_at == times.last()
            &&& row_of(after, input).created_at == row_of(first.1, input).created_at
            &&& s.rows.len() == 0 ==> after.rows.len() == 1
        }),
    decreases times.len(),
{
    if times.len() == 1 {
        law_upsert_stores_content(s, input, times[0]);
        law_upsert_keeps_invariant(s, input, times[0]);
    } else {
        let earlier = times.drop_last();
        law_repeats_keep_one_row(s, input, earlier);
        let mid = resubmitted(s, input, earlier);
        law_upsert_keeps_invariant(mid, input, times.last());
        law_upsert_stores_content(mid, input, times.last());
    }
}

/// With each repeat at a later time than the one before, `updated_at` of the
/// row strictly increases.
pub proof fn law_repeat_advances_updated_at(
    s: StoreState,
    input: RecordInputView,
    times: Seq<u64>,
    k: int,
)
    requires
        rows_wf(s.rows, s.last_id),
        upsert_outcome(s, input, times[0]).0 is Ok,
        1 <= k < times.len(),
        times[k - 1] < times[k],
    ensures
        row_of(resubmitted(s, input, times.take(k)), input).updated_at < row_of(
            resubmitted(s, input, times.take(k + 1)),
            input,
        ).updated_at,
{
    law_repeats_keep_one_row(s, input, times.take(k));
    law_repeats_keep_one_row(s, input, times.take(k + 1));
}

/// Identifiers are never reused: a new row gets an identifier above every
/// identifier handed out before, and no operation lowers the counter.
pub proof fn law_identifiers_are_fresh(s: StoreState, input: RecordInputView, now: u64)
    requires
        rows_wf(s.rows, s.last_id),
    ensures
        ({
            let (answer, after) = upsert_outcome(s, input, now);
            &&& after.last_id >= s.last_id
            &&& !stores(s.rows, input.record_type, input.value) && answer is Ok ==> {
                &&& answer == Ok::<i64, StoreError>(after.last_id)
                &&& after.last_id == s.last_id + 1
                &&& forall|i: int|
                    0 <= i < s.rows.len() ==> (#[trigger] s.rows[i]).id < after.last_id
            }
            &&& forall|i: int|
                0 <= i < s.rows.len() ==> (#[trigger] after.rows[i]).id == s.rows[i].id
        }),
{
}

/// The favorite flag is independent of everything else: toggling changes
/// one flag of one row, and toggling twice changes nothing.
pub proof fn law_toggle_is_its_own_inverse(rows: Seq<RecordView>, last_id: i64, id: i64)
    requires
        rows_wf(rows, last_id),
    ensures
        rows_wf(toggled_rows(rows, id), last_id),
        toggled_rows(toggled_rows(rows, id), id) == rows,
        toggled_rows(rows, id).len() == rows.len(),
        forall|i: int|
            0 <= i < rows.len() ==> (#[trigger] toggled_rows(rows, id)[i]) == if rows[i].id == id {
                flipped(rows[i])
            } else {
                rows[i]
            },
{
    if has_id(rows, id) {
        let i = position_of_id(rows, id);
        lemma_position_of_id_unique(rows, last_id, i);
        let once = toggled_rows(rows, id);
        assert forall|a: int, b: int| 0 <= a < b < once.len() implies (#[trigger] once[a]).id != (
        #[trigger] once[b]).id && !same_content(once[a], once[b].record_type, once[b].value) by {}
        assert forall|a: int| 0 <= a < once.len() implies 1 <= (#[trigger] once[a]).id <= last_id
            && is_record_type(once[a].record_type) by {}
        lemma_position_of_id_unique(once, last_id, i);
        assert forall|k: int| 0 <= k < rows.len() implies (#[trigger] once[k]) == if rows[k].id
            == id {
            flipped(rows[k])
        } else {
            rows[k]
        } by {
            if k != i {
                lemma_position_of_id_unique(rows, last_id, k);
            }
        }
    } else {
        assert forall|k: int| 0 <= k < rows.len() implies rows[k].id != id by {}
    }
}

/// A query leaves out only what the limit forces it to: a stored row that
/// passes every filter and is missing from the result comes before none of
/// the rows that are in it.
pub proof fn law_query_lists_the_newest(
    rows: Seq<RecordView>,
    filters: Seq<FilterView>,
    limit: nat,
    j: int,
    k: int,
)
    requires
        0 <= j < rows.len(),
        accepts_all(filters, rows[j]),
        0 <= k < query_outcome(rows, filters, limit).len(),
        !query_outcome(rows, filters, limit).contains(listed(rows[j])),
    ensures
        !precedes(rows[j], query_outcome(rows, filters, limit)[k]),
        rows[j].updated_at <= query_outcome(rows, filters, limit)[k].updated_at,
{
    let hits = rows.filter(admits(filters));
    let chosen = latest_first(hits, limit);
    let out = query_outcome(rows, filters, limit);
    lemma_latest_first(hits, limit);
    rows.lemma_filter_contains(admits(filters), j);
    let h = choose|h: int| 0 <= h < hits.len() && hits[h] == rows[j];
    // Were `rows[j]` among the chosen, the result would show it.
    if chosen.contains(hits[h]) {
        let m = choose|m: int| 0 <= m < chosen.len() && chosen[m] == hits[h];
        assert(out[m] == listed(rows[j]));
    }
}

/// Times of change keep the order of the changes: the time that
/// [`later_than`] gives is later than every update in the store, whatever the
/// clock says (unless the latest update is at the last moment there is).  So
/// a repeat at that time strictly advances `updated_at`.
pub proof fn law_next_time_is_later(s: StoreState, input: RecordInputView, wall: u64)
    requires
        rows_wf(s.rows, s.last_id),
        latest_time(s.rows) < u64::MAX,
    ensures
        ({
            let now = later_than(latest_time(s.rows), wall);
            &&& now >= wall
            &&& forall|i: int| 0 <= i < s.rows.len() ==> (#[trigger] s.rows[i]).updated_at < now
            &&& stores(s.rows, input.record_type, input.value) ==> row_of(s, input).updated_at
                < row_of(upsert_outcome(s, input, now).1, input).updated_at
        }),
{
    if s.rows.len() > 0 {
        lemma_latest_index_is_latest(s.rows);
    }
    let now = later_than(latest_time(s.rows), wall);
    if stores(s.rows, input.record_type, input.value) {
        law_upsert_stores_content(s, input, now);
    }
}

/// Loading loses no content and keeps the newest of each: whatever content
/// one of the rows holds, the loaded store holds it, in one row, and that row
/// is one of the rows and was updated no earlier than any row with this
/// content.
pub proof fn law_loading_keeps_newest(rows: Seq<RecordView>, last_id: i64, i: int)
    requires
        loadable(rows, last_id),
        0 <= i < rows.len(),
    ensures
        ({
            let loaded = newest_of_each(rows);
            let kept = loaded[position(loaded, rows[i].record_type, rows[i].value)];
            &&& rows_wf(loaded, last_id)
            &&& stores(loaded, rows[i].record_type, rows[i].value)
            &&& rows.contains(kept)
            &&& forall|j: int|
                0 <= j < rows.len() && same_content(
                    #[trigger] rows[j],
                    rows[i].record_type,
                    rows[i].value,
                ) ==> rows[j].updated_at <= kept.updated_at
        }),
{
    let loaded = newest_of_each(rows);
    let t = rows[i].record_type;
    let v = rows[i].value;
    lemma_newest_of_each(rows, last_id);
    // Among the rows with this content, the one that comes first in listing
    // order is no older duplicate, so it is loaded.
    let alike = |r: RecordView| same_content(r, t, v);
    let same = rows.filter(alike);
    rows.lemma_filter_contains(alike, i);
    let m = latest_index(same);
    lemma_latest_index_is_latest(same);
    rows.lemma_filter_pred(alike, m);
    rows.lemma_filter_contains_rev(alike, same[m]);
    let at = choose|at: int| 0 <= at < rows.len() && rows[at] == same[m];
    assert forall|j: int| 0 <= j < rows.len() && same_content(#[trigger] rows[j], t, v) implies
        !precedes(rows[j], same[m]) && rows[j].updated_at <= same[m].updated_at by {
        rows.lemma_filter_contains(alike, j);
        let k = choose|k: int| 0 <= k < same.len() && same[k] == rows[j];
        assert(!precedes(same[k], same[m]));
    }
    assert(!superseded(rows, same[m]));
    assert(current(rows)(rows[at]));
    rows.lemma_filter_contains(current(rows), at);
    let place = choose|place: int| 0 <= place < loaded.len() && loaded[place] == same[m];
    assert(same_content(loaded[place], t, v));
    lemma_position_unique(loaded, last_id, place);
}

} // verus!
