//! The history store: one row per distinct piece of clipboard content,
//! inserted or refreshed by content identity and queried newest first.
//!
//! This module holds the data that crosses the store's boundary and the
//! operations that callers invoke.  [`model`] says what the operations mean,
//! [`store`] implements them, and [`laws`] states what holds across calls.
pub mod laws;
pub mod model;
pub mod store;

use crate::text::contains;
use vstd::prelude::*;
use vstd::string::*;
pub use model::{
    accepts, accepts_all, admits, current, distinct_from_earlier, filter_views, filters_of,
    flipped, fresh_row, has_id, insert_error, is_record_type, later_than, latest_first,
    latest_index, latest_time, lemma_filter_keeps, lemma_newest_of_each,
    lemma_position_of_id_unique, lemma_position_unique, listed, loadable, newest_of_each, opt_text,
    picked, position, position_of_id, precedes, query_outcome, retained_rows, rows_wf,
    rows_without, same_content, stores, superseded, toggled_rows, touched, upsert_outcome,
    value_outcome, views, FilterView, QueryParamsView, RecordInputView, RecordView, StoreState,
};
pub use store::{rows_loadable, Database};

verus! {

/// Why a store operation was refused.
#[derive(Debug, Clone, Copy, PartialEq, Eq, Structural)]
pub enum StoreError {
    /// The store has not been set up yet.
    NotInitialized,
    /// The record type is none of `text`, `image`, `file`.
    InvalidRecordType,
    /// The file size does not fit the stored integer width.
    SizeOutOfRange,
    /// Every identifier has been handed out.
    Full,
    /// No row has the requested identifier.
    NotFound,
    /// Rows offered for loading cannot be loaded.
    Inconsistent,
}

impl StoreError {
    /// The error as a message for the user.
    pub open spec fn message_text(self) -> Seq<char> {
        match self {
            StoreError::NotInitialized => "Database not initialized"@,
            StoreError::InvalidRecordType => "Record type must be text, image or file"@,
            StoreError::SizeOutOfRange => "File size out of range"@,
            StoreError::Full => "No identifier left for a new record"@,
            StoreError::NotFound => "No record with this identifier"@,
            StoreError::Inconsistent => "Stored records are inconsistent"@,
        }
    }

    /// The error as a message for the user.
    pub fn message(&self) -> (text: String)
        ensures
            text@ == self.message_text(),
    {
        match self {
            StoreError::NotInitialized => "Database not initialized".to_owned(),
            StoreError::InvalidRecordType => "Record type must be text, image or file".to_owned(),
            StoreError::SizeOutOfRange => "File size out of range".to_owned(),
            StoreError::Full => "No identifier left for a new record".to_owned(),
            StoreError::NotFound => "No record with this identifier".to_owned(),
            StoreError::Inconsistent => "Stored records are inconsistent".to_owned(),
        }
    }
}

/// A persisted history entry.
#[derive(Debug, Clone, PartialEq, Eq)]
pub struct Record {
    pub id: i64,
    pub record_type: String,
    pub value: String,
    pub thumbnail: Option<String>,
    /// File size in bytes (file entries only).
    pub size: Option<i64>,
    /// Dimensions of the full-size image as `WxH` (image entries only).
    pub img_size: Option<String>,
    pub created_at: u64,
    pub updated_at: u64,
    pub favorite: bool,
}

impl View for Record {
    type V = RecordView;

    open spec fn view(&self) -> RecordView {
        RecordView {
            id: self.id,
            record_type: self.record_type@,
            value: self.value@,
            thumbnail: opt_text(self.thumbnail),
            size: self.size,
            img_size: opt_text(self.img_size),
            created_at: self.created_at,
            updated_at: self.updated_at,
            favorite: self.favorite,
        }
    }
}

/// What a caller submits for storage.
#[derive(Debug, Clone, PartialEq, Eq)]
pub struct RecordInput {
    pub record_type: String,
    pub value: String,
    pub thumbnail: Option<String>,
    pub size: Option<u64>,
    pub img_size: Option<String>,
}

impl View for RecordInput {
    type V = RecordInputView;

    open spec fn view(&self) -> RecordInputView {
        RecordInputView {
            record_type: self.record_type@,
            value: self.value@,
            thumbnail: opt_text(self.thumbnail),
            size: self.size,
            img_size: opt_text(self.img_size),
        }
    }
}

/// Query parameters as callers submit them.
#[derive(Debug, Clone, PartialEq, Eq)]
pub struct QueryParams {
    /// Cursor for backward pagination: only rows updated strictly before it.
    pub last_updated_at: Option<u64>,
    pub limit: u32,
    pub keyword: Option<String>,
    pub record_type: Option<String>,
    pub favorite: Option<bool>,
}

impl View for QueryParams {
    type V = QueryParamsView;

    open spec fn view(&self) -> QueryParamsView {
        QueryParamsView {
            last_updated_at: self.last_updated_at,
            limit: self.limit,
            keyword: opt_text(self.keyword),
            record_type: opt_text(self.record_type),
            favorite: self.favorite,
        }
    }
}

/// One predicate over rows.  A query is the conjunction of its filters.
#[derive(Debug, Clone, PartialEq, Eq)]
pub enum Filter {
    /// Text and file rows whose value contains the keyword.
    Keyword(String),
    /// Rows of exactly this type.
    Type(String),
    /// Rows marked as favorite.
    Favorite,
    /// Rows updated strictly before the timestamp.
    Cursor(u64),
}

impl View for Filter {
    type V = FilterView;

    open spec fn view(&self) -> FilterView {
        match self {
            Filter::Keyword(k) => FilterView::Keyword(k@),
            Filter::Type(t) => FilterView::Type(t@),
            Filter::Favorite => FilterView::Favorite,
            Filter::Cursor(t) => FilterView::Cursor(*t),
        }
    }
}

/// Whether `t` is one of the three record types.
pub fn is_known_type(t: &String) -> (known: bool)
    ensures
        known == is_record_type(t@),
{
    is_literal(t, "text") || is_literal(t, "image") || is_literal(t, "file")
}

/// Whether `s` reads exactly `literal`.
pub fn is_literal(s: &String, literal: &str) -> (same: bool)
    ensures
        same == (s@ == literal@),
{
    let l = literal.to_owned();
    *s == l
}

/// A copy of an optional string.
fn copy_opt(text: &Option<String>) -> (copy: Option<String>)
    ensures
        opt_text(copy) == opt_text(*text),
{
    match text {
        Some(s) => Some(s.clone()),
        None => None,
    }
}

impl Record {
    /// A copy of this record.
    pub fn duplicate(&self) -> (copy: Record)
        ensures
            copy@ == self@,
    {
        Record {
            id: self.id,
            record_type: self.record_type.clone(),
            value: self.value.clone(),
            thumbnail: copy_opt(&self.thumbnail),
            size: self.size,
            img_size: copy_opt(&self.img_size),
            created_at: self.created_at,
            updated_at: self.updated_at,
            favorite: self.favorite,
        }
    }

    /// A copy of this record as a listing shows it; see [`listed`].
    pub fn listing(&self) -> (copy: Record)
        ensures
            copy@ == listed(self@),
    {
        let value = if is_literal(&self.record_type, "image") {
            String::new()
        } else {
            self.value.clone()
        };
        Record {
            id: self.id,
            record_type: self.record_type.clone(),
            value,
            thumbnail: copy_opt(&self.thumbnail),
            size: self.size,
            img_size: copy_opt(&self.img_size),
            created_at: self.created_at,
            updated_at: self.updated_at,
            favorite: self.favorite,
        }
    }

    /// Whether this record comes before `other` in listing order.
    pub fn comes_before(&self, other: &Record) -> (first: bool)
        ensures
            first == precedes(self@, other@),
    {
        self.updated_at > other.updated_at || (self.updated_at == other.updated_at && self.id
            > other.id)
    }
}

impl Filter {
    /// Whether this filter lets `r` through.
    pub fn accepts(&self, r: &Record) -> (pass: bool)
        ensures
            pass == accepts(self@, r@),
    {
        match self {
            Filter::Keyword(k) => (is_literal(&r.record_type, "text") || is_literal(
                &r.record_type,
                "file",
            )) && contains(r.value.as_str(), k.as_str()),
            Filter::Type(t) => r.record_type == *t,
            Filter::Favorite => r.favorite,
            Filter::Cursor(t) => r.updated_at < *t,
        }
    }
}

/// Whether every filter lets `r` through.
pub fn accepts_every(filters: &Vec<Filter>, r: &Record) -> (pass: bool)
    ensures
        pass == accepts_all(filter_views(filters@), r@),
{
    let mut k: usize = 0;
    while k < filters.len()
        invariant
            k <= filters@.len(),
            forall|j: int| 0 <= j < k ==> accepts(#[trigger] filter_views(filters@)[j], r@),
        decreases filters@.len() - k,
    {
        if !filters[k].accepts(r) {
            assert(!accepts(filter_views(filters@)[k as int], r@));
            return false;
        }
        k = k + 1;
    }
    true
}

/// The filters that `params` stand for; see [`filters_of`].
pub fn build_filters(params: &QueryParams) -> (filters: Vec<Filter>)
    ensures
        filter_views(filters@) == filters_of(params@),
{
    let mut filters: Vec<Filter> = Vec::new();
    if let Some(keyword) = &params.keyword {
        if !keyword.as_str().is_empty() {
            filters.push(Filter::Keyword(keyword.clone()));
        }
    }
    if let Some(record_type) = &params.record_type {
        if !is_literal(record_type, "all") {
            filters.push(Filter::Type(record_type.clone()));
        }
    }
    if let Some(cursor) = params.last_updated_at {
        filters.push(Filter::Cursor(cursor));
    }
    if let Some(favorite) = params.favorite {
        if favorite {
            filters.push(Filter::Favorite);
        }
    }
    filters
}

/// Fills the slot with a store over the rows that were persisted earlier
/// (none on first start).  Of rows that hold the same content the most
/// recently updated one is kept; see [`newest_of_each`].  Rows that cannot
/// be loaded (see [`loadable`]) are refused and leave the slot as it was.
pub fn init(slot: &mut Option<Database>, rows: Vec<Record>, last_id: i64) -> (result: Result<
    (),
    StoreError,
>)
    ensures
        result is Ok <==> loadable(views(rows@), last_id),
        match result {
            Ok(_) => *final(slot) matches Some(db) && db@ == (StoreState {
                rows: newest_of_each(views(rows@)),
                last_id,
            }),
            Err(e) => e == StoreError::Inconsistent && *final(slot) == *old(slot),
        },
{
    match Database::from_rows(rows, last_id) {
        Ok(db) => {
            *slot = Some(db);
            Ok(())
        },
        Err(e) => Err(e),
    }
}

/// The identifier of the row that holds exactly this type and value, if any.
pub fn check_record_exists(db: &Database, record_type: &str, value: &str) -> (id: Option<i64>)
    ensures
        id == if stores(db@.rows, record_type@, value@) {
            Some(db@.rows[position(db@.rows, record_type@, value@)].id)
        } else {
            None
        },
{
    let t = record_type.to_owned();
    let v = value.to_owned();
    db.lookup(&t, &v)
}

/// The time to record for a change that the clock puts at `wall`: later than
/// every update that the store holds, so that times of change keep the order
/// of the changes even where the clock repeats itself or steps back.  See
/// [`later_than`].
pub fn next_timestamp(slot: &Option<Database>, wall: u64) -> (now: u64)
    ensures
        now == later_than(
            match *slot {
                Some(db) => latest_time(db@.rows),
                None => 0,
            },
            wall,
        ),
{
    let latest = match slot {
        Some(db) => db.latest_update(),
        None => 0,
    };
    if wall > latest {
        wall
    } else if latest < u64::MAX {
        latest + 1
    } else {
        latest
    }
}

/// Stores `record` at time `now`: a repeat of known content refreshes that
/// row's `updated_at`, new content gets a new row.  Returns the row's
/// identifier.  See [`upsert_outcome`].
pub fn add_record(slot: &mut Option<Database>, record: RecordInput, now: u64) -> (result: Result<
    i64,
    StoreError,
>)
    ensures
        match *old(slot) {
            Some(before) => *final(slot) matches Some(after) && (result, after@) == upsert_outcome(
                before@,
                record@,
                now,
            ),
            None => result == Err::<i64, StoreError>(StoreError::NotInitialized) && *final(slot)
                is None,
        },
{
    match slot {
        Some(db) => db.upsert(record, now),
        None => Err(StoreError::NotInitialized),
    }
}

/// The rows that `params` select, newest first; image rows come without
/// their value.  See [`query_outcome`] and [`filters_of`].
pub fn get_records(slot: &Option<Database>, params: QueryParams) -> (result: Result<
    Vec<Record>,
    StoreError,
>)
    ensures
        match *slot {
            Some(db) => result matches Ok(found) && views(found@) == query_outcome(
                db@.rows,
                filters_of(params@),
                params.limit as nat,
            ),
            None => result matches Err(e) && e == StoreError::NotInitialized,
        },
{
    match slot {
        Some(db) => {
            let filters = build_filters(&params);
            Ok(db.query(&filters, params.limit))
        },
        None => Err(StoreError::NotInitialized),
    }
}

/// The full value of row `id`, images included.  See [`value_outcome`].
pub fn get_record_value(slot: &Option<Database>, id: i64) -> (result: Result<String, StoreError>)
    ensures
        match *slot {
            Some(db) => match result {
                Ok(v) => value_outcome(db@.rows, id) == Ok::<Seq<char>, StoreError>(v@),
                Err(e) => value_outcome(db@.rows, id) == Err::<Seq<char>, StoreError>(e),
            },
            None => result matches Err(e) && e == StoreError::NotInitialized,
        },
{
    match slot {
        Some(db) => db.get_value(id),
        None => Err(StoreError::NotInitialized),
    }
}

/// Flips the favorite flag of row `id`.  An identifier that no row has
/// changes nothing and is no error.  See [`toggled_rows`].
pub fn toggle_favorite(slot: &mut Option<Database>, id: i64) -> (result: Result<(), StoreError>)
    ensures
        match *old(slot) {
            Some(before) => {
                &&& result is Ok
                &&& *final(slot) matches Some(after)
                &&& after@ == (StoreState { rows: toggled_rows(before@.rows, id), ..before@ })
            },
            None => result == Err::<(), StoreError>(StoreError::NotInitialized) && *final(slot)
                is None,
        },
{
    match slot {
        Some(db) => {
            db.toggle_favorite(id);
            Ok(())
        },
        None => Err(StoreError::NotInitialized),
    }
}

/// Deletes every row but the most recently updated one.  See
/// [`retained_rows`].
pub fn clear_history(slot: &mut Option<Database>) -> (result: Result<(), StoreError>)
    ensures
        match *old(slot) {
            Some(before) => {
                &&& result is Ok
                &&& *final(slot) matches Some(after)
                &&& after@ == (StoreState { rows: retained_rows(before@.rows), ..before@ })
            },
            None => result == Err::<(), StoreError>(StoreError::NotInitialized) && *final(slot)
                is None,
        },
{
    match slot {
        Some(db) => {
            db.retain_latest_only();
            Ok(())
        },
        None => Err(StoreError::NotInitialized),
    }
}

} // verus!
