//! The capture pipeline: what the clipboard offers is classified by format
//! priority, compared against the last content seen, and turned into a
//! record for the store.
use crate::db::{opt_text, RecordInput, RecordInputView};
use crate::encoding::{base64_len, base64_text, encodable, to_base64};
use crate::optimize_img::{
    image_size, is_thumbnail, optimize_img, size_text, thumbnail_size, vanishes, CompressError,
};
use crate::text::bytes_equal;
use vstd::prelude::*;
use vstd::string::*;

verus! {

/// The last content that was accepted: its type and value as text, and for
/// an image the raw bytes it came as.
#[derive(Debug)]
pub struct Record {
    record_type: Option<String>,
    value: Option<String>,
    img_bytes: Option<Vec<u8>>,
}

/// The mathematical content of the last-seen slot.
pub struct LastSeen {
    pub record_type: Option<Seq<char>>,
    pub value: Option<Seq<char>>,
    pub img_bytes: Option<Seq<u8>>,
}

/// The content of optional bytes.
pub open spec fn opt_bytes(bytes: Option<Vec<u8>>) -> Option<Seq<u8>> {
    match bytes {
        Some(b) => Some(b@),
        None => None,
    }
}

/// Whether the slot holds exactly this type and value.
pub open spec fn holds(last: LastSeen, record_type: Seq<char>, value: Seq<char>) -> bool {
    last.record_type == Some(record_type) && last.value == Some(value)
}

impl Record {
    /// What the slot holds.
    pub closed spec fn view(&self) -> LastSeen {
        LastSeen {
            record_type: opt_text(self.record_type),
            value: opt_text(self.value),
            img_bytes: opt_bytes(self.img_bytes),
        }
    }

    /// A slot that has seen nothing yet.
    pub fn new() -> (slot: Self)
        ensures
            slot@ == (LastSeen { record_type: None, value: None, img_bytes: None }),
    {
        Record { record_type: None, value: None, img_bytes: None }
    }

    /// Records new content.  Returns `false`, and changes nothing, when the
    /// slot already holds this type and value.
    pub fn update(
        &mut self,
        record_type: &str,
        value: &str,
        img_bytes: Option<Vec<u8>>,
    ) -> (changed: bool)
        ensures
            changed == !holds(old(self)@, record_type@, value@),
            final(self)@ == if changed {
                LastSeen {
                    record_type: Some(record_type@),
                    value: Some(value@),
                    img_bytes: opt_bytes(img_bytes),
                }
            } else {
                old(self)@
            },
    {
        let record_type = record_type.to_owned();
        let value = value.to_owned();
        let same_type = match &self.record_type {
            Some(t) => *t == record_type,
            None => false,
        };
        let same_value = match &self.value {
            Some(v) => *v == value,
            None => false,
        };
        if same_type && same_value {
            return false;
        }
        self.record_type = Some(record_type);
        self.value = Some(value);
        self.img_bytes = img_bytes;
        true
    }

    /// Whether the slot holds an image that came as exactly these bytes.
    pub fn is_same_img(&self, img_bytes: &[u8]) -> (same: bool)
        ensures
            same == (self@.img_bytes == Some(img_bytes@)),
    {
        match &self.img_bytes {
            Some(seen) => bytes_equal(seen.as_slice(), img_bytes),
            None => false,
        }
    }
}

/// The three kinds of content, in the order of their priority.
#[derive(Debug, Clone, Copy, PartialEq, Eq, Structural)]
pub enum ContentKind {
    File,
    Image,
    Text,
}

/// Which formats the clipboard offers at one moment.
#[derive(Debug, Clone, Copy, PartialEq, Eq, Structural)]
pub struct ClipboardFormats {
    pub file_url: bool,
    pub image: bool,
    pub text: bool,
}

/// Format priority: a file reference wins over an image, an image over plain
/// text.
pub open spec fn preferred(formats: ClipboardFormats) -> Option<ContentKind> {
    if formats.file_url {
        Some(ContentKind::File)
    } else if formats.image {
        Some(ContentKind::Image)
    } else if formats.text {
        Some(ContentKind::Text)
    } else {
        None
    }
}

/// The kind of content to read, by format priority; see [`preferred`].
pub fn pick_format(formats: ClipboardFormats) -> (kind: Option<ContentKind>)
    ensures
        kind == preferred(formats),
{
    if formats.file_url {
        Some(ContentKind::File)
    } else if formats.image {
        Some(ContentKind::Image)
    } else if formats.text {
        Some(ContentKind::Text)
    } else {
        None
    }
}

/// One normalized reading of the clipboard.
#[derive(Debug, Clone, PartialEq, Eq)]
pub enum ContentSnapshot {
    /// Plain text.
    Text(String),
    /// An image, as the raw bytes it came in.
    Image(Vec<u8>),
    /// A file, as its absolute path with symlinks resolved.
    File(String),
}

/// The mathematical content of a [`ContentSnapshot`].
pub enum SnapshotView {
    Text(Seq<char>),
    Image(Seq<u8>),
    File(Seq<char>),
}

impl View for ContentSnapshot {
    type V = SnapshotView;

    open spec fn view(&self) -> SnapshotView {
        match self {
            ContentSnapshot::Text(t) => SnapshotView::Text(t@),
            ContentSnapshot::Image(b) => SnapshotView::Image(b@),
            ContentSnapshot::File(p) => SnapshotView::File(p@),
        }
    }
}

impl ContentSnapshot {
    /// The kind of this snapshot.
    pub fn kind(&self) -> (kind: ContentKind)
        ensures
            kind == match self@ {
                SnapshotView::Text(_) => ContentKind::Text,
                SnapshotView::Image(_) => ContentKind::Image,
                SnapshotView::File(_) => ContentKind::File,
            },
    {
        match self {
            ContentSnapshot::Text(_) => ContentKind::Text,
            ContentSnapshot::Image(_) => ContentKind::Image,
            ContentSnapshot::File(_) => ContentKind::File,
        }
    }
}

/// What one format holds when it is read.
#[derive(Debug, Clone, PartialEq, Eq)]
pub enum Offer<T> {
    /// The clipboard does not offer the format.
    Absent,
    /// The format is offered, but its data cannot be had (for a file: its
    /// reference does not resolve to a path).
    Unreadable,
    /// The data.
    Data(T),
}

/// Everything the clipboard holds at one moment.
#[derive(Debug, Clone, PartialEq, Eq)]
pub struct ClipboardReading {
    /// The referenced file's absolute, symlink-resolved path.
    pub file: Offer<String>,
    pub image: Offer<Vec<u8>>,
    pub text: Offer<String>,
}

/// The snapshot that a reading stands for.  The first format that is offered
/// decides, in the order file, image, text; when its data cannot be had there
/// is no snapshot, whatever the later formats hold.
pub open spec fn classified(reading: ClipboardReading) -> Option<SnapshotView> {
    match reading.file {
        Offer::Data(path) => Some(SnapshotView::File(path@)),
        Offer::Unreadable => None,
        Offer::Absent => match reading.image {
            Offer::Data(bytes) => Some(SnapshotView::Image(bytes@)),
            Offer::Unreadable => None,
            Offer::Absent => match reading.text {
                Offer::Data(text) => Some(SnapshotView::Text(text@)),
                _ => None,
            },
        },
    }
}

/// Normalizes a reading into one snapshot; see [`classified`].
pub fn classify(reading: ClipboardReading) -> (snapshot: Option<ContentSnapshot>)
    ensures
        match snapshot {
            Some(s) => classified(reading) == Some(s@),
            None => classified(reading) is None,
        },
{
    match reading.file {
        Offer::Data(path) => Some(ContentSnapshot::File(path)),
        Offer::Unreadable => None,
        Offer::Absent => match reading.image {
            Offer::Data(bytes) => Some(ContentSnapshot::Image(bytes)),
            Offer::Unreadable => None,
            Offer::Absent => match reading.text {
                Offer::Data(text) => Some(ContentSnapshot::Text(text)),
                _ => None,
            },
        },
    }
}

/// A snapshot that passed the dedup guard, in the form in which it will be
/// stored.
#[derive(Debug, Clone, PartialEq, Eq)]
pub enum Accepted {
    Text(String),
    /// The file's path; its size is yet to be looked up.
    File(String),
    /// The image's value (its bytes in base64) and the bytes themselves, from
    /// which the thumbnail is yet to be made.
    Image { value: String, bytes: Vec<u8> },
}

/// The mathematical content of an [`Accepted`] snapshot.
pub enum AcceptedView {
    Text(Seq<char>),
    File(Seq<char>),
    Image { value: Seq<char>, bytes: Seq<u8> },
}

impl View for Accepted {
    type V = AcceptedView;

    open spec fn view(&self) -> AcceptedView {
        match self {
            Accepted::Text(t) => AcceptedView::Text(t@),
            Accepted::File(p) => AcceptedView::File(p@),
            Accepted::Image { value, bytes } => AcceptedView::Image {
                value: value@,
                bytes: bytes@,
            },
        }
    }
}

/// The guard's decision on a snapshot, and what the slot holds afterwards.
///
/// Text and file content is a repeat when the slot holds the same type and
/// value.  An image is a repeat when the slot holds the same raw bytes; its
/// value is the base64 text of the bytes.  A repeat is rejected and leaves the
/// slot alone; anything else is accepted and recorded.  (Bytes too many to
/// encode are rejected as well.)
pub open spec fn accept_outcome(last: LastSeen, snapshot: SnapshotView) -> (
    Option<AcceptedView>,
    LastSeen,
) {
    match snapshot {
        SnapshotView::Text(text) => if holds(last, "text"@, text) {
            (None, last)
        } else {
            (
                Some(AcceptedView::Text(text)),
                LastSeen { record_type: Some("text"@), value: Some(text), img_bytes: None },
            )
        },
        SnapshotView::File(path) => if holds(last, "file"@, path) {
            (None, last)
        } else {
            (
                Some(AcceptedView::File(path)),
                LastSeen { record_type: Some("file"@), value: Some(path), img_bytes: None },
            )
        },
        SnapshotView::Image(bytes) => if last.img_bytes == Some(bytes) || !encodable(bytes.len()) {
            (None, last)
        } else {
            (
                Some(AcceptedView::Image { value: base64_text(bytes), bytes }),
                LastSeen {
                    record_type: Some("image"@),
                    value: Some(base64_text(bytes)),
                    img_bytes: Some(bytes),
                },
            )
        },
    }
}

/// A copy of a byte buffer.
fn copy_bytes(bytes: &Vec<u8>) -> (copy: Vec<u8>)
    ensures
        copy@ == bytes@,
{
    bytes.clone()
}

/// The dedup guard: it owns the last-seen slot and lets a snapshot through
/// only when it differs from what the slot holds.
#[derive(Debug)]
pub struct DedupGuard {
    last: Record,
}

impl DedupGuard {
    /// What the guard's slot holds.
    pub closed spec fn view(&self) -> LastSeen {
        self.last@
    }

    /// A guard over the given slot.
    pub fn new(last: Record) -> (guard: Self)
        ensures
            guard@ == last@,
    {
        DedupGuard { last }
    }

    /// Decides on a snapshot; see [`accept_outcome`].  For an image the raw
    /// bytes are compared before anything is encoded.
    pub fn accept(&mut self, snapshot: ContentSnapshot) -> (accepted: Option<Accepted>)
        ensures
            match accepted {
                Some(a) => accept_outcome(old(self)@, snapshot@).0 == Some(a@),
                None => accept_outcome(old(self)@, snapshot@).0 is None,
            },
            final(self)@ == accept_outcome(old(self)@, snapshot@).1,
            accepted matches Some(Accepted::Image { value, bytes }) ==> value@.len() == base64_len(
                bytes@.len(),
            ),
    {
        match snapshot {
            ContentSnapshot::Text(text) => {
                if self.last.update("text", text.as_str(), None) {
                    Some(Accepted::Text(text))
                } else {
                    None
                }
            },
            ContentSnapshot::File(path) => {
                if self.last.update("file", path.as_str(), None) {
                    Some(Accepted::File(path))
                } else {
                    None
                }
            },
            ContentSnapshot::Image(bytes) => {
                if self.last.is_same_img(bytes.as_slice()) {
                    return None;
                }
                match to_base64(bytes.as_slice()) {
                    Some(value) => {
                        self.last = Record {
                            record_type: Some("image".to_owned()),
                            value: Some(value.clone()),
                            img_bytes: Some(copy_bytes(&bytes)),
                        };
                        Some(Accepted::Image { value, bytes })
                    },
                    None => None,
                }
            },
        }
    }
}

/// Dedup suppression: whatever the guard decided on a snapshot, it rejects
/// the same snapshot when it comes again right after, and leaves the slot as
/// it is.
pub proof fn law_repeat_is_suppressed(last: LastSeen, snapshot: SnapshotView)
    ensures
        ({
            let (_, seen) = accept_outcome(last, snapshot);
            accept_outcome(seen, snapshot) == (None::<AcceptedView>, seen)
        }),
{
}

/// The record that is stored for accepted text.
pub open spec fn text_input(text: Seq<char>) -> RecordInputView {
    RecordInputView {
        record_type: "text"@,
        value: text,
        thumbnail: None,
        size: None,
        img_size: None,
    }
}

/// The record that is stored for an accepted file.
pub open spec fn file_input(path: Seq<char>, size: u64) -> RecordInputView {
    RecordInputView {
        record_type: "file"@,
        value: path,
        thumbnail: None,
        size: Some(size),
        img_size: None,
    }
}

/// The record that is stored for an accepted image.
pub open spec fn image_input(
    value: Seq<char>,
    thumbnail: Seq<char>,
    img_size: Seq<char>,
) -> RecordInputView {
    RecordInputView {
        record_type: "image"@,
        value,
        thumbnail: Some(thumbnail),
        size: None,
        img_size: Some(img_size),
    }
}

/// The record for accepted text; see [`text_input`].
pub fn text_record(text: String) -> (record: RecordInput)
    ensures
        record@ == text_input(text@),
{
    RecordInput {
        record_type: "text".to_owned(),
        value: text,
        thumbnail: None,
        size: None,
        img_size: None,
    }
}

/// The record for an accepted file of the given size in bytes; see
/// [`file_input`].
pub fn file_record(path: String, size: u64) -> (record: RecordInput)
    ensures
        record@ == file_input(path@, size),
{
    RecordInput {
        record_type: "file".to_owned(),
        value: path,
        thumbnail: None,
        size: Some(size),
        img_size: None,
    }
}

/// The record for an accepted image with its thumbnail and the label of its
/// dimensions; see [`image_input`].
pub fn image_record(value: String, thumbnail: String, img_size: String) -> (record: RecordInput)
    ensures
        record@ == image_input(value@, thumbnail@, img_size@),
{
    RecordInput {
        record_type: "image".to_owned(),
        value,
        thumbnail: Some(thumbnail),
        size: None,
        img_size: Some(img_size),
    }
}

/// The pause between two capture cycles, in milliseconds.
pub const POLL_INTERVAL_MS: u64 = 300;

/// Where the poll loop stands.  `Idle` is the sleeping state; every other
/// state is part of one capture cycle.
#[derive(Debug, Clone, PartialEq, Eq)]
pub enum PollState {
    Idle,
    /// Waiting for the list of formats.
    Listing,
    /// Waiting for the referenced file's path.
    ReadingFile,
    /// Waiting for the image's bytes.
    ReadingImage,
    /// Waiting for the text.
    ReadingText,
    /// Waiting for the size of the accepted file at this path.
    Measuring(String),
    /// Waiting for the store to finish.
    Storing,
}

/// The mathematical content of a [`PollState`].
pub enum PollStateView {
    Idle,
    Listing,
    ReadingFile,
    ReadingImage,
    ReadingText,
    Measuring(Seq<char>),
    Storing,
}

impl View for PollState {
    type V = PollStateView;

    open spec fn view(&self) -> PollStateView {
        match self {
            PollState::Idle => PollStateView::Idle,
            PollState::Listing => PollStateView::Listing,
            PollState::ReadingFile => PollStateView::ReadingFile,
            PollState::ReadingImage => PollStateView::ReadingImage,
            PollState::ReadingText => PollStateView::ReadingText,
            PollState::Measuring(path) => PollStateView::Measuring(path@),
            PollState::Storing => PollStateView::Storing,
        }
    }
}

/// What the host reports back to the poll loop.
#[derive(Debug, Clone, PartialEq, Eq)]
pub enum Event {
    /// The pause is over.
    Tick,
    /// The formats that the clipboard offers.
    Formats(ClipboardFormats),
    /// The referenced file's absolute, symlink-resolved path; `None` when
    /// there is no data or it does not resolve.
    FilePath(Option<String>),
    /// The image's raw bytes; `None` when there is no data.
    ImageBytes(Option<Vec<u8>>),
    /// The text; `None` when there is no data.
    Text(Option<String>),
    /// The file's size in bytes; `None` when its metadata cannot be read.
    FileSize(Option<u64>),
    /// The store has dealt with the record, successfully or not.
    Stored,
}

/// The mathematical content of an [`Event`].
pub enum EventView {
    Tick,
    Formats(ClipboardFormats),
    FilePath(Option<Seq<char>>),
    ImageBytes(Option<Seq<u8>>),
    Text(Option<Seq<char>>),
    FileSize(Option<u64>),
    Stored,
}

impl View for Event {
    type V = EventView;

    open spec fn view(&self) -> EventView {
        match self {
            Event::Tick => EventView::Tick,
            Event::Formats(f) => EventView::Formats(*f),
            Event::FilePath(p) => EventView::FilePath(opt_text(*p)),
            Event::ImageBytes(b) => EventView::ImageBytes(opt_bytes(*b)),
            Event::Text(t) => EventView::Text(opt_text(*t)),
            Event::FileSize(s) => EventView::FileSize(*s),
            Event::Stored => EventView::Stored,
        }
    }
}

/// What the poll loop asks the host to do next.
#[derive(Debug, Clone, PartialEq, Eq)]
pub enum Action {
    /// Pause for [`POLL_INTERVAL_MS`], then report `Tick`.
    Sleep,
    /// List the clipboard's formats.
    ListFormats,
    /// Read the file reference and resolve it to a path.
    ReadFile,
    /// Read the image's bytes.
    ReadImage,
    /// Read the text.
    ReadText,
    /// Look up the size of the file at this path.
    Measure(String),
    /// Hand this record to the store.
    Store(RecordInput),
}

/// The mathematical content of an [`Action`].
pub enum ActionView {
    Sleep,
    ListFormats,
    ReadFile,
    ReadImage,
    ReadText,
    Measure(Seq<char>),
    Store(RecordInputView),
}

impl View for Action {
    type V = ActionView;

    open spec fn view(&self) -> ActionView {
        match self {
            Action::Sleep => ActionView::Sleep,
            Action::ListFormats => ActionView::ListFormats,
            Action::ReadFile => ActionView::ReadFile,
            Action::ReadImage => ActionView::ReadImage,
            Action::ReadText => ActionView::ReadText,
            Action::Measure(path) => ActionView::Measure(path@),
            Action::Store(record) => ActionView::Store(record@),
        }
    }
}

/// The poll loop's state: where it stands and what the guard has seen.
pub struct PollerView {
    pub state: PollStateView,
    pub last: LastSeen,
}

/// The end of a cycle: back to sleep.
pub open spec fn rest(last: LastSeen) -> (PollerView, ActionView) {
    (PollerView { state: PollStateView::Idle, last }, ActionView::Sleep)
}

/// Whether an event brings image bytes that the guard accepts, so that the
/// compressor decides what follows.
pub open spec fn brings_new_image(p: PollerView, e: EventView) -> bool {
    &&& p.state == PollStateView::ReadingImage
    &&& e matches EventView::ImageBytes(Some(bytes))
    &&& accept_outcome(p.last, SnapshotView::Image(bytes)).0 is Some
}

/// One step of the poll loop, for every event but new image bytes (see
/// [`brings_new_image`]).
///
/// A tick starts a cycle.  The cycle reads the preferred format, asks the
/// guard, looks up a file's size, and ends with a record for the store or
/// with nothing.  Missing data, a repeat, a failed lookup and an event that
/// the state does not wait for all end the cycle.  Every cycle ends in
/// `Idle` with a pause.
pub open spec fn step_outcome(p: PollerView, e: EventView) -> (PollerView, ActionView) {
    match (p.state, e) {
        (PollStateView::Idle, EventView::Tick) => (
            PollerView { state: PollStateView::Listing, ..p },
            ActionView::ListFormats,
        ),
        (PollStateView::Listing, EventView::Formats(formats)) => match preferred(formats) {
            Some(ContentKind::File) => (
                PollerView { state: PollStateView::ReadingFile, ..p },
                ActionView::ReadFile,
            ),
            Some(ContentKind::Image) => (
                PollerView { state: PollStateView::ReadingImage, ..p },
                ActionView::ReadImage,
            ),
            Some(ContentKind::Text) => (
                PollerView { state: PollStateView::ReadingText, ..p },
                ActionView::ReadText,
            ),
            None => rest(p.last),
        },
        (PollStateView::ReadingFile, EventView::FilePath(Some(path))) => {
            let (accepted, last) = accept_outcome(p.last, SnapshotView::File(path));
            if accepted is Some {
                (
                    PollerView { state: PollStateView::Measuring(path), last },
                    ActionView::Measure(path),
                )
            } else {
                rest(last)
            }
        },
        (PollStateView::Measuring(path), EventView::FileSize(Some(size))) => (
            PollerView { state: PollStateView::Storing, ..p },
            ActionView::Store(file_input(path, size)),
        ),
        (PollStateView::ReadingText, EventView::Text(Some(text))) => {
            let (accepted, last) = accept_outcome(p.last, SnapshotView::Text(text));
            if accepted is Some {
                (
                    PollerView { state: PollStateView::Storing, last },
                    ActionView::Store(text_input(text)),
                )
            } else {
                rest(last)
            }
        },
        _ => rest(p.last),
    }
}

/// Whether no thumbnail can be made of the image that came as `bytes`: the
/// bytes do not decode, or they decode to dimensions whose thumbnail has no
/// pixels.
pub open spec fn without_thumbnail(bytes: Seq<u8>) -> bool {
    match image_size(bytes) {
        None => true,
        Some((width, height)) => vanishes(width, height),
    }
}

/// `record` is what is stored for the image that came as `bytes`: its value
/// is the base64 text of the bytes, its size label names the dimensions that
/// the bytes decode to, and its thumbnail is a PNG file of the dimensions
/// that [`thumbnail_size`] gives for them.
pub open spec fn stores_image(record: RecordInputView, bytes: Seq<u8>) -> bool {
    &&& image_size(bytes) matches Some((width, height))
    &&& !vanishes(width, height)
    &&& exists|thumbnail: Seq<char>|
        is_thumbnail(
            thumbnail,
            thumbnail_size(width, height).0,
            thumbnail_size(width, height).1,
        ) && record == #[trigger] image_input(
            base64_text(bytes),
            thumbnail,
            size_text(width, height),
        )
}

/// What a step leaves behind when it was given new image bytes.  The guard
/// has recorded the image.  Bytes of which no thumbnail can be made end the
/// cycle.  For all others the codecs decide: the cycle goes on to store a
/// record for the image, or, where a codec failed, it ends as well.
pub open spec fn follows_new_image(
    last: LastSeen,
    bytes: Seq<u8>,
    after: PollerView,
    action: ActionView,
) -> bool {
    &&& after.last == accept_outcome(last, SnapshotView::Image(bytes)).1
    &&& without_thumbnail(bytes) ==> action == ActionView::Sleep
    &&& match action {
        ActionView::Sleep => after.state == PollStateView::Idle,
        ActionView::Store(record) => after.state == PollStateView::Storing && stores_image(
            record,
            bytes,
        ),
        _ => false,
    }
}

/// What a step may leave behind: the outcome of [`step_outcome`], or, for
/// new image bytes, one of the two that [`follows_new_image`] allows.
pub open spec fn step_allows(
    p: PollerView,
    e: EventView,
    after: PollerView,
    action: ActionView,
) -> bool {
    if brings_new_image(p, e) {
        follows_new_image(p.last, e->ImageBytes_0->0, after, action)
    } else {
        (after, action) == step_outcome(p, e)
    }
}

/// What follows the compressor's answer for an accepted image with this
/// value: a record for the store, or, when the image could not be
/// compressed, the end of the cycle.
pub fn after_compress(value: String, outcome: Result<(String, String), CompressError>) -> (next: (
    PollState,
    Action,
))
    ensures
        (next.0@, next.1@) == match outcome {
            Ok((thumbnail, label)) => (
                PollStateView::Storing,
                ActionView::Store(image_input(value@, thumbnail@, label@)),
            ),
            Err(_) => (PollStateView::Idle, ActionView::Sleep),
        },
{
    match outcome {
        Ok((thumbnail, label)) => (
            PollState::Storing,
            Action::Store(image_record(value, thumbnail, label)),
        ),
        Err(_) => (PollState::Idle, Action::Sleep),
    }
}

/// The poll loop as a state machine.  The host performs each action and
/// reports back with an event; the machine decides.
#[derive(Debug)]
pub struct Poller {
    state: PollState,
    guard: DedupGuard,
}

impl Poller {
    /// Where the loop stands and what its guard has seen.
    pub closed spec fn view(&self) -> PollerView {
        PollerView { state: self.state@, last: self.guard@ }
    }

    /// A sleeping loop over the given guard.
    pub fn new(guard: DedupGuard) -> (poller: Self)
        ensures
            poller@ == (PollerView { state: PollStateView::Idle, last: guard@ }),
    {
        Poller { state: PollState::Idle, guard }
    }

    /// Whether the loop is between two cycles.
    pub fn is_idle(&self) -> (idle: bool)
        ensures
            idle == (self@.state == PollStateView::Idle),
    {
        match self.state {
            PollState::Idle => true,
            _ => false,
        }
    }

    /// Ends the cycle.
    fn finish(&mut self) -> (action: Action)
        ensures
            (final(self)@, action@) == rest(old(self)@.last),
    {
        self.state = PollState::Idle;
        Action::Sleep
    }
}

/// One step of the capture cycle: takes what the host reports and says what
/// to do next; see [`step_outcome`].
///
/// New image bytes go through the compressor, whose answer decides
/// between a record for the store and the end of the cycle (see
/// [`follows_new_image`] and [`after_compress`]); the guard has recorded
/// the image either way.
pub fn check(poller: &mut Poller, event: Event) -> (action: Action)
    ensures
        step_allows(old(poller)@, event@, final(poller)@, action@),
{
    match (&poller.state, event) {
        (PollState::Idle, Event::Tick) => {
            poller.state = PollState::Listing;
            Action::ListFormats
        },
        (PollState::Listing, Event::Formats(formats)) => match pick_format(formats) {
            Some(ContentKind::File) => {
                poller.state = PollState::ReadingFile;
                Action::ReadFile
            },
            Some(ContentKind::Image) => {
                poller.state = PollState::ReadingImage;
                Action::ReadImage
            },
            Some(ContentKind::Text) => {
                poller.state = PollState::ReadingText;
                Action::ReadText
            },
            None => poller.finish(),
        },
        (PollState::ReadingFile, Event::FilePath(Some(path))) => {
            match poller.guard.accept(ContentSnapshot::File(path)) {
                Some(Accepted::File(path)) => {
                    poller.state = PollState::Measuring(path.clone());
                    Action::Measure(path)
                },
                _ => poller.finish(),
            }
        },
        (PollState::Measuring(path), Event::FileSize(Some(size))) => {
            let record = file_record(path.clone(), size);
            poller.state = PollState::Storing;
            Action::Store(record)
        },
        (PollState::ReadingText, Event::Text(Some(text))) => {
            match poller.guard.accept(ContentSnapshot::Text(text)) {
                Some(Accepted::Text(text)) => {
                    poller.state = PollState::Storing;
                    Action::Store(text_record(text))
                },
                _ => poller.finish(),
            }
        },
        (PollState::ReadingImage, Event::ImageBytes(Some(bytes))) => {
            match poller.guard.accept(ContentSnapshot::Image(bytes)) {
                Some(Accepted::Image { value, bytes }) => {
                    let outcome = optimize_img(bytes.as_slice());
                    let (state, action) = after_compress(value, outcome);
                    poller.state = state;
                    action
                },
                _ => poller.finish(),
            }
        },
        _ => poller.finish(),
    }
}

/// An upper bound on the steps that a cycle still takes from a state.
pub open spec fn steps_left(state: PollStateView) -> nat {
    match state {
        PollStateView::Idle => 0,
        PollStateView::Storing => 1,
        PollStateView::Measuring(_) => 2,
        PollStateView::ReadingImage => 2,
        PollStateView::ReadingText => 2,
        PollStateView::ReadingFile => 3,
        PollStateView::Listing => 4,
    }
}

/// Every cycle ends: each step of a cycle brings the loop closer to `Idle`,
/// whatever the event, and the loop pauses exactly when it has got there.
/// The loop itself never ends: a sleeping loop starts a new cycle on a tick,
/// and on nothing else.
pub proof fn law_cycle_ends(p: PollerView, e: EventView, after: PollerView, action: ActionView)
    requires
        step_allows(p, e, after, action),
    ensures
        p.state != PollStateView::Idle ==> steps_left(after.state) < steps_left(p.state),
        after.state == PollStateView::Idle <==> action == ActionView::Sleep,
        p.state == PollStateView::Idle ==> (after.state != PollStateView::Idle <==> e
            == EventView::Tick),
        p.state == PollStateView::Idle ==> after.last == p.last,
{
}

/// One cycle of a sleeping loop on a clipboard that offers plain text only:
/// the state after the text was read, and what the loop asks for then.
pub open spec fn text_cycle(p: PollerView, text: Seq<char>) -> (PollerView, ActionView) {
    let listing = step_outcome(p, EventView::Tick).0;
    let reading = step_outcome(
        listing,
        EventView::Formats(ClipboardFormats { file_url: false, image: false, text: true }),
    ).0;
    step_outcome(reading, EventView::Text(Some(text)))
}

/// The same text twice in a row is stored at most once: whatever the first
/// cycle did with it, the second cycle ends without a record for the store.
pub proof fn law_same_text_is_stored_once(p: PollerView, text: Seq<char>)
    requires
        p.state == PollStateView::Idle,
    ensures
        ({
            let (first, action) = text_cycle(p, text);
            let idle = step_outcome(first, EventView::Stored).0;
            &&& action == ActionView::Sleep || action == ActionView::Store(text_input(text))
            &&& idle.state == PollStateView::Idle
            &&& text_cycle(idle, text) == rest(idle.last)
        }),
{
}

/// The same image bytes twice in a row reach the compressor at most once:
/// whatever came of the first reading, the second is no new image, and the
/// cycle ends with the guard's slot as it was.
pub proof fn law_same_image_is_compressed_once(
    p: PollerView,
    bytes: Seq<u8>,
    after: PollerView,
    action: ActionView,
)
    requires
        p.state == PollStateView::ReadingImage,
        step_allows(p, EventView::ImageBytes(Some(bytes)), after, action),
    ensures
        ({
            let again = PollerView { state: PollStateView::ReadingImage, last: after.last };
            &&& !brings_new_image(again, EventView::ImageBytes(Some(bytes)))
            &&& step_outcome(again, EventView::ImageBytes(Some(bytes))) == rest(after.last)
        }),
{
}

/// The formats that a clipboard offers when it holds `reading`.
pub open spec fn formats_of(reading: ClipboardReading) -> ClipboardFormats {
    ClipboardFormats {
        file_url: !(reading.file is Absent),
        image: !(reading.image is Absent),
        text: !(reading.text is Absent),
    }
}

/// What the host reports when it performs `action` on a clipboard that holds
/// `reading`.  (Only listing and reading look at the clipboard; for any
/// other action this is the tick that follows a pause.)
pub open spec fn report(reading: ClipboardReading, action: ActionView) -> EventView {
    match action {
        ActionView::ListFormats => EventView::Formats(formats_of(reading)),
        ActionView::ReadFile => EventView::FilePath(
            match reading.file {
                Offer::Data(path) => Some(path@),
                _ => None,
            },
        ),
        ActionView::ReadImage => EventView::ImageBytes(
            match reading.image {
                Offer::Data(bytes) => Some(bytes@),
                _ => None,
            },
        ),
        ActionView::ReadText => EventView::Text(
            match reading.text {
                Offer::Data(text) => Some(text@),
                _ => None,
            },
        ),
        _ => EventView::Tick,
    }
}

/// The loop, asleep in `p`, runs one cycle on a clipboard that holds
/// `reading`, up to the guard's decision: it lists the formats, reads the
/// preferred one if there is any, and leaves `after` and `action` behind.
pub open spec fn cycle_over(
    p: PollerView,
    reading: ClipboardReading,
    after: PollerView,
    action: ActionView,
) -> bool {
    let (listing, list) = step_outcome(p, EventView::Tick);
    let (waiting, read) = step_outcome(listing, report(reading, list));
    &&& p.state == PollStateView::Idle
    &&& if read == ActionView::Sleep {
        (after, action) == (waiting, read)
    } else {
        step_allows(waiting, report(reading, read), after, action)
    }
}

/// What the loop does with a snapshot once the guard, with `last` in its
/// slot, has decided on it: a repeat ends the cycle; new text goes to the
/// store, a new file has its size looked up, and a new image goes through
/// the compressor (see [`follows_new_image`]).
pub open spec fn guarded(
    last: LastSeen,
    snapshot: SnapshotView,
    after: PollerView,
    action: ActionView,
) -> bool {
    let (accepted, seen) = accept_outcome(last, snapshot);
    match accepted {
        None => (after, action) == rest(last),
        Some(AcceptedView::Text(text)) => (after, action) == (
            PollerView { state: PollStateView::Storing, last: seen },
            ActionView::Store(text_input(text)),
        ),
        Some(AcceptedView::File(path)) => (after, action) == (
            PollerView { state: PollStateView::Measuring(path), last: seen },
            ActionView::Measure(path),
        ),
        Some(AcceptedView::Image { value, bytes }) => follows_new_image(
            last,
            bytes,
            after,
            action,
        ),
    }
}

/// The cycle reads what [`classify`] says: on a clipboard that holds
/// `reading`, a cycle hands the guard the snapshot that the reading is
/// classified as, and where there is none it ends with the slot untouched.
pub proof fn law_cycle_follows_classification(
    p: PollerView,
    reading: ClipboardReading,
    after: PollerView,
    action: ActionView,
)
    requires
        cycle_over(p, reading, after, action),
    ensures
        match classified(reading) {
            Some(snapshot) => guarded(p.last, snapshot, after, action),
            None => (after, action) == rest(p.last),
        },
{
}

} // verus!
