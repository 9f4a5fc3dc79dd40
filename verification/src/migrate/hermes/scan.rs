//! The fingerprint of a whole store: its tables one after the other, each with
//! its rows.

use crate::migrate::hermes::copy::{cells_are_read_one_for_one, copied_table, copied_tables, decode_row, decoded, TABLE_COUNT};
use crate::migrate::hermes::fingerprint::{hash_text, header_bytes, row_bytes, table_bytes, values_bytes, Fingerprint};
use crate::migrate::hermes::source::columns_result;
use crate::migrate::hermes::sql::{select_sql, select_text, SqlValue};
use crate::text::{concat_four, concat_three, texts};
use vstd::prelude::*;
use vstd::utf8::encode_utf8;

verus! {

/// What happened while a store is read for its fingerprint.
pub enum ScanEvent {
    /// The columns of the table at hand; none when there is no such table.
    Columns(Result<Vec<String>, String>),
    /// The statement that reads the table was run.
    Opened,
    /// It failed.
    OpenFailed(String),
    /// A row came; cells of it may be unreadable.
    Row(Vec<Result<SqlValue, String>>),
    /// A row could not be read.
    RowFailed(String),
    /// There are no more rows.
    End,
}

/// What to do next while a store is read for its fingerprint.
pub enum ScanStep {
    /// Ask for the columns of this table.
    Inspect(&'static str),
    /// Run this statement.
    Read(String),
    /// Read the next row.
    Fetch,
    /// The store has this fingerprint.
    Done(String),
    /// It could not be read.
    Fail(String),
}

/// What a [`ScanStep`] is.
pub enum ScanStepView {
    Inspect(Seq<char>),
    Read(Seq<char>),
    Fetch,
    Done(Seq<char>),
    Fail(Seq<char>),
}

impl View for ScanStep {
    type V = ScanStepView;

    open spec fn view(&self) -> ScanStepView {
        match self {
            ScanStep::Inspect(table) => ScanStepView::Inspect(table@),
            ScanStep::Read(sql) => ScanStepView::Read(sql@),
            ScanStep::Fetch => ScanStepView::Fetch,
            ScanStep::Done(text) => ScanStepView::Done(text@),
            ScanStep::Fail(e) => ScanStepView::Fail(e@),
        }
    }
}

/// A store being read for its fingerprint: the bytes so far, the place of the
/// table at hand and its columns.
pub struct FingerprintScan {
    pub hash: Fingerprint,
    pub place: usize,
    pub columns: Vec<String>,
}

/// What a [`FingerprintScan`] holds.
pub struct ScanView {
    pub bytes: Seq<u8>,
    pub place: int,
    pub columns: Seq<Seq<char>>,
}

impl View for FingerprintScan {
    type V = ScanView;

    open spec fn view(&self) -> ScanView {
        ScanView {
            bytes: self.hash@,
            place: self.place as int,
            columns: texts(self.columns@),
        }
    }
}

/// Whether an event can come in a state: a table is at hand, and a row has a
/// cell for each of its columns.
pub open spec fn scan_event_fits(state: ScanView, event: ScanEvent) -> bool {
    &&& 0 <= state.place < TABLE_COUNT
    &&& event matches ScanEvent::Row(cells) ==> cells@.len() == state.columns.len()
}

/// The state and the step when the table at hand is finished: the next table,
/// or the fingerprint.
pub open spec fn next_table(state: ScanView) -> (ScanView, ScanStepView) {
    let next = ScanView { place: state.place + 1, ..state };
    if next.place < TABLE_COUNT {
        (next, ScanStepView::Inspect(copied_tables()[next.place]))
    } else {
        (next, ScanStepView::Done(hash_text(state.bytes)))
    }
}

/// The state and the step after an event.
pub open spec fn scan_next(state: ScanView, event: ScanEvent) -> (ScanView, ScanStepView) {
    let table = copied_tables()[state.place];
    match event {
        ScanEvent::Columns(answer) => match columns_result(answer) {
            Err(e) => (state, ScanStepView::Fail(e)),
            Ok(columns) => if columns.len() == 0 {
                next_table(state)
            } else {
                (
                    ScanView {
                        bytes: state.bytes + table_bytes(table, columns),
                        place: state.place,
                        columns,
                    },
                    ScanStepView::Read(select_text(columns, table)),
                )
            },
        },
        ScanEvent::Opened => (state, ScanStepView::Fetch),
        ScanEvent::OpenFailed(e) => (
            state,
            ScanStepView::Fail("could not fingerprint source table "@ + table + ": "@ + e@),
        ),
        ScanEvent::Row(cells) => match decoded(
            "could not fingerprint source value in "@ + table + ": "@,
            cells@,
        ) {
            Ok(values) => (
                ScanView { bytes: state.bytes + row_bytes(values), ..state },
                ScanStepView::Fetch,
            ),
            Err(e) => (state, ScanStepView::Fail(e)),
        },
        ScanEvent::RowFailed(e) => (
            state,
            ScanStepView::Fail("could not fingerprint source row in "@ + table + ": "@ + e@),
        ),
        ScanEvent::End => next_table(state),
    }
}

impl FingerprintScan {
    /// Begins with the store at the path; the first step is to ask for the
    /// columns of the first table.
    pub fn new(path: &str) -> (r: (FingerprintScan, ScanStep))
        ensures
            r.0@ == (ScanView { bytes: header_bytes(path@), place: 0, columns: seq![] }),
            r.1@ == ScanStepView::Inspect(copied_tables()[0]),
    {
        let scan = FingerprintScan {
            hash: Fingerprint::new(path),
            place: 0,
            columns: Vec::new(),
        };
        assert(scan@.columns == Seq::<Seq<char>>::empty());
        (scan, ScanStep::Inspect(copied_table(0)))
    }

    fn finish_table(&mut self) -> (r: ScanStep)
        requires
            old(self).place < TABLE_COUNT,
        ensures
            (final(self)@, r@) == next_table(old(self)@),
    {
        self.place = self.place + 1;
        if self.place < TABLE_COUNT {
            ScanStep::Inspect(copied_table(self.place))
        } else {
            ScanStep::Done(self.hash.finish())
        }
    }

    /// The step after an event.
    pub fn step(&mut self, event: ScanEvent) -> (r: ScanStep)
        requires
            scan_event_fits(old(self)@, event),
        ensures
            (final(self)@, r@) == scan_next(old(self)@, event),
    {
        let table = copied_table(self.place);
        match event {
            ScanEvent::Columns(answer) => match answer {
                Err(e) => ScanStep::Fail(e),
                Ok(columns) => {
                    assert(texts(columns@).len() == columns@.len());
                    if columns.len() == 0 {
                        self.finish_table()
                    } else {
                        self.hash.table(table, &columns);
                        let sql = select_sql(&columns, table);
                        self.columns = columns;
                        ScanStep::Read(sql)
                    }
                },
            },
            ScanEvent::Opened => ScanStep::Fetch,
            ScanEvent::OpenFailed(e) => ScanStep::Fail(
                concat_four("could not fingerprint source table ", table, ": ", e.as_str()),
            ),
            ScanEvent::Row(cells) => {
                let what = concat_three("could not fingerprint source value in ", table, ": ");
                match decode_row(what.as_str(), cells) {
                    Ok(values) => {
                        self.hash.row(&values);
                        ScanStep::Fetch
                    },
                    Err(e) => ScanStep::Fail(e),
                }
            },
            ScanEvent::RowFailed(e) => ScanStep::Fail(
                concat_four("could not fingerprint source row in ", table, ": ", e.as_str()),
            ),
            ScanEvent::End => self.finish_table(),
        }
    }
}

/// A fingerprint is given only behind the last table, and it is that of all the
/// bytes; what has entered it stays in it.
pub proof fn fingerprints_cover_every_table(state: ScanView, event: ScanEvent)
    requires
        scan_event_fits(state, event),
    ensures
        scan_next(state, event).1 matches ScanStepView::Done(text) ==> {
            &&& state.place == TABLE_COUNT - 1
            &&& text == hash_text(scan_next(state, event).0.bytes)
        },
        state.bytes.is_prefix_of(scan_next(state, event).0.bytes),
{
    assert(state.bytes.is_prefix_of(scan_next(state, event).0.bytes));
}

/// A store is hashed table by table in the order of copying: a table with
/// columns is read, one without is passed over, and after the last the hash of
/// all that was read is given.
pub proof fn tables_are_hashed_in_order(state: ScanView, names: Vec<String>)
    requires
        0 <= state.place < TABLE_COUNT,
    ensures
        names@.len() > 0 ==> ({
            let (next, step) = scan_next(state, ScanEvent::Columns(Ok(names)));
            &&& next.place == state.place
            &&& next.columns == texts(names@)
            &&& next.bytes == state.bytes + table_bytes(copied_tables()[state.place], texts(names@))
            &&& step is Read
        }),
        names@.len() == 0 ==> scan_next(state, ScanEvent::Columns(Ok(names))).0.bytes
            == state.bytes && scan_next(state, ScanEvent::Columns(Ok(names))).0.place == state.place
            + 1,
        scan_next(state, ScanEvent::End).0.bytes == state.bytes,
        state.place + 1 < TABLE_COUNT ==> scan_next(state, ScanEvent::End) == (
            ScanView { place: state.place + 1, ..state },
            ScanStepView::Inspect(copied_tables()[state.place + 1]),
        ),
        state.place + 1 == TABLE_COUNT ==> scan_next(state, ScanEvent::End).1
            == ScanStepView::Done(hash_text(state.bytes)),
        scan_next(state, ScanEvent::Opened) == (state, ScanStepView::Fetch),
{
    assert(texts(names@).len() == names@.len());
}

/// Every row that is read is hashed behind its mark, value by value; one that
/// cannot be read stops the hashing, with its cause.
pub proof fn rows_are_hashed_as_read(
    state: ScanView,
    cells: Vec<Result<SqlValue, String>>,
    e: String,
)
    requires
        0 <= state.place < TABLE_COUNT,
    ensures
        (forall|i: int| 0 <= i < cells@.len() ==> (#[trigger] cells@[i]) is Ok) ==> scan_next(
            state,
            ScanEvent::Row(cells),
        ) == (
            ScanView {
                bytes: state.bytes + (encode_utf8("\0row\0"@) + values_bytes(
                    Seq::new(cells@.len(), |i: int| cells@[i]->Ok_0@),
                )),
                ..state
            },
            ScanStepView::Fetch,
        ),
        (exists|i: int| 0 <= i < cells@.len() && (#[trigger] cells@[i]) is Err) ==> scan_next(
            state,
            ScanEvent::Row(cells),
        ).1 is Fail,
        scan_next(state, ScanEvent::OpenFailed(e)).1 matches ScanStepView::Fail(message)
            && e@.is_suffix_of(message),
        scan_next(state, ScanEvent::RowFailed(e)).1 matches ScanStepView::Fail(message)
            && e@.is_suffix_of(message),
        scan_next(state, ScanEvent::Columns(Err(e))).1 == ScanStepView::Fail(e@),
{
    let what = "could not fingerprint source value in "@ + copied_tables()[state.place] + ": "@;
    cells_are_read_one_for_one(what, cells@);
    if let Ok(values) = decoded(what, cells@) {
        assert(values == Seq::new(cells@.len(), |i: int| cells@[i]->Ok_0@));
    }
}

} // verus!
