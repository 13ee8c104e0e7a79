//! The ledger of completed sessions and its persisted form: delimited text
//! that starts with a header row and holds one session in each row after it.

use crate::error::Error;
use crate::session::{RecordView, SessionRecord};
use crate::timestamp::{parsed, Timestamp};
use vstd::prelude::*;

verus! {

/// The rows that a `csv::Reader` finds in `text` when it is built to treat no
/// row as a header and to accept rows of any length: for each row in turn its
/// fields, or `None` where the reader reports an error for the row.
pub uninterp spec fn csv_rows(text: Seq<char>) -> Seq<Option<Seq<Seq<char>>>>;

/// The text that a `csv::Writer` with the default configuration writes for one
/// record of `fields`, terminator included, or `None` where the writer reports
/// an error.
pub uninterp spec fn csv_line(fields: Seq<Seq<char>>) -> Option<Seq<char>>;

/// Reads `text` with a `csv::Reader` built by `csv::ReaderBuilder` with
/// `has_headers(false)` and `flexible(true)`, and collects what its
/// `into_records` yields. The contract only gives that outcome its name,
/// `csv_rows`.
#[verifier::external_body]
fn read_csv(text: &str) -> (rows: Vec<Option<Vec<String>>>)
    ensures
        rows.deep_view() == csv_rows(text@),
{
    csv::ReaderBuilder::new()
        .has_headers(false)
        .flexible(true)
        .from_reader(text.as_bytes())
        .into_records()
        .map(|row| row.ok().map(|fields| fields.iter().map(String::from).collect()))
        .collect()
}

/// Writes `fields` as one record with `csv::Writer::write_record` into a
/// writer made by `csv::Writer::from_writer` over an empty buffer, and takes
/// the buffer back with `into_inner`. The contract only gives that outcome its
/// name, `csv_line`.
#[verifier::external_body]
fn write_csv(fields: &Vec<String>) -> (line: Option<String>)
    ensures
        line.deep_view() == csv_line(fields.deep_view()),
{
    let mut writer = csv::Writer::from_writer(Vec::new());
    writer.write_record(fields).ok()?;
    String::from_utf8(writer.into_inner().ok()?).ok()
}

/// The fields of the header row.
pub open spec fn header_fields() -> Seq<Seq<char>> {
    seq!["area"@, "start"@, "end"@]
}

/// The fields of the row that holds `record`.
pub open spec fn record_fields(record: RecordView) -> Seq<Seq<char>> {
    seq![record.area, record.start.text, record.end.text]
}

/// The session that a row stands for, if it stands for one: it has three
/// fields, of which the second and third are timestamps in order.
pub open spec fn row_record(row: Option<Seq<Seq<char>>>) -> Option<RecordView> {
    match row {
        Some(fields) => if fields.len() == 3 {
            match (parsed(fields[1]), parsed(fields[2])) {
                (Some(start), Some(end)) => if start.instant <= end.instant {
                    Some(RecordView { area: fields[0], start, end })
                } else {
                    None
                },
                _ => None,
            }
        } else {
            None
        },
        None => None,
    }
}

/// The reading of rows that picks the session of each.
pub open spec fn picking() -> spec_fn(Option<Seq<Seq<char>>>) -> Option<RecordView> {
    |row: Option<Seq<Seq<char>>>| row_record(row)
}

/// Whether the first of `rows` is the header row.
pub open spec fn has_header(rows: Seq<Option<Seq<Seq<char>>>>) -> bool {
    rows.len() > 0 && rows[0] == Some(header_fields())
}

/// The sessions in `rows`, in their order: those of the rows after the header
/// row that stand for one. Without the header row there is none.
pub open spec fn sessions_in(rows: Seq<Option<Seq<Seq<char>>>>) -> Seq<RecordView> {
    if has_header(rows) {
        rows.skip(1).filter_map(picking())
    } else {
        Seq::empty()
    }
}

/// How many of `rows` are passed over when the sessions are read: every row
/// after the header row that stands for no session, or every row where the
/// header row is missing.
pub open spec fn passed_over(rows: Seq<Option<Seq<Seq<char>>>>) -> int {
    if has_header(rows) {
        rows.len() - 1 - sessions_in(rows).len()
    } else {
        rows.len() as int
    }
}

/// Whether `rows` are those of a sound ledger: none of them is passed over.
/// So there is none at all, or the header row comes first and every row after
/// it stands for a session.
pub open spec fn sound(rows: Seq<Option<Seq<Seq<char>>>>) -> bool {
    passed_over(rows) == 0
}

/// The persisted ledger after a row is added to `existing`, where `header`
/// and `row` are what writing the header row and the new row gave. The
/// header row comes first where nothing is persisted yet, and what is
/// persisted stays as it is. `None` where a row could not be written.
pub open spec fn text_with(
    existing: Option<Seq<char>>,
    header: Option<Seq<char>>,
    row: Option<Seq<char>>,
) -> Option<Seq<char>> {
    match (existing, header, row) {
        (Some(text), _, Some(row)) => Some(text + row),
        (None, Some(header), Some(row)) => Some(header + row),
        _ => None,
    }
}

/// The views of a list of records.
pub open spec fn views_of(records: Seq<SessionRecord>) -> Seq<RecordView> {
    records.map_values(|record: SessionRecord| record@)
}

/// Whether no session among `records` ends before it starts.
pub open spec fn all_wf(records: Seq<RecordView>) -> bool {
    forall|i: int| 0 <= i < records.len() ==> (#[trigger] records[i]).wf()
}

/// The header row as text.
pub fn header_line() -> (line: Option<String>)
    ensures
        line.deep_view() == csv_line(header_fields()),
{
    let mut fields: Vec<String> = Vec::new();
    fields.push("area".to_owned());
    fields.push("start".to_owned());
    fields.push("end".to_owned());
    assert(fields.deep_view() =~= header_fields());
    write_csv(&fields)
}

/// The row of `record` as text.
pub fn record_line(record: &SessionRecord) -> (line: Option<String>)
    ensures
        line.deep_view() == csv_line(record_fields(record@)),
{
    let mut fields: Vec<String> = Vec::new();
    fields.push(record.area().to_owned());
    fields.push(record.start().as_str().to_owned());
    fields.push(record.end().as_str().to_owned());
    assert(fields.deep_view() =~= record_fields(record@));
    write_csv(&fields)
}

/// The persisted ledger after a row is added to `existing`, where `header`
/// and `row` are what writing the header row and the new row gave.
pub fn join_text(existing: Option<&str>, header: Option<String>, row: Option<String>) -> (result:
    Result<String, Error>)
    ensures
        match text_with(existing.deep_view(), header.deep_view(), row.deep_view()) {
            Some(text) => result is Ok && result->Ok_0@ == text,
            None => result == Err::<String, Error>(Error::Io),
        },
{
    match (existing, header, row) {
        (Some(text), _, Some(row)) => Ok(text.to_owned().concat(row.as_str())),
        (None, Some(header), Some(row)) => Ok(header.concat(row.as_str())),
        _ => Err(Error::Io),
    }
}

/// The persisted ledger with `record` added after `existing`.
pub fn append_text(existing: Option<&str>, record: &SessionRecord) -> (result: Result<
    String,
    Error,
>)
    ensures
        match text_with(
            existing.deep_view(),
            csv_line(header_fields()),
            csv_line(record_fields(record@)),
        ) {
            Some(text) => result is Ok && result->Ok_0@ == text,
            None => result == Err::<String, Error>(Error::Io),
        },
{
    join_text(existing, header_line(), record_line(record))
}

/// Whether `row` is the header row.
fn is_header(row: &Option<Vec<String>>) -> (answer: bool)
    ensures
        answer == (row.deep_view() == Some(header_fields())),
{
    match row {
        Some(fields) => {
            if fields.len() != 3 {
                assert(fields.deep_view().len() != header_fields().len());
                return false;
            }
            let same = fields[0] == "area".to_owned() && fields[1] == "start".to_owned()
                && fields[2] == "end".to_owned();
            proof {
                let seen = fields.deep_view();
                assert(seen[0] == fields@[0]@ && seen[1] == fields@[1]@ && seen[2] == fields@[2]@);
                if same {
                    assert(seen =~= header_fields());
                } else {
                    assert(seen[0] != header_fields()[0] || seen[1] != header_fields()[1]
                        || seen[2] != header_fields()[2]);
                }
            }
            same
        },
        None => false,
    }
}

/// The session that `row` stands for, if it stands for one.
pub fn read_row(row: &Option<Vec<String>>) -> (record: Option<SessionRecord>)
    ensures
        match record {
            Some(record) => row_record(row.deep_view()) == Some(record@),
            None => row_record(row.deep_view()) is None,
        },
{
    match row {
        Some(fields) => {
            if fields.len() != 3 {
                return None;
            }
            proof {
                let seen = fields.deep_view();
                assert(seen[0] == fields@[0]@ && seen[1] == fields@[1]@ && seen[2] == fields@[2]@);
            }
            let start = match Timestamp::parse(fields[1].as_str()) {
                Ok(start) => start,
                Err(_) => {
                    return None;
                },
            };
            let end = match Timestamp::parse(fields[2].as_str()) {
                Ok(end) => end,
                Err(_) => {
                    return None;
                },
            };
            match SessionRecord::new(fields[0].as_str(), start, end) {
                Ok(record) => Some(record),
                Err(_) => None,
            }
        },
        None => None,
    }
}

/// The completed sessions, oldest first. Sessions are only ever added at the
/// end; none is changed or taken out.
#[derive(Debug, PartialEq, Eq)]
pub struct SessionLedger {
    records: Vec<SessionRecord>,
}

impl View for SessionLedger {
    type V = Seq<RecordView>;

    closed spec fn view(&self) -> Seq<RecordView> {
        views_of(self.records@)
    }
}

impl SessionLedger {
    /// What holds of every ledger: it holds records only.
    #[verifier::type_invariant]
    pub closed spec fn inv(self) -> bool {
        forall|i: int| 0 <= i < self.records@.len() ==> (#[trigger] self.records@[i]).inv()
    }

    /// No session in a ledger ends before it starts.
    pub proof fn lemma_wf(self)
        requires
            self.inv(),
        ensures
            all_wf(self@),
    {
        assert forall|i: int| 0 <= i < self@.len() implies (#[trigger] self@[i]).wf() by {
            self.records@[i].lemma_wf();
        }
    }

    /// The ledger without sessions.
    pub fn new() -> (ledger: SessionLedger)
        ensures
            ledger@ == Seq::<RecordView>::empty(),
    {
        let ledger = SessionLedger { records: Vec::new() };
        assert(ledger@ =~= Seq::<RecordView>::empty());
        ledger
    }

    /// Adds `record` after the sessions that are there.
    pub fn append(&mut self, record: SessionRecord)
        ensures
            final(self)@ == old(self)@.push(record@),
            all_wf(final(self)@),
    {
        proof {
            use_type_invariant(&*self);
            use_type_invariant(&record);
        }
        let mut records: Vec<SessionRecord> = Vec::new();
        core::mem::swap(&mut self.records, &mut records);
        records.push(record);
        core::mem::swap(&mut self.records, &mut records);
        proof {
            assert(self@ =~= old(self)@.push(record@));
            self.lemma_wf();
        }
    }

    /// The sessions, oldest first.
    pub fn records(&self) -> (records: &Vec<SessionRecord>)
        ensures
            views_of(records@) == self@,
            all_wf(self@),
    {
        proof {
            use_type_invariant(self);
            self.lemma_wf();
        }
        &self.records
    }

    /// How many sessions there are.
    pub fn len(&self) -> (count: usize)
        ensures
            count == self@.len(),
    {
        self.records.len()
    }

    /// The ledger that `rows` hold, and how many of them are passed over
    /// because they stand for no session.
    pub fn from_rows(rows: &Vec<Option<Vec<String>>>) -> (found: (SessionLedger, usize))
        ensures
            found.0@ == sessions_in(rows.deep_view()),
            found.1 == passed_over(rows.deep_view()),
    {
        let mut records: Vec<SessionRecord> = Vec::new();
        if rows.len() == 0 || !is_header(&rows[0]) {
            let ledger = SessionLedger { records };
            assert(ledger@ =~= Seq::<RecordView>::empty());
            return (ledger, rows.len());
        }
        let ghost body = rows.deep_view().skip(1);
        let mut skipped: usize = 0;
        let mut i: usize = 1;
        while i < rows.len()
            invariant
                1 <= i <= rows.len(),
                body == rows.deep_view().skip(1),
                views_of(records@) == body.take(i - 1).filter_map(picking()),
                skipped + records.len() == i - 1,
                forall|j: int| 0 <= j < records@.len() ==> (#[trigger] records@[j]).inv(),
            decreases rows.len() - i,
        {
            proof {
                body.lemma_filter_map_take_succ(picking(), i - 1);
                assert(body[i - 1] == rows@[i as int].deep_view());
            }
            let ghost shorter = views_of(records@);
            match read_row(&rows[i]) {
                Some(record) => {
                    proof {
                        use_type_invariant(&record);
                    }
                    records.push(record);
                    assert(views_of(records@) =~= shorter + seq![record@]);
                },
                None => {
                    skipped += 1;
                },
            }
            i += 1;
        }
        assert(body.take(i - 1) =~= body);
        (SessionLedger { records }, skipped)
    }

    /// Reads a persisted ledger and counts the rows that it passes over
    /// because they stand for no session.
    pub fn survey(text: &str) -> (found: (SessionLedger, usize))
        ensures
            found.0@ == sessions_in(csv_rows(text@)),
            found.1 == passed_over(csv_rows(text@)),
    {
        let rows = read_csv(text);
        SessionLedger::from_rows(&rows)
    }

    /// Reads a persisted ledger and passes over every row that stands for no
    /// session.
    pub fn load_all(text: &str) -> (ledger: SessionLedger)
        ensures
            ledger@ == sessions_in(csv_rows(text@)),
    {
        SessionLedger::survey(text).0
    }

    /// Reads a persisted ledger that has to be sound: a row that stands for no
    /// session is an error.
    pub fn load_all_strict(text: &str) -> (result: Result<SessionLedger, Error>)
        ensures
            match result {
                Ok(ledger) => sound(csv_rows(text@)) && ledger@ == sessions_in(csv_rows(text@)),
                Err(error) => error == Error::Parse && !sound(csv_rows(text@)),
            },
    {
        let (ledger, skipped) = SessionLedger::survey(text);
        if skipped == 0 {
            Ok(ledger)
        } else {
            Err(Error::Parse)
        }
    }
}

} // verus!
