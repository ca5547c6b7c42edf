//! Append-slot allocation: obtaining a trustworthy schema, computing the next
//! row, and advancing the row pointer, as one run of questions and replies.
//!
//! The library decides; its user acts. A run starts with
//! [`get_excel_schema_for_profile`] or [`append_to_excel_fast`], which hand
//! back the first [`Step`]. The user performs the step (stats the file, asks
//! the store, scans, writes the row) and reports the result as a [`Reply`] to
//! [`Run::advance`], until the step is [`Step::Done`].
//!
//! A schema is looked for in this order: the mirror, if its entry matches the
//! live file's modification time; the store, whose schema is trusted as it
//! stands; a fresh scan, which is saved to the store. The row is written
//! before the pointer is advanced, and the mirror is updated last.

use vstd::prelude::*;
use crate::cache::{get_cached_schema, invalidate_cache, set_cached_schema, SchemaCache};
use crate::fields::{
    clone_pairs, compute_row_values, pairs_view, record_pairs, record_view, row_values,
    ExcelProfile, InvoiceData,
};
use crate::models::{ExcelSchema, ExcelSchemaView};
use crate::scanner::{scan_error_message, scan_error_text, ScanError};

verus! {

/// Why an append, or a request for a schema, failed.
#[derive(Clone, Copy, Debug, PartialEq, Eq, Structural)]
pub enum AppendError {
    /// There is no such profile.
    ProfileNotFound,
    /// No schema could be had: the scan failed for the reason given, or, with
    /// no reason, the fresh schema could not be saved or leaves no row free.
    SchemaUnavailable(Option<ScanError>),
    /// The row could not be written. No row pointer has moved.
    WriteFailed,
    /// The row was written, but the row pointer could not be persisted: a
    /// retry may write the row a second time.
    StoreUpdateFailed,
}

/// The short message shown for a failed append or request for a schema. A
/// failed pointer update has a message of its own, since a retry may then
/// write the row a second time.
pub open spec fn append_error_text(error: AppendError) -> Seq<char> {
    match error {
        AppendError::ProfileNotFound => "Profile not found"@,
        AppendError::SchemaUnavailable(Some(cause)) => scan_error_text(cause),
        AppendError::SchemaUnavailable(None) => "Schema not available"@,
        AppendError::WriteFailed => "Could not write to the Excel file. Close it in Excel and try again."@,
        AppendError::StoreUpdateFailed => "The row was written, but its position could not be saved. Appending again may write it twice."@,
    }
}

/// Says in a few words why an append or a request for a schema failed.
pub fn append_error_message(error: AppendError) -> (message: String)
    ensures
        message@ == append_error_text(error),
{
    match error {
        AppendError::ProfileNotFound => "Profile not found".to_owned(),
        AppendError::SchemaUnavailable(Some(cause)) => scan_error_message(cause),
        AppendError::SchemaUnavailable(None) => "Schema not available".to_owned(),
        AppendError::WriteFailed => "Could not write to the Excel file. Close it in Excel and try again.".to_owned(),
        AppendError::StoreUpdateFailed => "The row was written, but its position could not be saved. Appending again may write it twice.".to_owned(),
    }
}

/// What a run is waiting for.
#[derive(Clone, Copy, Debug, PartialEq, Eq, Structural)]
pub enum Phase {
    /// The live file's modification time.
    AwaitFileState,
    /// The schema that the store holds.
    AwaitStore,
    /// The result of a scan.
    AwaitScan,
    /// Whether the scanned schema was saved.
    AwaitSave,
    /// Whether the row was written.
    AwaitWrite,
    /// Whether the row pointer was persisted.
    AwaitAdvance,
    /// Nothing: the run is over.
    Finished,
}

/// One run: a request for a profile's schema, or an append to it.
#[derive(Debug)]
pub struct Run {
    pub profile_id: i64,
    pub appending: bool,
    pub phase: Phase,
    pub held: Option<ExcelSchema>,
    pub row: u32,
    pub mapping: Vec<(String, String)>,
    pub record: Vec<(String, String)>,
}

/// What the user of the library reports back.
#[derive(Debug)]
pub enum Reply {
    /// The modification time of the profile's file in seconds, `None` where
    /// the file does not exist.
    FileState(Option<u64>),
    /// The schema that the store holds for the profile, if any.
    Loaded(Option<ExcelSchema>),
    /// The result of scanning the profile's file.
    Scanned(Result<ExcelSchema, ScanError>),
    /// Whether the store saved the schema.
    Saved(bool),
    /// Whether the writer wrote the row and flushed the file.
    Written(bool),
    /// Whether the store persisted the new row pointer.
    Advanced(bool),
}

/// How a run ended.
#[derive(Debug)]
pub enum Outcome {
    /// The schema asked for.
    Schema(ExcelSchema),
    /// The number of the row that was appended.
    Row(u32),
    /// The failure.
    Failed(AppendError),
}

/// What the user of the library is to do next.
#[derive(Debug)]
pub enum Step {
    /// Report the modification time of the profile's file.
    StatFile,
    /// Load the profile's schema from the store.
    LoadSchema,
    /// Scan the profile's file.
    Scan,
    /// Save this schema to the store.
    SaveSchema(ExcelSchema),
    /// Write these cells into this row, and flush the file.
    WriteRow { row: u32, values: Vec<(String, String)> },
    /// Persist the new row pointer and log the change.
    AdvancePointer { new_next_free_row: u32, old_next_free_row: u32 },
    /// Nothing more: the run is over.
    Done(Outcome),
}

/// The mathematical content of a [`Run`].
pub struct RunView {
    pub profile_id: i64,
    pub appending: bool,
    pub phase: Phase,
    pub held: Option<ExcelSchemaView>,
    pub row: u32,
    pub mapping: Seq<(Seq<char>, Seq<char>)>,
    pub record: Seq<(Seq<char>, Seq<char>)>,
}

/// The mathematical content of a [`Reply`].
pub enum ReplyView {
    FileState(Option<u64>),
    Loaded(Option<ExcelSchemaView>),
    Scanned(Result<ExcelSchemaView, ScanError>),
    Saved(bool),
    Written(bool),
    Advanced(bool),
}

/// The mathematical content of an [`Outcome`].
pub enum OutcomeView {
    Schema(ExcelSchemaView),
    Row(u32),
    Failed(AppendError),
}

/// The mathematical content of a [`Step`].
pub enum StepView {
    StatFile,
    LoadSchema,
    Scan,
    SaveSchema(ExcelSchemaView),
    WriteRow { row: u32, values: Seq<(Seq<char>, Seq<char>)> },
    AdvancePointer { new_next_free_row: u32, old_next_free_row: u32 },
    Done(OutcomeView),
}

/// The content of an optional schema.
pub open spec fn opt_schema(o: Option<ExcelSchema>) -> Option<ExcelSchemaView> {
    match o {
        Some(s) => Some(s@),
        None => None,
    }
}

impl View for Run {
    type V = RunView;

    open spec fn view(&self) -> RunView {
        RunView {
            profile_id: self.profile_id,
            appending: self.appending,
            phase: self.phase,
            held: opt_schema(self.held),
            row: self.row,
            mapping: pairs_view(self.mapping@),
            record: pairs_view(self.record@),
        }
    }
}

impl View for Reply {
    type V = ReplyView;

    open spec fn view(&self) -> ReplyView {
        match *self {
            Reply::FileState(m) => ReplyView::FileState(m),
            Reply::Loaded(s) => ReplyView::Loaded(opt_schema(s)),
            Reply::Scanned(Ok(s)) => ReplyView::Scanned(Ok(s@)),
            Reply::Scanned(Err(e)) => ReplyView::Scanned(Err(e)),
            Reply::Saved(b) => ReplyView::Saved(b),
            Reply::Written(b) => ReplyView::Written(b),
            Reply::Advanced(b) => ReplyView::Advanced(b),
        }
    }
}

impl View for Outcome {
    type V = OutcomeView;

    open spec fn view(&self) -> OutcomeView {
        match *self {
            Outcome::Schema(s) => OutcomeView::Schema(s@),
            Outcome::Row(r) => OutcomeView::Row(r),
            Outcome::Failed(e) => OutcomeView::Failed(e),
        }
    }
}

impl View for Step {
    type V = StepView;

    open spec fn view(&self) -> StepView {
        match *self {
            Step::StatFile => StepView::StatFile,
            Step::LoadSchema => StepView::LoadSchema,
            Step::Scan => StepView::Scan,
            Step::SaveSchema(s) => StepView::SaveSchema(s@),
            Step::WriteRow { row, values } => StepView::WriteRow { row, values: pairs_view(values@) },
            Step::AdvancePointer { new_next_free_row, old_next_free_row } => StepView::AdvancePointer {
                new_next_free_row,
                old_next_free_row,
            },
            Step::Done(o) => StepView::Done(o@),
        }
    }
}

/// A run, the mirror and the step to take: where one turn of a run leads.
pub struct Turn {
    pub run: RunView,
    pub cache: Map<i64, ExcelSchemaView>,
    pub step: StepView,
}

impl RunView {
    /// What a run holds fits the phase it is in.
    pub open spec fn wf(self) -> bool {
        &&& self.phase == Phase::AwaitSave ==> self.held is Some
        &&& self.phase == Phase::AwaitWrite || self.phase == Phase::AwaitAdvance ==> self.appending
            && self.row < u32::MAX
    }

    /// The reply answers what the run is waiting for.
    pub open spec fn accepts(self, reply: ReplyView) -> bool {
        match self.phase {
            Phase::AwaitFileState => reply is FileState,
            Phase::AwaitStore => reply is Loaded,
            Phase::AwaitScan => reply is Scanned,
            Phase::AwaitSave => reply is Saved,
            Phase::AwaitWrite => reply is Written,
            Phase::AwaitAdvance => reply is Advanced,
            Phase::Finished => false,
        }
    }

    /// The run, over.
    pub open spec fn finished(self) -> RunView {
        RunView { phase: Phase::Finished, held: None, ..self }
    }

    /// The run, waiting for something else.
    pub open spec fn waiting(self, phase: Phase) -> RunView {
        RunView { phase, held: None, ..self }
    }
}

/// A cached schema is valid exactly while the live file exists and its
/// modification time equals the one recorded in the schema.
pub open spec fn cache_valid(live_mtime: Option<u64>, cached: ExcelSchemaView) -> bool {
    live_mtime == Some(cached.file_mtime)
}

/// The schema after one appended row: the row is the last data row, the next
/// free row follows it; nothing else changes.
pub open spec fn after_append(schema: ExcelSchemaView, row: u32) -> ExcelSchemaView {
    ExcelSchemaView { last_data_row: row, next_free_row: (row + 1) as u32, ..schema }
}

/// A failed end.
pub open spec fn failed(run: RunView, cache: Map<i64, ExcelSchemaView>, error: AppendError) -> Turn {
    Turn { run: run.finished(), cache, step: StepView::Done(OutcomeView::Failed(error)) }
}

/// The turn taken once a trustworthy schema is at hand: a request for the
/// schema ends with it; an append goes on to write the schema's next free row.
pub open spec fn ready(run: RunView, cache: Map<i64, ExcelSchemaView>, schema: ExcelSchemaView) -> Turn {
    if !run.appending {
        Turn { run: run.finished(), cache, step: StepView::Done(OutcomeView::Schema(schema)) }
    } else if schema.next_free_row == u32::MAX {
        failed(run, cache, AppendError::SchemaUnavailable(None))
    } else {
        Turn {
            run: RunView { row: schema.next_free_row, ..run.waiting(Phase::AwaitWrite) },
            cache,
            step: StepView::WriteRow {
                row: schema.next_free_row,
                values: row_values(schema.headers, run.mapping, run.record),
            },
        }
    }
}

/// The first turn of a request for a profile's schema.
pub open spec fn begin_schema(
    cache: Map<i64, ExcelSchemaView>,
    profile_id: i64,
    profile_found: bool,
    force_refresh: bool,
) -> Turn {
    let run = RunView {
        profile_id,
        appending: false,
        phase: Phase::Finished,
        held: None,
        row: 0,
        mapping: Seq::empty(),
        record: Seq::empty(),
    };
    if !profile_found {
        failed(run, cache, AppendError::ProfileNotFound)
    } else if force_refresh {
        Turn { run: run.waiting(Phase::AwaitScan), cache, step: StepView::Scan }
    } else if cache.contains_key(profile_id) {
        Turn { run: run.waiting(Phase::AwaitFileState), cache, step: StepView::StatFile }
    } else {
        Turn { run: run.waiting(Phase::AwaitStore), cache, step: StepView::LoadSchema }
    }
}

/// The first turn of an append.
pub open spec fn begin_append(
    cache: Map<i64, ExcelSchemaView>,
    profile_id: i64,
    mapping: Option<Seq<(Seq<char>, Seq<char>)>>,
    record: Seq<(Seq<char>, Seq<char>)>,
) -> Turn {
    let run = RunView {
        profile_id,
        appending: true,
        phase: Phase::Finished,
        held: None,
        row: 0,
        mapping: match mapping {
            Some(m) => m,
            None => Seq::empty(),
        },
        record,
    };
    if mapping is None {
        failed(run, cache, AppendError::ProfileNotFound)
    } else if cache.contains_key(profile_id) {
        Turn { run: run.waiting(Phase::AwaitFileState), cache, step: StepView::StatFile }
    } else {
        Turn { run: run.waiting(Phase::AwaitStore), cache, step: StepView::LoadSchema }
    }
}

/// Where a reply leads: the next state of the run and of the mirror, and the
/// step to take.
pub open spec fn next(run: RunView, cache: Map<i64, ExcelSchemaView>, reply: ReplyView) -> Turn {
    let id = run.profile_id;
    match reply {
        ReplyView::FileState(live) => {
            if cache.contains_key(id) && cache_valid(live, cache[id]) {
                ready(run, cache, cache[id])
            } else {
                Turn {
                    run: run.waiting(Phase::AwaitStore),
                    cache: cache.remove(id),
                    step: StepView::LoadSchema,
                }
            }
        },
        ReplyView::Loaded(Some(schema)) => ready(run, cache.insert(id, schema), schema),
        ReplyView::Loaded(None) => Turn {
            run: run.waiting(Phase::AwaitScan),
            cache,
            step: StepView::Scan,
        },
        ReplyView::Scanned(Ok(schema)) => Turn {
            run: RunView { held: Some(schema), ..run.waiting(Phase::AwaitSave) },
            cache,
            step: StepView::SaveSchema(schema),
        },
        ReplyView::Scanned(Err(e)) => failed(run, cache, AppendError::SchemaUnavailable(Some(e))),
        ReplyView::Saved(true) => ready(run, cache.insert(id, run.held->0), run.held->0),
        ReplyView::Saved(false) => failed(run, cache, AppendError::SchemaUnavailable(None)),
        ReplyView::Written(true) => Turn {
            run: run.waiting(Phase::AwaitAdvance),
            cache,
            step: StepView::AdvancePointer {
                new_next_free_row: (run.row + 1) as u32,
                old_next_free_row: run.row,
            },
        },
        ReplyView::Written(false) => failed(run, cache, AppendError::WriteFailed),
        ReplyView::Advanced(true) => Turn {
            run: run.finished(),
            cache: if cache.contains_key(id) {
                cache.insert(id, after_append(cache[id], run.row))
            } else {
                cache
            },
            step: StepView::Done(OutcomeView::Row(run.row)),
        },
        ReplyView::Advanced(false) => failed(run, cache, AppendError::StoreUpdateFailed),
    }
}

/// Decides whether a cached schema still reflects the live file: it does
/// exactly while the file exists and its modification time, in seconds,
/// equals the one recorded in the schema.
pub fn is_cache_valid(live_mtime: Option<u64>, cached: &ExcelSchema) -> (valid: bool)
    ensures
        valid == cache_valid(live_mtime, cached@),
{
    match live_mtime {
        Some(mtime) => mtime == cached.file_mtime,
        None => false,
    }
}

fn fail(run: Run, error: AppendError) -> (r: (Run, Step))
    ensures
        r.0@ == run@.finished(),
        r.1@ == StepView::Done(OutcomeView::Failed(error)),
{
    let Run { profile_id, appending, phase: _, held: _, row, mapping, record } = run;
    (
        Run { profile_id, appending, phase: Phase::Finished, held: None, row, mapping, record },
        Step::Done(Outcome::Failed(error)),
    )
}

fn wait(run: Run, phase: Phase) -> (r: Run)
    ensures
        r@ == run@.waiting(phase),
{
    let Run { profile_id, appending, phase: _, held: _, row, mapping, record } = run;
    Run { profile_id, appending, phase, held: None, row, mapping, record }
}

fn resolve(run: Run, schema: ExcelSchema) -> (r: (Run, Step))
    ensures
        r.0@ == ready(run@, Map::empty(), schema@).run,
        r.1@ == ready(run@, Map::empty(), schema@).step,
        r.0@.wf(),
{
    if !run.appending {
        let Run { profile_id, appending, phase: _, held: _, row, mapping, record } = run;
        (
            Run { profile_id, appending, phase: Phase::Finished, held: None, row, mapping, record },
            Step::Done(Outcome::Schema(schema)),
        )
    } else if schema.next_free_row == u32::MAX {
        fail(run, AppendError::SchemaUnavailable(None))
    } else {
        let values = compute_row_values(&schema.headers, &run.mapping, &run.record);
        let Run { profile_id, appending, phase: _, held: _, row: _, mapping, record } = run;
        (
            Run {
                profile_id,
                appending,
                phase: Phase::AwaitWrite,
                held: None,
                row: schema.next_free_row,
                mapping,
                record,
            },
            Step::WriteRow { row: schema.next_free_row, values },
        )
    }
}

/// Starts a request for a profile's schema. A forced refresh goes straight
/// to a scan; otherwise the mirror is asked first, then the store.
pub fn get_excel_schema_for_profile(
    cache: &SchemaCache,
    profile_id: i64,
    profile_found: bool,
    force_refresh: bool,
) -> (r: (Run, Step))
    ensures
        r.0@ == begin_schema(cache@, profile_id, profile_found, force_refresh).run,
        r.1@ == begin_schema(cache@, profile_id, profile_found, force_refresh).step,
        r.0@.wf(),
{
    let run = Run {
        profile_id,
        appending: false,
        phase: Phase::Finished,
        held: None,
        row: 0,
        mapping: Vec::new(),
        record: Vec::new(),
    };
    assert(run@.mapping =~= Seq::empty());
    assert(run@.record =~= Seq::empty());
    if !profile_found {
        fail(run, AppendError::ProfileNotFound)
    } else if force_refresh {
        (wait(run, Phase::AwaitScan), Step::Scan)
    } else if get_cached_schema(cache, profile_id).is_some() {
        (wait(run, Phase::AwaitFileState), Step::StatFile)
    } else {
        (wait(run, Phase::AwaitStore), Step::LoadSchema)
    }
}

/// Starts an append of one record under a profile: `ProfileNotFound` where
/// there is no profile; otherwise the mirror is asked first, then the store.
pub fn append_to_excel_fast(
    cache: &SchemaCache,
    profile_id: i64,
    profile: Option<&ExcelProfile>,
    invoice_data: &InvoiceData,
) -> (r: (Run, Step))
    ensures
        ({
            let mapping = match profile {
                Some(p) => Some(pairs_view(p.column_mapping@)),
                None => None,
            };
            let turn = begin_append(cache@, profile_id, mapping, record_view(invoice_data.fields@));
            r.0@ == turn.run && r.1@ == turn.step
        }),
        r.0@.wf(),
{
    let record = record_pairs(invoice_data);
    match profile {
        None => {
            let run = Run {
                profile_id,
                appending: true,
                phase: Phase::Finished,
                held: None,
                row: 0,
                mapping: Vec::new(),
                record,
            };
            assert(run@.mapping =~= Seq::empty());
            fail(run, AppendError::ProfileNotFound)
        },
        Some(p) => {
            let run = Run {
                profile_id,
                appending: true,
                phase: Phase::Finished,
                held: None,
                row: 0,
                mapping: clone_pairs(&p.column_mapping),
                record,
            };
            if get_cached_schema(cache, profile_id).is_some() {
                (wait(run, Phase::AwaitFileState), Step::StatFile)
            } else {
                (wait(run, Phase::AwaitStore), Step::LoadSchema)
            }
        },
    }
}

impl Run {
    /// Whether a reply answers what the run is waiting for.
    pub fn expects(&self, reply: &Reply) -> (b: bool)
        ensures
            b == self@.accepts(reply@),
    {
        match (self.phase, reply) {
            (Phase::AwaitFileState, Reply::FileState(_)) => true,
            (Phase::AwaitStore, Reply::Loaded(_)) => true,
            (Phase::AwaitScan, Reply::Scanned(_)) => true,
            (Phase::AwaitSave, Reply::Saved(_)) => true,
            (Phase::AwaitWrite, Reply::Written(_)) => true,
            (Phase::AwaitAdvance, Reply::Advanced(_)) => true,
            _ => false,
        }
    }

    /// Takes one turn: given the reply to the step asked last, updates the
    /// mirror and says what to do next.
    pub fn advance(self, cache: &mut SchemaCache, reply: Reply) -> (r: (Run, Step))
        requires
            self@.wf(),
            self@.accepts(reply@),
        ensures
            r.0@ == next(self@, old(cache)@, reply@).run,
            final(cache)@ == next(self@, old(cache)@, reply@).cache,
            r.1@ == next(self@, old(cache)@, reply@).step,
            r.0@.wf(),
    {
        let id = self.profile_id;
        match reply {
            Reply::FileState(live) => {
                match get_cached_schema(cache, id) {
                    Some(cached) => {
                        if is_cache_valid(live, &cached) {
                            return resolve(self, cached);
                        }
                    },
                    None => {},
                }
                invalidate_cache(cache, id);
                (wait(self, Phase::AwaitStore), Step::LoadSchema)
            },
            Reply::Loaded(Some(schema)) => {
                set_cached_schema(cache, id, schema.clone());
                resolve(self, schema)
            },
            Reply::Loaded(None) => (wait(self, Phase::AwaitScan), Step::Scan),
            Reply::Scanned(Ok(schema)) => {
                let Run { profile_id, appending, phase: _, held: _, row, mapping, record } = self;
                let copy = schema.clone();
                (
                    Run {
                        profile_id,
                        appending,
                        phase: Phase::AwaitSave,
                        held: Some(schema),
                        row,
                        mapping,
                        record,
                    },
                    Step::SaveSchema(copy),
                )
            },
            Reply::Scanned(Err(e)) => fail(self, AppendError::SchemaUnavailable(Some(e))),
            Reply::Saved(true) => {
                let Run { profile_id, appending, phase, held, row, mapping, record } = self;
                let schema = held.unwrap();
                set_cached_schema(cache, id, schema.clone());
                resolve(
                    Run { profile_id, appending, phase, held: None, row, mapping, record },
                    schema,
                )
            },
            Reply::Saved(false) => fail(self, AppendError::SchemaUnavailable(None)),
            Reply::Written(true) => {
                let row = self.row;
                (
                    wait(self, Phase::AwaitAdvance),
                    Step::AdvancePointer { new_next_free_row: row + 1, old_next_free_row: row },
                )
            },
            Reply::Written(false) => fail(self, AppendError::WriteFailed),
            Reply::Advanced(true) => {
                let row = self.row;
                match get_cached_schema(cache, id) {
                    Some(cached) => {
                        let mut cached = cached;
                        cached.next_free_row = row + 1;
                        cached.last_data_row = row;
                        set_cached_schema(cache, id, cached);
                    },
                    None => {},
                }
                let Run { profile_id, appending, phase: _, held: _, row, mapping, record } = self;
                (
                    Run {
                        profile_id,
                        appending,
                        phase: Phase::Finished,
                        held: None,
                        row,
                        mapping,
                        record,
                    },
                    Step::Done(Outcome::Row(row)),
                )
            },
            Reply::Advanced(false) => fail(self, AppendError::StoreUpdateFailed),
        }
    }
}

/// A successful append, from the schema that the store handed over to the
/// end: the row written is the schema's next free row; the pointer is
/// advanced by one only after the write; the run ends with that row; and the
/// mirror then holds the schema with that row as last data row and the next
/// free row right after it.
pub proof fn lemma_successful_append(
    run: RunView,
    cache: Map<i64, ExcelSchemaView>,
    schema: ExcelSchemaView,
)
    requires
        run.appending,
        run.phase == Phase::AwaitStore,
        schema.next_free_row < u32::MAX,
    ensures
        ({
            let row = schema.next_free_row;
            let loaded = next(run, cache, ReplyView::Loaded(Some(schema)));
            let written = next(loaded.run, loaded.cache, ReplyView::Written(true));
            let advanced = next(written.run, written.cache, ReplyView::Advanced(true));
            &&& loaded.step == StepView::WriteRow {
                row,
                values: row_values(schema.headers, run.mapping, run.record),
            }
            &&& written.step == StepView::AdvancePointer {
                new_next_free_row: (row + 1) as u32,
                old_next_free_row: row,
            }
            &&& advanced.step == StepView::Done(OutcomeView::Row(row))
            &&& advanced.cache.contains_key(run.profile_id)
            &&& advanced.cache[run.profile_id] == after_append(schema, row)
            &&& advanced.cache[run.profile_id].next_free_row == advanced.cache[run.profile_id].last_data_row
                + 1
            &&& advanced.cache[run.profile_id].next_free_row == row + 1
        }),
{
}

/// Whenever an append ends with a row, the mirror's schema of the profile, if
/// it holds one, has that row as last data row and the next free row right
/// after it.
pub proof fn lemma_append_keeps_rows_adjacent(
    run: RunView,
    cache: Map<i64, ExcelSchemaView>,
    reply: ReplyView,
)
    requires
        run.wf(),
        run.accepts(reply),
        next(run, cache, reply).step is Done,
        next(run, cache, reply).step->Done_0 is Row,
    ensures
        ({
            let turn = next(run, cache, reply);
            let row = turn.step->Done_0->Row_0;
            turn.cache.contains_key(run.profile_id) ==> {
                &&& turn.cache[run.profile_id].last_data_row == row
                &&& turn.cache[run.profile_id].next_free_row == turn.cache[run.profile_id].last_data_row
                    + 1
            }
        }),
{
}

/// A mirror entry whose recorded modification time differs from the live
/// file's, or whose file is gone, is never used: it is dropped from the
/// mirror, and the store is asked.
pub proof fn lemma_stale_mirror_entry_is_dropped(
    run: RunView,
    cache: Map<i64, ExcelSchemaView>,
    live_mtime: Option<u64>,
)
    requires
        run.phase == Phase::AwaitFileState,
        cache.contains_key(run.profile_id),
        live_mtime != Some(cache[run.profile_id].file_mtime),
    ensures
        next(run, cache, ReplyView::FileState(live_mtime)).step == StepView::LoadSchema,
        !next(run, cache, ReplyView::FileState(live_mtime)).cache.contains_key(run.profile_id),
        next(run, cache, ReplyView::FileState(live_mtime)).run.phase == Phase::AwaitStore,
{
}

/// With a stale mirror entry and no schema in the store, a request for the
/// schema leads to a scan, the scanned schema is saved, and the request ends
/// with the scanned schema, which the mirror then holds.
pub proof fn lemma_stale_mirror_leads_to_rescan(
    run: RunView,
    cache: Map<i64, ExcelSchemaView>,
    live_mtime: Option<u64>,
    scanned: ExcelSchemaView,
)
    requires
        !run.appending,
        run.phase == Phase::AwaitFileState,
        cache.contains_key(run.profile_id),
        live_mtime != Some(cache[run.profile_id].file_mtime),
    ensures
        ({
            let stat = next(run, cache, ReplyView::FileState(live_mtime));
            let load = next(stat.run, stat.cache, ReplyView::Loaded(None));
            let scan = next(load.run, load.cache, ReplyView::Scanned(Ok(scanned)));
            let save = next(scan.run, scan.cache, ReplyView::Saved(true));
            &&& stat.step == StepView::LoadSchema
            &&& load.step == StepView::Scan
            &&& scan.step == StepView::SaveSchema(scanned)
            &&& save.step == StepView::Done(OutcomeView::Schema(scanned))
            &&& save.cache.contains_key(run.profile_id)
            &&& save.cache[run.profile_id] == scanned
        }),
{
}

/// With a stale mirror entry and no schema in the store, an append first
/// scans, and then writes the next free row of the scanned schema.
pub proof fn lemma_stale_mirror_append_uses_rescan(
    run: RunView,
    cache: Map<i64, ExcelSchemaView>,
    live_mtime: Option<u64>,
    scanned: ExcelSchemaView,
)
    requires
        run.appending,
        run.phase == Phase::AwaitFileState,
        cache.contains_key(run.profile_id),
        live_mtime != Some(cache[run.profile_id].file_mtime),
        scanned.next_free_row < u32::MAX,
    ensures
        ({
            let stat = next(run, cache, ReplyView::FileState(live_mtime));
            let load = next(stat.run, stat.cache, ReplyView::Loaded(None));
            let scan = next(load.run, load.cache, ReplyView::Scanned(Ok(scanned)));
            let save = next(scan.run, scan.cache, ReplyView::Saved(true));
            &&& load.step == StepView::Scan
            &&& save.step == StepView::WriteRow {
                row: scanned.next_free_row,
                values: row_values(scanned.headers, run.mapping, run.record),
            }
        }),
{
}

/// A mirror entry that matches the live file is used as it stands: a request
/// for the schema ends with it, and the mirror is left alone.
pub proof fn lemma_valid_mirror_entry_is_used(run: RunView, cache: Map<i64, ExcelSchemaView>)
    requires
        !run.appending,
        run.phase == Phase::AwaitFileState,
        cache.contains_key(run.profile_id),
    ensures
        ({
            let cached = cache[run.profile_id];
            let turn = next(run, cache, ReplyView::FileState(Some(cached.file_mtime)));
            turn.step == StepView::Done(OutcomeView::Schema(cached)) && turn.cache == cache
        }),
{
}

/// A failed write ends the append with `WriteFailed`; the mirror is left as
/// it was, so the row is not consumed and the same row is allocated again.
pub proof fn lemma_failed_write_consumes_nothing(run: RunView, cache: Map<i64, ExcelSchemaView>)
    requires
        run.phase == Phase::AwaitWrite,
    ensures
        next(run, cache, ReplyView::Written(false)).step == StepView::Done(
            OutcomeView::Failed(AppendError::WriteFailed),
        ),
        next(run, cache, ReplyView::Written(false)).cache == cache,
{
}

/// A failed pointer update ends the append with `StoreUpdateFailed`, and the
/// mirror is left as it was.
pub proof fn lemma_failed_advance_is_surfaced(run: RunView, cache: Map<i64, ExcelSchemaView>)
    requires
        run.phase == Phase::AwaitAdvance,
    ensures
        next(run, cache, ReplyView::Advanced(false)).step == StepView::Done(
            OutcomeView::Failed(AppendError::StoreUpdateFailed),
        ),
        next(run, cache, ReplyView::Advanced(false)).cache == cache,
{
}

/// The row pointer is advanced only in answer to a successful write, and by
/// one; a row is written only in an append, and never the last row that can
/// be numbered; and neither a scan nor a write changes the mirror.
pub proof fn lemma_write_precedes_advance(
    run: RunView,
    cache: Map<i64, ExcelSchemaView>,
    reply: ReplyView,
)
    requires
        run.wf(),
        run.accepts(reply),
    ensures
        ({
            let turn = next(run, cache, reply);
            &&& turn.step is AdvancePointer ==> reply == ReplyView::Written(true)
                && turn.step->new_next_free_row == turn.step->old_next_free_row + 1
            &&& turn.step is WriteRow ==> run.appending && turn.step->row < u32::MAX
            &&& reply is Written || reply is Scanned ==> turn.cache == cache
        }),
{
}

/// Rows are allocated one after the other: after an append that ended with
/// a row, the next append under the same profile, with the file unchanged
/// since, writes the row right after it.
pub proof fn lemma_consecutive_appends_take_consecutive_rows(
    first: RunView,
    second: RunView,
    cache: Map<i64, ExcelSchemaView>,
)
    requires
        first.wf(),
        first.phase == Phase::AwaitAdvance,
        cache.contains_key(first.profile_id),
        first.row + 1 < u32::MAX,
        second.appending,
        second.phase == Phase::AwaitFileState,
        second.profile_id == first.profile_id,
    ensures
        ({
            let done = next(first, cache, ReplyView::Advanced(true));
            let again = next(
                second,
                done.cache,
                ReplyView::FileState(Some(cache[first.profile_id].file_mtime)),
            );
            &&& done.step == StepView::Done(OutcomeView::Row(first.row))
            &&& again.step is WriteRow
            &&& again.step->row == first.row + 1
        }),
{
}

/// A failed write can be retried: the next append under the same profile,
/// with the file unchanged, is handed the same row again.
pub proof fn lemma_retry_after_failed_write_takes_same_row(
    failed_run: RunView,
    retry: RunView,
    cache: Map<i64, ExcelSchemaView>,
)
    requires
        failed_run.phase == Phase::AwaitWrite,
        cache.contains_key(failed_run.profile_id),
        cache[failed_run.profile_id].next_free_row < u32::MAX,
        retry.appending,
        retry.phase == Phase::AwaitFileState,
        retry.profile_id == failed_run.profile_id,
    ensures
        ({
            let failure = next(failed_run, cache, ReplyView::Written(false));
            let again = next(
                retry,
                failure.cache,
                ReplyView::FileState(Some(cache[failed_run.profile_id].file_mtime)),
            );
            &&& again.step is WriteRow
            &&& again.step->row == cache[failed_run.profile_id].next_free_row
        }),
{
}

} // verus!
