use vstd::prelude::*;

use crate::chunk::Chunk;
use crate::datatypes::{FieldModel, Schema};
use crate::dispatch::ArrayRef;
use crate::error::Error;

verus! {

/// The columns match the schema: one per field, each of the field's type.
pub open spec fn chunk_fits_schema(fields: Seq<FieldModel>, columns: Seq<ArrayRef>) -> bool {
    &&& fields.len() == columns.len()
    &&& forall|i: int| 0 <= i < fields.len() ==> (#[trigger] columns[i]).dtype() == fields[i].data_type
}

/// Decides whether a chunk may be written under a schema.
pub fn check_chunk(schema: &Schema, chunk: &Chunk) -> (r: Result<(), Error>)
    ensures
        r is Ok == chunk_fits_schema(schema@, chunk@),
        r matches Err(e) ==> e is TypeMismatch,
{
    let fields = schema.fields();
    let columns = chunk.arrays();
    if fields.len() != columns.len() {
        return Err(Error::TypeMismatch);
    }
    let mut i: usize = 0;
    while i < fields.len()
        invariant
            fields@.map_values(|f: crate::datatypes::Field| f@) == schema@,
            columns@ == chunk@,
            fields@.len() == columns@.len(),
            i <= fields@.len(),
            forall|k: int| 0 <= k < i ==> (#[trigger] columns@[k]).dtype() == schema@[k].data_type,
        decreases fields@.len() - i,
    {
        if !(columns[i].data_type() == fields[i].data_type) {
            assert(schema@[i as int] == fields@[i as int]@);
            return Err(Error::TypeMismatch);
        }
        assert(schema@[i as int] == fields@[i as int]@);
        i = i + 1;
    }
    Ok(())
}

/// Whether a writer still accepts chunks.
#[derive(Clone, Copy, Debug, PartialEq, Eq, Structural)]
pub enum Phase {
    Open,
    Finished,
}

/// One thing that happens to a writer: a write of a chunk that fits the
/// schema or not, or a close.
pub enum SessionEvent {
    Write(bool),
    Close,
}

/// The phase after an event, whether a chunk is appended, and whether the
/// trailer is written.
pub open spec fn step(p: Phase, e: SessionEvent) -> (Phase, nat, nat) {
    match e {
        SessionEvent::Write(fits) => (
            p,
            if p == Phase::Open && fits {
                1nat
            } else {
                0nat
            },
            0nat,
        ),
        SessionEvent::Close => (
            Phase::Finished,
            0nat,
            if p == Phase::Open {
                1nat
            } else {
                0nat
            },
        ),
    }
}

/// The final phase, the chunks appended and the trailers written over a run
/// of events.
pub open spec fn replay(p: Phase, events: Seq<SessionEvent>) -> (Phase, nat, nat)
    decreases events.len(),
{
    if events.len() == 0 {
        (p, 0nat, 0nat)
    } else {
        let (p1, a1, f1) = step(p, events[0]);
        let (p2, a2, f2) = replay(p1, events.drop_first());
        (p2, a1 + a2, f1 + f2)
    }
}

/// Whether a run of events holds a close.
pub open spec fn has_close(events: Seq<SessionEvent>) -> bool {
    exists|i: int| 0 <= i < events.len() && (#[trigger] events[i]) is Close
}

/// Once finished, a writer appends nothing and writes no trailer again.
pub proof fn lemma_finished_is_inert(events: Seq<SessionEvent>)
    ensures
        replay(Phase::Finished, events) == (Phase::Finished, 0nat, 0nat),
    decreases events.len(),
{
    if events.len() > 0 {
        lemma_finished_is_inert(events.drop_first());
    }
}

/// Over any run of events from an open writer the trailer is written at most
/// once, and exactly once when the run holds a close; so a close on every exit
/// path leaves the stream finalized exactly once, whatever came before.
pub proof fn lemma_trailer_written_once(events: Seq<SessionEvent>)
    ensures
        replay(Phase::Open, events).2 == (if has_close(events) {
            1nat
        } else {
            0nat
        }),
        has_close(events) <==> replay(Phase::Open, events).0 == Phase::Finished,
        replay(Phase::Open, events.push(SessionEvent::Close)).2 == 1,
        replay(Phase::Open, events.push(SessionEvent::Close)).0 == Phase::Finished,
    decreases events.len(),
{
    let closed = events.push(SessionEvent::Close);
    assert(closed[closed.len() - 1] is Close);
    if events.len() == 0 {
        assert(closed.drop_first() =~= Seq::<SessionEvent>::empty());
        lemma_finished_is_inert(closed.drop_first());
        assert(!has_close(events));
    } else {
        assert(closed.drop_first() =~= events.drop_first().push(SessionEvent::Close));
        match events[0] {
            SessionEvent::Write(_) => {
                lemma_trailer_written_once(events.drop_first());
                assert(closed[0] == events[0]);
                assert(replay(Phase::Open, closed.drop_first()) == replay(
                    Phase::Open,
                    events.drop_first().push(SessionEvent::Close),
                ));
                if has_close(events) {
                    let i = choose|i: int| 0 <= i < events.len() && (#[trigger] events[i]) is Close;
                    assert(events.drop_first()[i - 1] is Close);
                }
                if has_close(events.drop_first()) {
                    let i = choose|i: int|
                        0 <= i < events.drop_first().len() && (#[trigger] events.drop_first()[i]) is Close;
                    assert(events[i + 1] is Close);
                }
            },
            SessionEvent::Close => {
                lemma_finished_is_inert(events.drop_first());
                lemma_finished_is_inert(closed.drop_first());
                assert(closed[0] == events[0]);
                assert(events[0] is Close);
            },
        }
    }
}

/// The rules of a writer session: which chunks it accepts, and when the
/// trailer is due. The caller performs the writes that these decisions call for.
#[derive(Debug)]
pub struct WriterSession {
    schema: Schema,
    phase: Phase,
}

impl WriterSession {
    pub closed spec fn spec_phase(&self) -> Phase {
        self.phase
    }

    pub closed spec fn spec_schema(&self) -> Seq<FieldModel> {
        self.schema@
    }

    /// An open session under the given schema.
    pub fn new(schema: Schema) -> (r: WriterSession)
        ensures
            r.spec_phase() == Phase::Open,
            r.spec_schema() == schema@,
    {
        WriterSession { schema, phase: Phase::Open }
    }

    /// The schema that chunks are written under.
    pub fn schema(&self) -> (r: &Schema)
        ensures
            r@ == self.spec_schema(),
    {
        &self.schema
    }

    /// Whether the trailer has been written.
    pub fn is_finished(&self) -> (r: bool)
        ensures
            r == (self.spec_phase() == Phase::Finished),
    {
        self.phase == Phase::Finished
    }

    /// Decides a write: `Finished` after the close, `TypeMismatch` for a chunk
    /// that does not fit the schema, else the chunk is to be appended.
    pub fn accept_write(&self, chunk: &Chunk) -> (r: Result<(), Error>)
        ensures
            r is Ok == (step(
                self.spec_phase(),
                SessionEvent::Write(chunk_fits_schema(self.spec_schema(), chunk@)),
            ).1 == 1),
            self.spec_phase() == Phase::Finished ==> r matches Err(Error::Finished),
            self.spec_phase() == Phase::Open && !chunk_fits_schema(self.spec_schema(), chunk@)
                ==> r matches Err(Error::TypeMismatch),
    {
        if self.phase == Phase::Finished {
            return Err(Error::Finished);
        }
        check_chunk(&self.schema, chunk)
    }

    /// Closes the session; true exactly when the trailer is due now, which is
    /// the first close.
    pub fn close(&mut self) -> (r: bool)
        ensures
            (final(self).spec_phase(), r) == ({
                let (p, _, f) = step(old(self).spec_phase(), SessionEvent::Close);
                (p, f == 1)
            }),
            final(self).spec_schema() == old(self).spec_schema(),
    {
        let due = self.phase == Phase::Open;
        self.phase = Phase::Finished;
        due
    }
}

/// Format version of the pages that a Parquet writer emits.
#[derive(Clone, Copy, Debug, PartialEq, Eq, Structural)]
pub enum ParquetVersion {
    V1,
    V2,
}

/// Compression of Parquet pages.
#[derive(Clone, Copy, Debug, PartialEq, Eq, Structural)]
pub enum Compression {
    Uncompressed,
    Snappy,
    Gzip,
    Lz4,
    Zstd,
}

/// Encoding of the values of a Parquet column.
#[derive(Clone, Copy, Debug, PartialEq, Eq, Structural)]
pub enum Encoding {
    Plain,
    RleDictionary,
}

/// Options of a Parquet writer.
#[derive(Clone, Copy, Debug, PartialEq, Eq, Structural)]
pub struct WriteOptions {
    pub version: ParquetVersion,
    pub write_statistics: bool,
    pub compression: Compression,
}

/// The options that Parquet files are written with: version-2 pages with
/// statistics, uncompressed.
pub fn parquet_options() -> (r: WriteOptions)
    ensures
        r == (WriteOptions {
            version: ParquetVersion::V2,
            write_statistics: true,
            compression: Compression::Uncompressed,
        }),
{
    WriteOptions {
        version: ParquetVersion::V2,
        write_statistics: true,
        compression: Compression::Uncompressed,
    }
}

/// The encoding of a column of the given array: plain for every supported type.
pub fn encoding_for(array: &ArrayRef) -> (r: Encoding)
    ensures
        r == Encoding::Plain,
{
    Encoding::Plain
}

/// One encoding per column of the chunk, in order.
pub fn column_encodings(chunk: &Chunk) -> (r: Vec<Encoding>)
    ensures
        r@.len() == chunk@.len(),
        forall|i: int| 0 <= i < r@.len() ==> #[trigger] r@[i] == Encoding::Plain,
{
    let columns = chunk.arrays();
    let mut out: Vec<Encoding> = Vec::new();
    let mut i: usize = 0;
    while i < columns.len()
        invariant
            i <= columns@.len(),
            out@.len() == i,
            forall|k: int| 0 <= k < i ==> #[trigger] out@[k] == Encoding::Plain,
        decreases columns@.len() - i,
    {
        out.push(encoding_for(&columns[i]));
        i = i + 1;
    }
    out
}

} // verus!
