//! The driver of a plan. The executor that yields the rows belongs to the
//! caller: it pulls a row, hands it to the driver, and does what the driver
//! says next. The driver cuts the rows into chunks of bounded size, either
//! all in one response or one chunk at a time.

use vstd::prelude::*;
use crate::context::ReqContext;
use crate::datum::ColumnInfo;
use crate::keys::{copy_bytes, extend_bytes, KeyRange};
use crate::response::{Error, ErrorView};
use crate::row::{concat, inflate_cols, spec_inflate_cols, spec_offsets_valid, Row};
use crate::task::DagRequest;

verus! {

/// Rows of a response, one after the other.
#[derive(Debug)]
pub struct Chunk {
    pub rows_data: Vec<u8>,
}

/// The answer to a plan in one piece.
#[derive(Debug)]
pub struct SelectResponse {
    pub chunks: Vec<Chunk>,
    pub output_counts: Vec<i64>,
}

/// How the rows of a chunk are encoded.
#[derive(Clone, Copy, Debug, PartialEq, Eq, Structural)]
pub enum EncodeType {
    TypeDefault,
    TypeArrow,
}

/// One chunk of the answer to a plan.
#[derive(Debug)]
pub struct StreamResponse {
    pub data: Chunk,
    pub encode_type: EncodeType,
    pub output_counts: Vec<i64>,
}

/// One streamed chunk, with the range that is left to scan, where the
/// executor knows it.
#[derive(Debug)]
pub struct StreamBatch {
    pub response: StreamResponse,
    pub range: Option<KeyRange>,
}

/// What the caller built of the executors of a plan.
#[derive(Debug)]
pub struct DagExecutor {
    pub columns: Vec<ColumnInfo>,
    pub has_aggr: bool,
}

/// What a pull from the executor gave, for a plan answered in one piece.
#[derive(Debug)]
pub enum Pull {
    Row(Row),
    /// No row is left; with the number of rows that each executor put out.
    Exhausted(Vec<i64>),
}

/// What the driver of one response says after a pull.
#[derive(Debug)]
pub enum Progress {
    /// Pull again.
    Continue,
    Done(SelectResponse),
}

/// What happened at the executor, for a plan answered in chunks.
#[derive(Debug)]
pub enum StreamPull {
    /// A new chunk begins and the scan was started.
    Start,
    Row(Row),
    /// No row is left.
    Exhausted,
}

/// What the driver of a stream says after a pull.
#[derive(Clone, Copy, Debug, PartialEq, Eq, Structural)]
pub enum StreamProgress {
    /// Pull again.
    Pull,
    /// The chunk is ready: stop the scan and make the response. With
    /// whether the executor is exhausted.
    Emit(bool),
    /// The executor is exhausted and the chunk is empty: nothing is sent and
    /// the stream ends.
    Done,
}

/// The rows of each of `chunks`.
pub open spec fn spec_chunks(chunks: Seq<Chunk>) -> Seq<Seq<u8>> {
    Seq::new(chunks.len(), |i: int| chunks[i].rows_data@)
}

/// The chunks so far of a plan answered in one piece, and the number of
/// rows in the last of them.
pub struct UnaryState {
    pub chunks: Seq<Seq<u8>>,
    pub record_cnt: usize,
}

/// The chunk being filled of a plan answered in chunks, the number of rows
/// in it, and whether the executor is exhausted.
pub struct StreamState {
    pub chunk: Seq<u8>,
    pub record_cnt: usize,
    pub finished: bool,
}

impl UnaryState {
    pub open spec fn initial() -> UnaryState {
        UnaryState { chunks: Seq::empty(), record_cnt: 0 }
    }

    /// With one more row: in a new chunk if there is none yet or the last
    /// holds `limit` rows or more, else at the end of the last.
    pub open spec fn push(self, piece: Seq<u8>, limit: usize) -> UnaryState {
        if self.chunks.len() == 0 || self.record_cnt >= limit {
            UnaryState { chunks: self.chunks.push(piece), record_cnt: 1 }
        } else {
            UnaryState {
                chunks: self.chunks.update(self.chunks.len() - 1, self.chunks.last() + piece),
                record_cnt: (self.record_cnt + 1) as usize,
            }
        }
    }

    /// The state after all of `pieces`, row by row.
    pub open spec fn run(pieces: Seq<Seq<u8>>, limit: usize) -> UnaryState
        decreases pieces.len(),
    {
        if pieces.len() == 0 {
            Self::initial()
        } else {
            Self::run(pieces.drop_last(), limit).push(pieces.last(), limit)
        }
    }
}

impl StreamState {
    pub open spec fn start() -> StreamState {
        StreamState { chunk: Seq::empty(), record_cnt: 0, finished: false }
    }

    /// With one more row in the chunk. The count of rows stops at the
    /// largest number.
    pub open spec fn row(self, piece: Seq<u8>) -> StreamState {
        StreamState {
            chunk: self.chunk + piece,
            record_cnt: if self.record_cnt == usize::MAX {
                usize::MAX
            } else {
                (self.record_cnt + 1) as usize
            },
            ..self
        }
    }

    pub open spec fn exhausted(self) -> StreamState {
        StreamState { finished: true, ..self }
    }

    /// What to do next: pull while the executor has rows and the chunk holds
    /// fewer than `limit`; then send the chunk if it holds a row; else end.
    pub open spec fn decide(self, limit: usize) -> StreamProgress {
        if !self.finished && self.record_cnt < limit {
            StreamProgress::Pull
        } else if self.record_cnt > 0 {
            StreamProgress::Emit(self.finished)
        } else {
            StreamProgress::Done
        }
    }
}

/// The chunks sent so far of a plan answered in chunks, and the state of
/// the chunk being filled.
pub struct StreamTrace {
    pub emitted: Seq<Seq<u8>>,
    pub state: StreamState,
}

impl StreamTrace {
    /// The trace after a pull gave one more row: the row goes into the
    /// chunk, and the chunk is sent if the driver then says so.
    pub open spec fn feed(self, piece: Seq<u8>, limit: usize) -> StreamTrace {
        let state = self.state.row(piece);
        if state.decide(limit) is Emit {
            StreamTrace { emitted: self.emitted.push(state.chunk), state: StreamState::start() }
        } else {
            StreamTrace { emitted: self.emitted, state }
        }
    }

    /// The trace after pulls gave all of `pieces`, row by row.
    pub open spec fn run(pieces: Seq<Seq<u8>>, limit: usize) -> StreamTrace
        decreases pieces.len(),
    {
        if pieces.len() == 0 {
            StreamTrace { emitted: Seq::empty(), state: StreamState::start() }
        } else {
            Self::run(pieces.drop_last(), limit).feed(pieces.last(), limit)
        }
    }

    /// All chunks sent once the executor is exhausted.
    pub open spec fn finish(self, limit: usize) -> Seq<Seq<u8>> {
        if self.state.exhausted().decide(limit) is Emit {
            self.emitted.push(self.state.chunk)
        } else {
            self.emitted
        }
    }
}

/// The chunks in which a plan that yields `pieces` is streamed.
pub open spec fn spec_stream_chunks(pieces: Seq<Seq<u8>>, limit: usize) -> Seq<Seq<u8>> {
    StreamTrace::run(pieces, limit).finish(limit)
}

/// The chunks in which a plan that yields `pieces` is answered in one piece.
pub open spec fn spec_unary_chunks(pieces: Seq<Seq<u8>>, limit: usize) -> Seq<Seq<u8>> {
    UnaryState::run(pieces, limit).chunks
}

/// The chunks and the output counts of a `SelectResponse`.
pub struct SelectResponseView {
    pub chunks: Seq<Seq<u8>>,
    pub output_counts: Seq<i64>,
}

impl View for SelectResponse {
    type V = SelectResponseView;

    open spec fn view(&self) -> SelectResponseView {
        SelectResponseView { chunks: spec_chunks(self.chunks@), output_counts: self.output_counts@ }
    }
}

/// What a step of the driver for one response comes to.
pub enum UnaryOutcome {
    Failed(ErrorView),
    Appended(UnaryState),
    Finished(SelectResponseView),
}

/// The driver of one plan: the columns and offsets that rows are written
/// out with, the context of the request, and the chunks in the making.
#[derive(Debug)]
pub struct DAGContext {
    pub columns: Vec<ColumnInfo>,
    pub has_aggr: bool,
    pub req_ctx: ReqContext,
    pub output_offsets: Vec<u32>,
    /// The chunks so far, for one response.
    pub chunks: Vec<Chunk>,
    /// The rows in the last of the chunks.
    pub record_cnt: usize,
    /// The chunk being streamed.
    pub chunk: Chunk,
    /// The rows in the chunk being streamed.
    pub chunk_rows: usize,
    /// Whether the executor is exhausted, while streaming.
    pub finished: bool,
}

impl DAGContext {
    /// Where rows are filled in, the output offsets are among the columns.
    pub open spec fn wf(&self) -> bool {
        self.has_aggr || spec_offsets_valid(self.columns@, self.output_offsets@)
    }

    /// The same plan and request; what the drivers keep may differ.
    pub open spec fn same_plan(&self, other: &DAGContext) -> bool {
        &&& self.columns == other.columns
        &&& self.has_aggr == other.has_aggr
        &&& self.req_ctx == other.req_ctx
        &&& self.output_offsets == other.output_offsets
    }

    pub open spec fn unary_state(&self) -> UnaryState {
        UnaryState { chunks: spec_chunks(self.chunks@), record_cnt: self.record_cnt }
    }

    pub open spec fn stream_state(&self) -> StreamState {
        StreamState {
            chunk: self.chunk.rows_data@,
            record_cnt: self.chunk_rows,
            finished: self.finished,
        }
    }

    /// The bytes that `row` adds to a chunk: the row as it is for a plan
    /// that aggregates, else the row written out for the output offsets.
    pub open spec fn spec_row_piece(&self, row: Row) -> Result<Seq<u8>, Seq<char>> {
        if self.has_aggr {
            Ok(row.data.value@)
        } else {
            spec_inflate_cols(row, self.columns@, self.output_offsets@)
        }
    }

    /// Makes the driver of a plan from the request and from what became of
    /// building its executors; a failure to build them is passed on.
    pub fn new(req: DagRequest, built: Result<DagExecutor, Error>, req_ctx: ReqContext) -> (res:
        Result<DAGContext, Error>)
        requires
            built matches Ok(executor) ==> executor.has_aggr || spec_offsets_valid(
                executor.columns@,
                req.output_offsets@,
            ),
        ensures
            built matches Err(e) ==> res == Err::<DAGContext, Error>(e),
            built matches Ok(executor) ==> {
                &&& res matches Ok(ctx)
                &&& ctx.columns == executor.columns
                &&& ctx.has_aggr == executor.has_aggr
                &&& ctx.req_ctx == req_ctx
                &&& ctx.output_offsets == req.output_offsets
                &&& ctx.unary_state() == UnaryState::initial()
                &&& ctx.stream_state() == StreamState::start()
                &&& ctx.wf()
            },
    {
        let executor = match built {
            Ok(executor) => executor,
            Err(e) => {
                return Err(e);
            },
        };
        let ctx = DAGContext {
            columns: executor.columns,
            has_aggr: executor.has_aggr,
            req_ctx,
            output_offsets: req.output_offsets,
            chunks: Vec::new(),
            record_cnt: 0,
            chunk: Chunk { rows_data: Vec::new() },
            chunk_rows: 0,
            finished: false,
        };
        assert(ctx.unary_state().chunks =~= UnaryState::initial().chunks);
        Ok(ctx)
    }

    fn row_piece(&self, row: &Row) -> (res: Result<Vec<u8>, Error>)
        requires
            self.wf(),
        ensures
            res matches Ok(piece) ==> self.spec_row_piece(*row) == Ok::<Seq<u8>, Seq<char>>(
                piece@,
            ),
            res matches Err(e) ==> (self.spec_row_piece(*row) matches Err(msg) && e@
                == ErrorView::Other(msg)),
    {
        if self.has_aggr {
            Ok(copy_bytes(&row.data.value))
        } else {
            inflate_cols(row, &self.columns, &self.output_offsets)
        }
    }

    /// What `handle_request` comes to: a row fails the request if its
    /// deadline has passed at `now` or the row cannot be written out, and is
    /// else added to the chunks; the end of the rows gives the response.
    pub open spec fn spec_handle_request(
        &self,
        pull: Pull,
        now: u64,
        batch_row_limit: usize,
    ) -> UnaryOutcome {
        match pull {
            Pull::Row(row) => if self.req_ctx.outdated_at(now) {
                UnaryOutcome::Failed(self.req_ctx.outdated_error(now))
            } else {
                match self.spec_row_piece(row) {
                    Err(msg) => UnaryOutcome::Failed(ErrorView::Other(msg)),
                    Ok(piece) => UnaryOutcome::Appended(
                        self.unary_state().push(piece, batch_row_limit),
                    ),
                }
            },
            Pull::Exhausted(output_counts) => UnaryOutcome::Finished(
                SelectResponseView {
                    chunks: spec_chunks(self.chunks@),
                    output_counts: output_counts@,
                },
            ),
        }
    }

    /// Takes what one pull from the executor gave, for a plan that is
    /// answered in one piece. A failure leaves the driver as it was; the
    /// response leaves it without chunks.
    pub fn handle_request(&mut self, pull: Pull, now: u64, batch_row_limit: usize) -> (res: Result<
        Progress,
        Error,
    >)
        requires
            old(self).wf(),
        ensures
            final(self).wf(),
            final(self).same_plan(old(self)),
            final(self).stream_state() == old(self).stream_state(),
            match old(self).spec_handle_request(pull, now, batch_row_limit) {
                UnaryOutcome::Failed(e) => {
                    &&& res matches Err(err)
                    &&& err@ == e
                    &&& final(self).unary_state() == old(self).unary_state()
                },
                UnaryOutcome::Appended(state) => {
                    &&& res matches Ok(Progress::Continue)
                    &&& final(self).unary_state() == state
                },
                UnaryOutcome::Finished(response) => {
                    &&& res matches Ok(Progress::Done(sel))
                    &&& sel@ == response
                    &&& final(self).unary_state() == UnaryState::initial()
                },
            },
    {
        match pull {
            Pull::Row(row) => {
                match self.req_ctx.check_if_outdated(now) {
                    Err(e) => {
                        return Err(e);
                    },
                    Ok(()) => {},
                }
                let value = match self.row_piece(&row) {
                    Ok(value) => value,
                    Err(e) => {
                        return Err(e);
                    },
                };
                if self.chunks.len() == 0 || self.record_cnt >= batch_row_limit {
                    self.chunks.push(Chunk { rows_data: value });
                    self.record_cnt = 1;
                    proof {
                        assert(spec_chunks(self.chunks@) =~= spec_chunks(old(self).chunks@).push(
                            value@,
                        ));
                    }
                } else {
                    let mut last = match self.chunks.pop() {
                        Some(last) => last,
                        None => Chunk { rows_data: Vec::new() },
                    };
                    extend_bytes(&mut last.rows_data, &value);
                    self.chunks.push(last);
                    self.record_cnt = self.record_cnt + 1;
                    proof {
                        let before = spec_chunks(old(self).chunks@);
                        assert(spec_chunks(self.chunks@) =~= before.update(
                            before.len() - 1,
                            before.last() + value@,
                        ));
                    }
                }
                Ok(Progress::Continue)
            },
            Pull::Exhausted(output_counts) => {
                let mut chunks: Vec<Chunk> = Vec::new();
                std::mem::swap(&mut self.chunks, &mut chunks);
                self.record_cnt = 0;
                proof {
                    assert(spec_chunks(self.chunks@) =~= UnaryState::initial().chunks);
                }
                Ok(Progress::Done(SelectResponse { chunks, output_counts }))
            },
        }
    }

    /// The state of the chunk being streamed after `pull`, where the row, if
    /// `pull` is one, can be written out.
    pub open spec fn spec_stream_apply(&self, pull: StreamPull) -> Result<StreamState, Seq<char>> {
        match pull {
            StreamPull::Start => Ok(StreamState::start()),
            StreamPull::Row(row) => match self.spec_row_piece(row) {
                Ok(piece) => Ok(self.stream_state().row(piece)),
                Err(msg) => Err(msg),
            },
            StreamPull::Exhausted => Ok(self.stream_state().exhausted()),
        }
    }

    /// Takes what happened at the executor, for a plan that is answered in
    /// chunks of at most `batch_row_limit` rows, and says what to do next. A
    /// row that cannot be written out fails the request and leaves the
    /// driver as it was.
    pub fn handle_streaming_request(&mut self, pull: StreamPull, batch_row_limit: usize) -> (res:
        Result<StreamProgress, Error>)
        requires
            old(self).wf(),
        ensures
            final(self).wf(),
            final(self).same_plan(old(self)),
            final(self).unary_state() == old(self).unary_state(),
            match old(self).spec_stream_apply(pull) {
                Ok(state) => {
                    &&& res == Ok::<StreamProgress, Error>(state.decide(batch_row_limit))
                    &&& final(self).stream_state() == state
                },
                Err(msg) => {
                    &&& res matches Err(e)
                    &&& e@ == ErrorView::Other(msg)
                    &&& final(self).stream_state() == old(self).stream_state()
                },
            },
    {
        match pull {
            StreamPull::Start => {
                self.chunk = Chunk { rows_data: Vec::new() };
                self.chunk_rows = 0;
                self.finished = false;
            },
            StreamPull::Row(row) => {
                let value = match self.row_piece(&row) {
                    Ok(value) => value,
                    Err(e) => {
                        return Err(e);
                    },
                };
                extend_bytes(&mut self.chunk.rows_data, &value);
                if self.chunk_rows < usize::MAX {
                    self.chunk_rows = self.chunk_rows + 1;
                }
            },
            StreamPull::Exhausted => {
                self.finished = true;
            },
        }
        if !self.finished && self.chunk_rows < batch_row_limit {
            Ok(StreamProgress::Pull)
        } else if self.chunk_rows > 0 {
            Ok(StreamProgress::Emit(self.finished))
        } else {
            Ok(StreamProgress::Done)
        }
    }

    /// Makes the response for the chunk that was filled, with the range that
    /// the stopped scan left and the rows that each executor put out, and
    /// begins a new chunk.
    pub fn make_stream_response(&mut self, range: Option<KeyRange>, output_counts: Vec<i64>) -> (batch:
        StreamBatch)
        ensures
            batch.response.data.rows_data@ == old(self).chunk.rows_data@,
            batch.response.encode_type == EncodeType::TypeDefault,
            batch.response.output_counts == output_counts,
            batch.range == range,
            final(self).same_plan(old(self)),
            final(self).wf() == old(self).wf(),
            final(self).unary_state() == old(self).unary_state(),
            final(self).stream_state() == StreamState::start(),
    {
        let mut chunk = Chunk { rows_data: Vec::new() };
        std::mem::swap(&mut self.chunk, &mut chunk);
        self.chunk_rows = 0;
        self.finished = false;
        StreamBatch {
            response: StreamResponse {
                data: chunk,
                encode_type: EncodeType::TypeDefault,
                output_counts,
            },
            range,
        }
    }
}

/// The chunks of one response hold the rows in the order in which they
/// were pulled, whatever the limit.
pub proof fn lemma_unary_chunks_hold_rows(pieces: Seq<Seq<u8>>, limit: usize)
    ensures
        concat(spec_unary_chunks(pieces, limit)) == concat(pieces),
    decreases pieces.len(),
{
    if pieces.len() > 0 {
        let head = pieces.drop_last();
        lemma_unary_chunks_hold_rows(head, limit);
        let before = UnaryState::run(head, limit);
        let after = before.push(pieces.last(), limit);
        if before.chunks.len() == 0 || before.record_cnt >= limit {
            assert(after.chunks.drop_last() =~= before.chunks);
        } else {
            assert(after.chunks.drop_last() =~= before.chunks.drop_last());
            assert(concat(after.chunks) =~= concat(before.chunks) + pieces.last());
        }
    }
}

/// The rows of the chunk at place `i`, where every chunk but the last
/// holds `limit` rows: the rows from `i * limit` up to the next chunk or
/// to the end.
pub open spec fn spec_chunk_rows(pieces: Seq<Seq<u8>>, limit: usize, i: int) -> Seq<Seq<u8>> {
    let to = if (i + 1) * limit <= pieces.len() {
        (i + 1) * limit
    } else {
        pieces.len() as int
    };
    pieces.subrange(i * limit, to)
}

proof fn lemma_concat_push(pieces: Seq<Seq<u8>>, piece: Seq<u8>)
    ensures
        concat(pieces.push(piece)) == concat(pieces) + piece,
{
    assert(pieces.push(piece).drop_last() =~= pieces);
}

/// With a limit above zero, the chunks of one response are the rows in
/// groups of `limit`: there are just as many chunks as it takes to hold the
/// rows, every chunk but the last holds `limit` rows, and the last holds the
/// rest.
pub proof fn lemma_unary_chunks_are_rows_in_groups(pieces: Seq<Seq<u8>>, limit: usize)
    requires
        limit > 0,
    ensures
        pieces.len() == 0 ==> spec_unary_chunks(pieces, limit).len() == 0,
        pieces.len() > 0 ==> (spec_unary_chunks(pieces, limit).len() - 1) * limit < pieces.len()
            <= spec_unary_chunks(pieces, limit).len() * limit,
        pieces.len() > 0 ==> UnaryState::run(pieces, limit).record_cnt == pieces.len() - (
        spec_unary_chunks(pieces, limit).len() - 1) * limit,
        forall|i: int|
            0 <= i < spec_unary_chunks(pieces, limit).len() ==> #[trigger] spec_unary_chunks(
                pieces,
                limit,
            )[i] == concat(spec_chunk_rows(pieces, limit, i)),
    decreases pieces.len(),
{
    if pieces.len() > 0 {
        let head = pieces.drop_last();
        let piece = pieces.last();
        lemma_unary_chunks_are_rows_in_groups(head, limit);
        let before = UnaryState::run(head, limit);
        let after = before.push(piece, limit);
        assert(after == UnaryState::run(pieces, limit));
        let n = pieces.len() as int;
        let m = head.len() as int;
        let k0 = before.chunks.len() as int;
        let k = after.chunks.len() as int;
        let l = limit as int;
        if m == 0 {
            assert(k == 1);
            assert((k - 1) * l == 0) by (nonlinear_arith)
                requires
                    k == 1,
            ;
            assert(k * l == l) by (nonlinear_arith)
                requires
                    k == 1,
            ;
            assert(0 * l == 0) by (nonlinear_arith);
            assert((0 + 1) * l == l) by (nonlinear_arith);
            assert(spec_chunk_rows(pieces, limit, 0) =~= Seq::<Seq<u8>>::empty().push(piece));
            lemma_concat_push(Seq::<Seq<u8>>::empty(), piece);
            assert(concat(Seq::<Seq<u8>>::empty()) =~= Seq::<u8>::empty());
            assert(after.chunks[0] =~= concat(spec_chunk_rows(pieces, limit, 0)));
        } else {
            assert((k0 - 1) * l + l == k0 * l) by (nonlinear_arith);
            if before.record_cnt >= limit {
                assert(k == k0 + 1);
                assert(m == k0 * l);
                assert((k - 1) * l == k0 * l);
                assert(k * l == k0 * l + l) by (nonlinear_arith)
                    requires
                        k == k0 + 1,
                ;
                assert forall|i: int| 0 <= i < k implies #[trigger] after.chunks[i] == concat(
                    spec_chunk_rows(pieces, limit, i),
                ) by {
                    if i < k0 {
                        assert((i + 1) * l <= k0 * l) by (nonlinear_arith)
                            requires
                                i + 1 <= k0,
                                l >= 0,
                        ;
                        assert(0 <= i * l <= (i + 1) * l) by (nonlinear_arith)
                            requires
                                0 <= i,
                                l >= 0,
                        ;
                        assert(spec_chunk_rows(pieces, limit, i) =~= spec_chunk_rows(
                            head,
                            limit,
                            i,
                        ));
                        assert(after.chunks[i] == before.chunks[i]);
                    } else {
                        assert((i + 1) * l == k0 * l + l) by (nonlinear_arith)
                            requires
                                i == k0,
                        ;
                        assert(spec_chunk_rows(pieces, limit, i) =~= Seq::<Seq<u8>>::empty().push(
                            piece,
                        ));
                        lemma_concat_push(Seq::<Seq<u8>>::empty(), piece);
                        assert(concat(Seq::<Seq<u8>>::empty()) =~= Seq::<u8>::empty());
                        assert(after.chunks[i] =~= concat(spec_chunk_rows(pieces, limit, i)));
                    }
                }
            } else {
                assert(k == k0);
                assert forall|i: int| 0 <= i < k implies #[trigger] after.chunks[i] == concat(
                    spec_chunk_rows(pieces, limit, i),
                ) by {
                    assert(0 <= i * l <= (i + 1) * l) by (nonlinear_arith)
                        requires
                            0 <= i,
                            l >= 0,
                    ;
                    if i < k0 - 1 {
                        assert((i + 1) * l <= (k0 - 1) * l) by (nonlinear_arith)
                            requires
                                i + 1 <= k0 - 1,
                                l >= 0,
                        ;
                        assert(spec_chunk_rows(pieces, limit, i) =~= spec_chunk_rows(
                            head,
                            limit,
                            i,
                        ));
                        assert(after.chunks[i] == before.chunks[i]);
                    } else {
                        assert((i + 1) * l == k0 * l) by (nonlinear_arith)
                            requires
                                i == k0 - 1,
                        ;
                        assert(i * l == (k0 - 1) * l);
                        let rows = spec_chunk_rows(head, limit, i);
                        assert(rows =~= head.subrange(i * l, m));
                        assert(spec_chunk_rows(pieces, limit, i) =~= rows.push(piece));
                        lemma_concat_push(rows, piece);
                        assert(before.chunks[i] == concat(rows));
                        assert(after.chunks[i] == before.chunks.last() + piece);
                    }
                }
            }
        }
    }
}

proof fn lemma_stream_matches_unary(pieces: Seq<Seq<u8>>, limit: usize)
    requires
        limit > 0,
    ensures
        ({
            let unary = UnaryState::run(pieces, limit);
            let trace = StreamTrace::run(pieces, limit);
            &&& !trace.state.finished
            &&& trace.state.record_cnt < limit
            &&& trace.state.record_cnt == 0 ==> unary.chunks == trace.emitted && (pieces.len() == 0
                || unary.record_cnt == limit)
            &&& trace.state.record_cnt > 0 ==> unary.chunks == trace.emitted.push(
                trace.state.chunk,
            ) && unary.record_cnt == trace.state.record_cnt
            &&& pieces.len() == 0 <==> unary.chunks.len() == 0
        }),
    decreases pieces.len(),
{
    if pieces.len() > 0 {
        let head = pieces.drop_last();
        lemma_stream_matches_unary(head, limit);
        let unary = UnaryState::run(head, limit);
        let trace = StreamTrace::run(head, limit);
        let piece = pieces.last();
        let next_unary = unary.push(piece, limit);
        let next_trace = trace.feed(piece, limit);
        let state = trace.state.row(piece);
        if trace.state.record_cnt == 0 {
            assert(state.chunk =~= piece);
            assert(next_unary.chunks == trace.emitted.push(piece));
        } else {
            assert(next_unary.chunks =~= trace.emitted.push(trace.state.chunk + piece));
        }
    }
}

/// A plan that is streamed in chunks of at most `limit` rows, with `limit`
/// above zero, sends the very chunks that one response would hold.
pub proof fn lemma_stream_chunks_are_unary_chunks(pieces: Seq<Seq<u8>>, limit: usize)
    requires
        limit > 0,
    ensures
        spec_stream_chunks(pieces, limit) == spec_unary_chunks(pieces, limit),
{
    lemma_stream_matches_unary(pieces, limit);
}

/// The chunks of a stream, one after the other, are the rows that one
/// response would hold, whatever the two limits are, as long as that of the
/// stream is above zero.
pub proof fn lemma_stream_concat_is_unary_concat(
    pieces: Seq<Seq<u8>>,
    stream_limit: usize,
    unary_limit: usize,
)
    requires
        stream_limit > 0,
    ensures
        concat(spec_stream_chunks(pieces, stream_limit)) == concat(
            spec_unary_chunks(pieces, unary_limit),
        ),
        concat(spec_stream_chunks(pieces, stream_limit)) == concat(pieces),
{
    lemma_stream_chunks_are_unary_chunks(pieces, stream_limit);
    lemma_unary_chunks_hold_rows(pieces, stream_limit);
    lemma_unary_chunks_hold_rows(pieces, unary_limit);
}

/// A stream whose first pull finds the executor exhausted sends nothing
/// and ends.
pub proof fn lemma_stream_of_nothing_is_done(limit: usize)
    ensures
        StreamState::start().decide(limit) == StreamProgress::Pull <==> limit > 0,
        StreamState::start().exhausted().decide(limit) == StreamProgress::Done,
        spec_stream_chunks(Seq::empty(), limit) == Seq::<Seq<u8>>::empty(),
{
}

} // verus!
