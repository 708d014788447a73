//! A request body that can be sent again.
//!
//! The bytes of a body can be read from their origin only once. A
//! `ReplayBody` keeps what was read, up to a budget, so that a later clone
//! yields the same bytes without reading the origin again. One body state
//! exists per request; it is held by the clone that is being read and lies in
//! a shared slot between two readings.
//!
//! Reading the origin is the caller's part. `poll_data` and `poll_trailers`
//! decide what a reader gets next; where that is more of the origin, the
//! caller reads it and reports the outcome with `on_data`, `on_end` or
//! `on_trailers`.
use crate::buf_list::{spec_advance, spec_nonempty, spec_split, BufList};
use crate::chunk::{
    bytes_advance, bytes_chunk, bytes_copy_to_bytes, bytes_remaining, bytes_seq,
};
use crate::size_hint::SizeHint;
use bytes::Bytes;
use http::HeaderMap;
use parking_lot::Mutex;
use std::sync::Arc;
use vstd::prelude::*;

verus! {

/// `http::HeaderMap`: the trailers of a body. They are carried along and
/// cloned, never looked into.
#[verifier::external_type_specification]
#[verifier::external_body]
#[verifier::reject_recursive_types(T)]
pub struct ExHeaderMap<T>(http::HeaderMap<T>);

/// `http::HeaderValue`: what a `HeaderMap` holds for each name.
#[verifier::external_type_specification]
#[verifier::external_body]
pub struct ExHeaderValue(http::HeaderValue);

/// `lock_api::Mutex`, of which `parking_lot::Mutex` is an instance: the
/// lock around the shared slot. What it guards changes under the hands of
/// other threads, so nothing is known of it.
#[verifier::external_type_specification]
#[verifier::external_body]
#[verifier::reject_recursive_types(R)]
#[verifier::reject_recursive_types(T)]
pub struct ExMutex<R, T: ?Sized>(parking_lot::lock_api::Mutex<R, T>);

/// `parking_lot::RawMutex`: the lock proper inside a `parking_lot::Mutex`.
#[verifier::external_type_specification]
#[verifier::external_body]
pub struct ExRawMutex(parking_lot::RawMutex);

/// The failure of a replay: the bytes to replay were discarded when the body
/// outgrew its budget.
#[derive(Debug)]
pub struct Capped;

impl Capped {
    /// The text of the failure.
    pub fn to_string(&self) -> (text: String)
        ensures
            text@ == "replay body discarded after reaching maximum buffered bytes limit"@,
    {
        "replay body discarded after reaching maximum buffered bytes limit".to_string()
    }
}

/// What `Data` holds: the bytes of one chunk, or the chunks of a replay.
pub ghost enum DataView {
    Initial(Seq<u8>),
    Replay(Seq<Seq<u8>>),
}

impl DataView {
    /// The bytes that a reader gets, in order.
    pub open spec fn bytes(self) -> Seq<u8> {
        match self {
            DataView::Initial(b) => b,
            DataView::Replay(chunks) => chunks.flatten(),
        }
    }

    /// The stretch of bytes that lies first in memory.
    pub open spec fn chunk(self) -> Seq<u8> {
        match self {
            DataView::Initial(b) => b,
            DataView::Replay(chunks) => if chunks.len() > 0 {
                chunks[0]
            } else {
                Seq::empty()
            },
        }
    }

    /// The stretches that hold any bytes, in order.
    pub open spec fn nonempty(self) -> Seq<Seq<u8>> {
        match self {
            DataView::Initial(b) => if b.len() > 0 {
                seq![b]
            } else {
                Seq::empty()
            },
            DataView::Replay(chunks) => spec_nonempty(chunks),
        }
    }

    /// What is left after `amt` bytes were read.
    pub open spec fn advance(self, amt: nat) -> DataView {
        match self {
            DataView::Initial(b) => DataView::Initial(b.skip(amt as int)),
            DataView::Replay(chunks) => DataView::Replay(spec_advance(chunks, amt)),
        }
    }

    /// What is left after the first `len` bytes were taken out as one chunk.
    pub open spec fn split(self, len: nat) -> DataView {
        match self {
            DataView::Initial(b) => DataView::Initial(b.skip(len as int)),
            DataView::Replay(chunks) => DataView::Replay(spec_split(chunks, len)),
        }
    }
}

/// The bytes that one reading of a `ReplayBody` yields: a chunk that has
/// just been read from the origin, or the chunks kept from earlier readings.
#[derive(Debug)]
pub enum Data {
    Initial(Bytes),
    Replay(BufList),
}

impl View for Data {
    type V = DataView;

    open spec fn view(&self) -> DataView {
        match self {
            Data::Initial(b) => DataView::Initial(bytes_seq(*b)),
            Data::Replay(list) => DataView::Replay(list@),
        }
    }
}

impl Data {
    /// The number of bytes left to read.
    pub fn remaining(&self) -> (n: usize)
        ensures
            n == self@.bytes().len(),
    {
        match self {
            Data::Initial(buf) => bytes_remaining(buf),
            Data::Replay(bufs) => bufs.remaining(),
        }
    }

    /// The next stretch of bytes; empty only where `Data::Replay` holds an
    /// empty first chunk or nothing is left.
    pub fn chunk(&self) -> (s: &[u8])
        ensures
            s@ == self@.chunk(),
    {
        match self {
            Data::Initial(buf) => bytes_chunk(buf),
            Data::Replay(bufs) => bufs.chunk(),
        }
    }

    /// Up to `slots` slices for a vectored write: the first stretches that
    /// hold any bytes, in order.
    pub fn chunks_vectored(&self, slots: usize) -> (filled: Vec<&[u8]>)
        ensures
            filled@.len() == if slots <= self@.nonempty().len() {
                slots as int
            } else {
                self@.nonempty().len() as int
            },
            forall|k: int| 0 <= k < filled@.len() ==> (#[trigger] filled@[k])@ == self@.nonempty()[k],
    {
        match self {
            Data::Initial(buf) => {
                let mut filled: Vec<&[u8]> = Vec::new();
                if slots > 0 && bytes_remaining(buf) > 0 {
                    filled.push(bytes_chunk(buf));
                }
                filled
            },
            Data::Replay(bufs) => bufs.chunks_vectored(slots),
        }
    }

    /// Reads `amt` bytes off the front.
    pub fn advance(&mut self, amt: usize)
        requires
            amt <= old(self)@.bytes().len(),
        ensures
            final(self)@ == old(self)@.advance(amt as nat),
            final(self)@.bytes() == old(self)@.bytes().skip(amt as int),
    {
        match self {
            Data::Initial(buf) => bytes_advance(buf, amt),
            Data::Replay(bufs) => bufs.advance(amt),
        }
    }

    /// Takes the first `len` bytes out as one chunk.
    pub fn copy_to_bytes(&mut self, len: usize) -> (out: Bytes)
        requires
            len <= old(self)@.bytes().len(),
            len <= isize::MAX,
        ensures
            bytes_seq(out) == old(self)@.bytes().take(len as int),
            final(self)@ == old(self)@.split(len as nat),
            final(self)@.bytes() == old(self)@.bytes().skip(len as int),
    {
        match self {
            Data::Initial(buf) => bytes_copy_to_bytes(buf, len),
            Data::Replay(bufs) => bufs.copy_to_bytes(len),
        }
    }
}

/// What a reader of the body gets next, as far as that can be decided
/// without touching the origin.
pub ghost enum DataStep {
    /// The kept chunks, all at once.
    Replay(Seq<Seq<u8>>),
    /// A failure: the kept chunks are gone.
    Capped,
    /// The end of the body.
    End,
    /// Whatever the origin yields next.
    Origin,
}

/// What a reader of the trailers gets next.
pub ghost enum TrailersStep {
    /// The trailers seen earlier.
    Replay(HeaderMap),
    /// Whatever the origin yields.
    Origin,
    /// No trailers.
    Absent,
}

/// The state of one body: what was read so far and what may still be kept.
pub ghost struct StateView<B> {
    /// The chunks kept so far, oldest first.
    pub buffered: Seq<Seq<u8>>,
    /// The trailers, once they were seen.
    pub trailers: Option<HeaderMap>,
    /// The origin, as long as it is held.
    pub rest: Option<B>,
    /// Whether the origin has reported its end.
    pub is_completed: bool,
    /// The number of bytes that may still be kept.
    pub budget: nat,
    /// Whether more bytes arrived than may be kept.
    pub capped: bool,
}

impl<B> StateView<B> {
    /// The state of a body of which nothing has been read.
    pub open spec fn initial(body: B, max_bytes: nat) -> StateView<B> {
        StateView {
            buffered: Seq::empty(),
            trailers: None,
            rest: Some(body),
            is_completed: false,
            budget: max_bytes,
            capped: false,
        }
    }

    /// All kept bytes, in order.
    pub open spec fn bytes(self) -> Seq<u8> {
        self.buffered.flatten()
    }

    /// What every state satisfies: a capped state keeps no byte, and what
    /// another one keeps and may yet keep can be counted in a `usize`.
    pub open spec fn valid(self) -> bool {
        if self.capped {
            self.bytes().len() == 0 && self.budget == 0
        } else {
            self.bytes().len() + self.budget <= usize::MAX
        }
    }

    /// The state after the origin yielded the chunk `data`: the chunk is kept
    /// if the budget allows it; if not, everything kept is discarded and the
    /// state is capped from then on.
    pub open spec fn on_data(self, data: Seq<u8>) -> StateView<B> {
        if self.capped {
            self
        } else if data.len() > self.budget {
            StateView {
                buffered: if self.bytes().len() > 0 {
                    Seq::empty()
                } else {
                    self.buffered
                },
                budget: 0,
                capped: true,
                ..self
            }
        } else {
            StateView {
                buffered: self.buffered.push(data),
                budget: (self.budget - data.len()) as nat,
                ..self
            }
        }
    }

    /// The state after the origin reported its end.
    pub open spec fn on_end(self) -> StateView<B> {
        StateView { is_completed: true, ..self }
    }

    /// The state after the origin yielded trailers, or the lack of them: the
    /// first trailers seen are kept.
    pub open spec fn on_trailers(self, trailers: Option<HeaderMap>) -> StateView<B> {
        if self.trailers is None {
            StateView { trailers, ..self }
        } else {
            self
        }
    }

    /// What a reader gets next, and whether it has yet to replay after that.
    /// `replay_body` says whether the reader has yet to replay the kept
    /// chunks.
    pub open spec fn next_data(self, replay_body: bool) -> (DataStep, bool) {
        if replay_body && self.bytes().len() > 0 {
            (DataStep::Replay(self.buffered), false)
        } else if replay_body && self.capped {
            (DataStep::Capped, replay_body)
        } else if self.is_completed || self.rest is None {
            (DataStep::End, replay_body)
        } else {
            (DataStep::Origin, replay_body)
        }
    }

    /// What a reader of the trailers gets next. `replay_trailers` says
    /// whether the reader has yet to replay the kept trailers, `rest_ended`
    /// whether the origin says that it is at its end.
    pub open spec fn next_trailers(self, replay_trailers: bool, rest_ended: bool) -> TrailersStep {
        if replay_trailers && self.trailers is Some {
            TrailersStep::Replay(self.trailers->0)
        } else if self.rest is Some && !rest_ended {
            TrailersStep::Origin
        } else {
            TrailersStep::Absent
        }
    }

    /// The state after the origin yielded each of `chunks`, in order.
    pub open spec fn on_all(self, chunks: Seq<Seq<u8>>) -> StateView<B>
        decreases chunks.len(),
    {
        if chunks.len() == 0 {
            self
        } else {
            self.on_all(chunks.drop_last()).on_data(chunks.last())
        }
    }
}

/// The state of one body. It is held by the clone that is being read.
struct BodyState<B> {
    buf: BufList,
    trailers: Option<HeaderMap>,
    rest: Option<B>,
    is_completed: bool,
    budget: usize,
    capped: bool,
}

impl<B> View for BodyState<B> {
    type V = StateView<B>;

    closed spec fn view(&self) -> StateView<B> {
        StateView {
            buffered: self.buf@,
            trailers: self.trailers,
            rest: self.rest,
            is_completed: self.is_completed,
            budget: self.budget as nat,
            capped: self.capped,
        }
    }
}

impl<B> BodyState<B> {
    #[verifier::type_invariant]
    spec fn valid(self) -> bool {
        self@.valid()
    }

    fn new(body: B, max_bytes: usize) -> (state: Self)
        ensures
            state@ == StateView::initial(body, max_bytes as nat),
    {
        let buf = BufList::new();
        BodyState {
            buf,
            trailers: None,
            rest: Some(body),
            is_completed: false,
            budget: max_bytes,
            capped: false,
        }
    }

    fn is_capped(&self) -> (capped: bool)
        ensures
            capped == self@.capped,
    {
        self.capped
    }

    /// Hands out the origin.
    fn take_rest(&mut self) -> (rest: Option<B>)
        ensures
            rest == old(self)@.rest,
            final(self)@ == (StateView { rest: None, ..old(self)@ }),
    {
        proof {
            use_type_invariant(&*self);
        }
        let mut rest: Option<B> = None;
        std::mem::swap(&mut rest, &mut self.rest);
        rest
    }

    /// Takes the origin back.
    fn put_rest(&mut self, rest: B)
        ensures
            final(self)@ == (StateView { rest: Some(rest), ..old(self)@ }),
    {
        proof {
            use_type_invariant(&*self);
        }
        self.rest = Some(rest);
    }

    /// Records that the origin reported its end.
    fn on_end(&mut self)
        ensures
            final(self)@ == old(self)@.on_end(),
    {
        proof {
            use_type_invariant(&*self);
        }
        self.is_completed = true;
    }

    /// Keeps the first trailers that the origin yields.
    fn on_trailers(&mut self, trailers: &Option<HeaderMap>)
        ensures
            final(self)@ == old(self)@.on_trailers(*trailers),
    {
        proof {
            use_type_invariant(&*self);
        }
        if self.trailers.is_none() {
            self.trailers = match trailers {
                Some(headers) => Some(headers_clone(headers)),
                None => None,
            };
        }
    }

    /// Accounts for a chunk that the origin yielded and hands it on.
    fn on_data(&mut self, data: Bytes) -> (chunk: Bytes)
        ensures
            final(self)@ == old(self)@.on_data(bytes_seq(data)),
            bytes_seq(chunk) == bytes_seq(data),
    {
        proof {
            use_type_invariant(&*self);
        }
        let length = bytes_remaining(&data);
        if self.capped {
            data
        } else if length > self.budget {
            let mut buf = BufList::new();
            std::mem::swap(&mut buf, &mut self.buf);
            if buf.has_remaining() {
                buf = BufList::new();
            }
            self.budget = 0;
            self.capped = true;
            self.buf = buf;
            data
        } else {
            let mut buf = BufList::new();
            std::mem::swap(&mut buf, &mut self.buf);
            proof {
                buf@.lemma_flatten_push(bytes_seq(data));
            }
            let chunk = buf.push_chunk(data);
            self.budget = self.budget - length;
            self.buf = buf;
            chunk
        }
    }
}

/// What all the clones of one body have in common: the slot in which the
/// body state lies while no clone is being read, and what was known of the
/// origin when it was wrapped.
#[verifier::reject_recursive_types(B)]
pub struct SharedState<B> {
    body: Mutex<Option<BodyState<B>>>,
    was_empty: bool,
    orig_size_hint: SizeHint,
}

/// `Mutex::new`: a slot that holds no state.
#[verifier::external_body]
fn slot_new<B>() -> Mutex<Option<BodyState<B>>> {
    Mutex::new(None)
}

/// `Mutex::lock`, then `Option::take` on what the lock guards: whatever state
/// lies in the slot leaves it. Which state that is depends on what the other
/// clones did, so nothing is promised of it.
#[verifier::external_body]
fn slot_take<B>(slot: &Mutex<Option<BodyState<B>>>) -> Option<BodyState<B>> {
    slot.lock().take()
}

/// `Mutex::lock`, then an assignment through the guard: the state lies in
/// the slot from now on.
#[verifier::external_body]
fn slot_put<B>(slot: &Mutex<Option<BodyState<B>>>, state: BodyState<B>) {
    *slot.lock() = Some(state);
}

/// `Mutex::lock`, then a look at the state in the slot, if there is one:
/// whether it is capped.
#[verifier::external_body]
fn slot_is_capped<B>(slot: &Mutex<Option<BodyState<B>>>) -> Option<bool> {
    slot.lock().as_ref().map(|state| state.capped)
}

/// `Arc::clone`: another pointer to the same shared value.
#[verifier::external_body]
fn share<B>(shared: &Arc<SharedState<B>>) -> (same: Arc<SharedState<B>>)
    ensures
        same == *shared,
{
    shared.clone()
}

/// `Clone::clone` on `HeaderMap`: a map that equals the given one.
#[verifier::external_body]
fn headers_clone(headers: &HeaderMap) -> (copy: HeaderMap)
    ensures
        copy == *headers,
{
    headers.clone()
}

/// What `poll_data` decides.
pub enum DataPoll {
    /// The reader gets these bytes: all that was kept.
    Replay(Data),
    /// The reader gets this failure.
    Capped(Capped),
    /// The reader is told that the body has ended.
    End,
    /// The reader gets what the origin yields next. The caller reads the
    /// origin and reports a chunk with `on_data` and the end with `on_end`.
    Origin,
    /// Nothing can be decided: another clone holds the body state.
    Unowned,
}

impl DataPoll {
    /// Whether this decision is the given step.
    pub open spec fn is_step(&self, step: DataStep) -> bool {
        match (*self, step) {
            (DataPoll::Replay(data), DataStep::Replay(chunks)) => data@ == DataView::Replay(chunks),
            (DataPoll::Capped(_), DataStep::Capped) => true,
            (DataPoll::End, DataStep::End) => true,
            (DataPoll::Origin, DataStep::Origin) => true,
            _ => false,
        }
    }
}

/// What `poll_trailers` decides.
pub enum TrailersPoll {
    /// The reader gets these trailers: the ones seen earlier.
    Replay(HeaderMap),
    /// The reader gets what the origin yields. The caller reads the origin's
    /// trailers and reports them with `on_trailers`.
    Origin,
    /// The reader is told that there are no trailers.
    Absent,
    /// Nothing can be decided: another clone holds the body state.
    Unowned,
}

impl TrailersPoll {
    /// Whether this decision is the given step.
    pub open spec fn is_step(&self, step: TrailersStep) -> bool {
        match (*self, step) {
            (TrailersPoll::Replay(mine), TrailersStep::Replay(kept)) => mine == kept,
            (TrailersPoll::Origin, TrailersStep::Origin) => true,
            (TrailersPoll::Absent, TrailersStep::Absent) => true,
            _ => false,
        }
    }
}

/// What a `ReplayBody` is made of.
#[verifier::reject_recursive_types(B)]
pub ghost struct ReplayView<B> {
    /// The body state, while this clone holds it.
    pub state: Option<StateView<B>>,
    /// Whether this clone has yet to replay the kept chunks.
    pub replay_body: bool,
    /// Whether this clone has yet to replay the kept trailers.
    pub replay_trailers: bool,
    /// Whether the origin was at its end when it was wrapped.
    pub was_empty: bool,
    /// The size hint of the origin when it was wrapped.
    pub orig_size_hint: SizeHint,
    /// What this clone shares with the others of its body.
    pub shared: SharedState<B>,
}

/// A body whose bytes are kept as they are read, so that a clone of it can
/// yield them again.
#[verifier::reject_recursive_types(B)]
pub struct ReplayBody<B> {
    state: Option<BodyState<B>>,
    shared: Arc<SharedState<B>>,
    replay_body: bool,
    replay_trailers: bool,
}

impl<B> View for ReplayBody<B> {
    type V = ReplayView<B>;

    closed spec fn view(&self) -> ReplayView<B> {
        ReplayView {
            state: match self.state {
                Some(state) => Some(state@),
                None => None,
            },
            replay_body: self.replay_body,
            replay_trailers: self.replay_trailers,
            was_empty: self.shared.was_empty,
            orig_size_hint: self.shared.orig_size_hint,
            shared: *self.shared,
        }
    }
}

impl<B> ReplayBody<B> {
    /// Wraps the origin `body`, of which at most `max_bytes` bytes will be
    /// kept. `size_hint` and `is_end_stream` are what the origin says of
    /// itself. An origin that announces more than `max_bytes` bytes is handed
    /// back.
    pub fn try_new(body: B, max_bytes: usize, size_hint: SizeHint, is_end_stream: bool) -> (made:
        Result<Self, B>)
        ensures
            match made {
                Ok(replay) => {
                    &&& size_hint.spec_lower() <= max_bytes
                    &&& replay@.state == Some(StateView::initial(body, max_bytes as nat))
                    &&& !replay@.replay_body
                    &&& !replay@.replay_trailers
                    &&& replay@.was_empty == is_end_stream
                    &&& replay@.orig_size_hint == size_hint
                },
                Err(origin) => size_hint.spec_lower() > max_bytes && origin == body,
            },
    {
        if size_hint.lower() > max_bytes as u64 {
            return Err(body);
        }
        Ok(
            ReplayBody {
                shared: Arc::new(
                    SharedState { body: slot_new(), orig_size_hint: size_hint, was_empty: is_end_stream },
                ),
                state: Some(BodyState::new(body, max_bytes)),
                replay_body: false,
                replay_trailers: false,
            },
        )
    }

    /// Whether this clone holds the body state.
    pub fn owns_state(&self) -> (owns: bool)
        ensures
            owns == (self@.state is Some),
    {
        self.state.is_some()
    }

    /// Makes `taken` the state of this clone, unless it holds one already.
    fn adopt(&mut self, taken: Option<BodyState<B>>)
        ensures
            final(self)@ == (ReplayView {
                state: if old(self)@.state is Some {
                    old(self)@.state
                } else {
                    match taken {
                        Some(state) => Some(state@),
                        None => None,
                    }
                },
                ..old(self)@
            }),
    {
        if self.state.is_none() {
            self.state = taken;
        }
    }

    /// Fetches the body state from the shared slot, unless this clone holds
    /// it already, and says whether this clone holds it now. Whether the
    /// slot holds it is for the other clones to say: a clone that is read
    /// holds it until it is released.
    pub fn acquire_state(&mut self) -> (owns: bool)
        ensures
            old(self)@.state is Some ==> final(self)@ == old(self)@,
            final(self)@ == (ReplayView { state: final(self)@.state, ..old(self)@ }),
            owns == (final(self)@.state is Some),
    {
        if self.state.is_none() {
            let taken = slot_take(&self.shared.body);
            self.adopt(taken);
        }
        self.state.is_some()
    }

    /// The number of bytes that are kept for a replay, where this clone
    /// holds the body state.
    pub fn buffered(&self) -> (kept: Option<usize>)
        ensures
            match kept {
                Some(count) => self@.state is Some && count == self@.state->0.bytes().len(),
                None => self@.state is None,
            },
    {
        match &self.state {
            Some(state) => Some(state.buf.remaining()),
            None => None,
        }
    }

    /// Whether the body was capped: more bytes arrived than may be kept, so
    /// that no clone can replay it. `None` where no state is to be found,
    /// neither with this clone nor in the shared slot.
    pub fn is_capped(&self) -> (capped: Option<bool>)
        ensures
            self@.state matches Some(state) ==> capped == Some(state.capped),
    {
        match &self.state {
            Some(state) => Some(state.is_capped()),
            None => slot_is_capped(&self.shared.body),
        }
    }

    /// Decides what the reader of this clone gets next. A clone that does
    /// not hold the body state first fetches it from the shared slot.
    pub fn poll_data(&mut self) -> (poll: DataPoll)
        ensures
            old(self)@.state is Some ==> final(self)@.state == old(self)@.state,
            match final(self)@.state {
                Some(state) => {
                    &&& poll.is_step(state.next_data(old(self)@.replay_body).0)
                    &&& final(self)@ == (ReplayView {
                        state: Some(state),
                        replay_body: state.next_data(old(self)@.replay_body).1,
                        ..old(self)@
                    })
                },
                None => poll is Unowned && final(self)@ == old(self)@,
            },
    {
        self.acquire_state();
        match &self.state {
            None => DataPoll::Unowned,
            Some(state) => {
                if self.replay_body {
                    if state.buf.has_remaining() {
                        let kept = state.buf.clone();
                        self.replay_body = false;
                        return DataPoll::Replay(Data::Replay(kept));
                    }
                    if state.is_capped() {
                        return DataPoll::Capped(Capped);
                    }
                }
                if state.is_completed || state.rest.is_none() {
                    DataPoll::End
                } else {
                    DataPoll::Origin
                }
            },
        }
    }

    /// Accounts for the chunk `data` that the origin yielded, and hands the
    /// reader its bytes.
    pub fn on_data(&mut self, data: Bytes) -> (out: Data)
        requires
            old(self)@.state is Some,
        ensures
            final(self)@ == (ReplayView {
                state: Some(old(self)@.state->0.on_data(bytes_seq(data))),
                ..old(self)@
            }),
            out@ == DataView::Initial(bytes_seq(data)),
    {
        match &mut self.state {
            Some(state) => {
                let chunk = state.on_data(data);
                Data::Initial(chunk)
            },
            None => Data::Initial(data),
        }
    }

    /// Records that the origin reported its end.
    pub fn on_end(&mut self)
        requires
            old(self)@.state is Some,
        ensures
            final(self)@ == (ReplayView {
                state: Some(old(self)@.state->0.on_end()),
                ..old(self)@
            }),
    {
        match &mut self.state {
            Some(state) => state.on_end(),
            None => {},
        }
    }

    /// Decides what the reader of this clone's trailers gets next.
    /// `rest_ended` is what the origin, if this clone holds it, says of
    /// itself: whether it is at its end. A clone that does not hold the body
    /// state first fetches it from the shared slot.
    pub fn poll_trailers(&mut self, rest_ended: bool) -> (poll: TrailersPoll)
        ensures
            old(self)@.state is Some ==> final(self)@.state == old(self)@.state,
            match final(self)@.state {
                Some(state) => {
                    &&& poll.is_step(state.next_trailers(old(self)@.replay_trailers, rest_ended))
                    &&& final(self)@ == (ReplayView {
                        state: Some(state),
                        replay_trailers: false,
                        ..old(self)@
                    })
                },
                None => poll is Unowned && final(self)@ == old(self)@,
            },
    {
        self.acquire_state();
        match &self.state {
            None => TrailersPoll::Unowned,
            Some(state) => {
                if self.replay_trailers {
                    self.replay_trailers = false;
                    if let Some(trailers) = &state.trailers {
                        return TrailersPoll::Replay(headers_clone(trailers));
                    }
                }
                if state.rest.is_some() && !rest_ended {
                    TrailersPoll::Origin
                } else {
                    TrailersPoll::Absent
                }
            },
        }
    }

    /// Keeps the trailers that the origin yielded, unless some were kept
    /// before, and hands them to the reader.
    pub fn on_trailers(&mut self, trailers: Option<HeaderMap>) -> (out: Option<HeaderMap>)
        requires
            old(self)@.state is Some,
        ensures
            final(self)@ == (ReplayView {
                state: Some(old(self)@.state->0.on_trailers(trailers)),
                ..old(self)@
            }),
            out == trailers,
    {
        match &mut self.state {
            Some(state) => state.on_trailers(&trailers),
            None => {},
        }
        trailers
    }

    /// Whether nothing is left for the reader of this clone. `rest_ended` is
    /// what the origin, if this clone holds it, says of itself.
    pub fn is_end_stream(&self, rest_ended: bool) -> (ended: bool)
        ensures
            ended == (self@.was_empty || (!self@.replay_body && !self@.replay_trailers
                && self@.state is Some && self@.state->0.rest is Some && rest_ended)),
    {
        if self.shared.was_empty {
            return true;
        }
        let is_inner_eos = match &self.state {
            Some(state) => state.rest.is_some() && rest_ended,
            None => false,
        };
        !self.replay_body && !self.replay_trailers && is_inner_eos
    }

    /// Bounds on what the reader of this clone still gets. `rest_hint` is
    /// what the origin, if this clone holds it, says of itself. The sums of
    /// the kept bytes and of the origin's bounds must fit in a `u64`.
    pub fn size_hint(&self, rest_hint: SizeHint) -> (hint: SizeHint)
        requires
            self@.state matches Some(state) ==> (state.rest is Some ==> {
                &&& state.bytes().len() + rest_hint.spec_lower() <= u64::MAX
                &&& rest_hint.spec_upper() matches Some(upper) ==> state.bytes().len() + upper
                    <= u64::MAX
            }),
        ensures
            match self@.state {
                None => hint == self@.orig_size_hint,
                Some(state) => if state.rest is None {
                    &&& hint.spec_lower() == state.bytes().len()
                    &&& hint.spec_upper() == Some(state.bytes().len() as u64)
                } else {
                    &&& hint.spec_lower() == state.bytes().len() + rest_hint.spec_lower()
                    &&& hint.spec_upper() == match rest_hint.spec_upper() {
                        Some(upper) => Some((state.bytes().len() + upper) as u64),
                        None => None,
                    }
                },
            },
    {
        let state = match &self.state {
            Some(state) => state,
            None => return self.shared.orig_size_hint,
        };
        let buffered = state.buf.remaining() as u64;
        if state.rest.is_none() {
            return SizeHint::with_exact(buffered);
        }
        let mut hint = SizeHint::new();
        let rest_lower = rest_hint.lower();
        hint.set_lower(buffered + rest_lower);
        if let Some(rest_upper) = rest_hint.upper() {
            hint.set_upper(buffered + rest_upper);
        }
        hint
    }

    /// The origin, where this clone holds it.
    pub fn rest(&self) -> (rest: Option<&B>)
        ensures
            match rest {
                Some(origin) => self@.state is Some && self@.state->0.rest == Some(*origin),
                None => self@.state is None || self@.state->0.rest is None,
            },
    {
        match &self.state {
            Some(state) => state.rest.as_ref(),
            None => None,
        }
    }

    /// Takes the origin out of this clone, to read from it. The caller puts
    /// it back with `put_rest`.
    pub fn take_rest(&mut self) -> (rest: Option<B>)
        ensures
            match old(self)@.state {
                Some(state) => rest == state.rest && final(self)@ == (ReplayView {
                    state: Some(StateView { rest: None, ..state }),
                    ..old(self)@
                }),
                None => rest is None && final(self)@ == old(self)@,
            },
    {
        match &mut self.state {
            Some(state) => state.take_rest(),
            None => None,
        }
    }

    /// Puts the origin back into this clone.
    pub fn put_rest(&mut self, rest: B)
        requires
            old(self)@.state is Some,
        ensures
            final(self)@ == (ReplayView {
                state: Some(StateView { rest: Some(rest), ..old(self)@.state->0 }),
                ..old(self)@
            }),
    {
        match &mut self.state {
            Some(state) => state.put_rest(rest),
            None => {},
        }
    }

    /// Gives the body state, if this clone holds it, back to the shared
    /// slot, where the next clone finds it. To be called when the reading of
    /// this clone is over.
    pub fn release(&mut self)
        ensures
            final(self)@ == (ReplayView { state: None, ..old(self)@ }),
    {
        let held = self.state.take();
        if let Some(state) = held {
            slot_put(&self.shared.body, state);
        }
    }
}

impl<B> Clone for ReplayBody<B> {
    /// A clone for another reading of the same body: it holds no state yet,
    /// and replays what was kept before it reads anything new.
    fn clone(&self) -> (copy: Self)
        ensures
            copy@ == (ReplayView {
                state: None,
                replay_body: true,
                replay_trailers: true,
                ..self@
            }),
    {
        ReplayBody { state: None, shared: share(&self.shared), replay_body: true, replay_trailers: true }
    }
}

impl<B> StateView<B> {
    /// The bytes that a new clone yields when it holds this state and is
    /// read until it reports the end, or `None` where it fails or turns to
    /// the origin before that.
    pub open spec fn replayed(self) -> Option<Seq<u8>> {
        let (first, again) = self.next_data(true);
        match first {
            DataStep::Replay(chunks) => if self.next_data(again).0 is End {
                Some(chunks.flatten())
            } else {
                None
            },
            DataStep::End => Some(Seq::empty()),
            _ => None,
        }
    }
}

/// As long as the budget suffices, every chunk that the origin yields is
/// kept, in order, and the budget shrinks by its length.
pub proof fn lemma_chunks_within_budget_are_kept<B>(state: StateView<B>, chunks: Seq<Seq<u8>>)
    requires
        !state.capped,
        chunks.flatten().len() <= state.budget,
    ensures
        state.on_all(chunks) == (StateView {
            buffered: state.buffered + chunks,
            budget: (state.budget - chunks.flatten().len()) as nat,
            ..state
        }),
    decreases chunks.len(),
{
    if chunks.len() > 0 {
        let front = chunks.drop_last();
        assert(chunks =~= front.push(chunks.last()));
        front.lemma_flatten_push(chunks.last());
        lemma_chunks_within_budget_are_kept(state, front);
    }
}

/// Round trip: when the origin yielded chunks of no more than `max_bytes`
/// bytes in all and then its end, a new clone that is read to its end yields
/// exactly those bytes, in order, and never turns to the origin.
pub proof fn lemma_replay_round_trip<B>(body: B, max_bytes: nat, chunks: Seq<Seq<u8>>)
    requires
        chunks.flatten().len() <= max_bytes,
    ensures
        ({
            let drained = StateView::initial(body, max_bytes).on_all(chunks).on_end();
            &&& !drained.capped
            &&& drained.bytes() == chunks.flatten()
            &&& drained.replayed() == Some(chunks.flatten())
        }),
{
    let start = StateView::initial(body, max_bytes);
    lemma_chunks_within_budget_are_kept(start, chunks);
}

/// A new clone replays before it reads on: while the origin has not ended,
/// a clone first gets all that was kept, and only then what the origin
/// yields next.
pub proof fn lemma_clone_replays_before_it_reads_on<B>(state: StateView<B>)
    requires
        state.bytes().len() > 0,
        !state.is_completed,
        state.rest is Some,
    ensures
        state.next_data(true) == (DataStep::Replay(state.buffered), false),
        state.next_data(false) == (DataStep::Origin, false),
{
}

/// Capping: when the origin yielded more than `max_bytes` bytes, the state
/// is capped and keeps nothing, and a new clone gets the failure `Capped`
/// in place of any bytes, before and after the origin has ended.
pub proof fn lemma_over_budget_is_capped<B>(body: B, max_bytes: nat, chunks: Seq<Seq<u8>>)
    requires
        chunks.flatten().len() > max_bytes,
    ensures
        ({
            let fed = StateView::initial(body, max_bytes).on_all(chunks);
            &&& fed.capped
            &&& fed.bytes().len() == 0
            &&& fed.next_data(true) == (DataStep::Capped, true)
            &&& fed.on_end().next_data(true) == (DataStep::Capped, true)
            &&& fed.on_end().replayed() is None
        }),
    decreases chunks.len(),
{
    let start = StateView::initial(body, max_bytes);
    if chunks.len() > 0 {
        let front = chunks.drop_last();
        assert(chunks =~= front.push(chunks.last()));
        front.lemma_flatten_push(chunks.last());
        if front.flatten().len() > max_bytes {
            lemma_over_budget_is_capped(body, max_bytes, front);
        } else {
            lemma_chunks_within_budget_are_kept(start, front);
        }
    }
}

/// Every step keeps a state valid: from a valid state the origin's chunks,
/// its end and its trailers lead to valid states only.
pub proof fn lemma_steps_keep_valid<B>(state: StateView<B>, data: Seq<u8>, trailers: Option<HeaderMap>)
    requires
        state.valid(),
    ensures
        state.on_data(data).valid(),
        state.on_end().valid(),
        state.on_trailers(trailers).valid(),
{
    if !state.capped {
        if data.len() <= state.budget {
            state.buffered.lemma_flatten_push(data);
        }
    }
}

} // verus!
