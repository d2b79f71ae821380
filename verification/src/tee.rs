//! Serving a blob fetched from an upstream while it is written to the
//! cache: each chunk read from the upstream goes to the client and to the
//! storage writer, each as long as it is still there.

use vstd::prelude::*;

verus! {

/// Where a tee stands.
#[derive(Clone, Copy, Debug, PartialEq, Eq, Structural)]
pub struct TeeState {
    /// The client still reads.
    pub client_open: bool,
    /// The storage writer still takes chunks.
    pub storage_open: bool,
    /// The upstream is no longer read.
    pub finished: bool,
}

/// What happened while the upstream was read.
pub enum TeeEvent {
    /// The upstream gave a chunk.
    Chunk(Vec<u8>),
    /// Reading the upstream failed, with this message.
    SourceError(String),
    /// The upstream has no more data.
    SourceEnd,
    /// The client went away.
    ClientGone,
    /// The storage writer stopped taking chunks.
    StorageClosed,
}

/// What the tee does next.
pub enum TeeAction {
    /// Send the chunk to the client and to the storage writer, each when
    /// said, and keep reading.
    Forward { chunk: Vec<u8>, to_client: bool, to_storage: bool },
    /// Pass the failure on to each side said, close both and stop: the
    /// fan-out failed.
    Fail { message: String, to_client: bool, to_storage: bool },
    /// Close both sides and stop: the fan-out succeeded.
    Finish,
    /// Stop reading: nobody takes the data any longer.
    Stop,
    /// Nothing to send; keep reading.
    Continue,
}

/// How a tee starts: an entry that is already cached is served from the
/// cache (and touched) instead; otherwise the announced size, when there
/// is one, is made room for first.
pub enum TeeStart {
    ServeCached,
    Tee { reserve: Option<u64> },
}

/// A tee at its start: both sides open.
pub open spec fn tee_initial() -> TeeState {
    TeeState { client_open: true, storage_open: true, finished: false }
}

/// One step of the tee: the next state and what to do. Once finished,
/// nothing more happens. A chunk reaches each side that is still open; a
/// source error is passed on to each open side; the end of the source
/// closes both. A side going away stops the reading only when the other
/// side is gone too: a departed client does not stop caching, and a cache
/// that stops taking chunks does not cut the client short.
pub open spec fn tee_next(s: TeeState, e: TeeEvent) -> (TeeState, TeeAction) {
    if s.finished {
        (s, TeeAction::Continue)
    } else {
        match e {
            TeeEvent::Chunk(c) => (
                s,
                TeeAction::Forward { chunk: c, to_client: s.client_open, to_storage: s.storage_open },
            ),
            TeeEvent::SourceError(m) => (
                TeeState { client_open: s.client_open, storage_open: s.storage_open, finished: true },
                TeeAction::Fail { message: m, to_client: s.client_open, to_storage: s.storage_open },
            ),
            TeeEvent::SourceEnd => (
                TeeState { client_open: s.client_open, storage_open: s.storage_open, finished: true },
                TeeAction::Finish,
            ),
            TeeEvent::ClientGone => if s.storage_open {
                (TeeState { client_open: false, storage_open: true, finished: false }, TeeAction::Continue)
            } else {
                (TeeState { client_open: false, storage_open: false, finished: true }, TeeAction::Stop)
            },
            TeeEvent::StorageClosed => if s.client_open {
                (TeeState { client_open: true, storage_open: false, finished: false }, TeeAction::Continue)
            } else {
                (TeeState { client_open: false, storage_open: false, finished: true }, TeeAction::Stop)
            },
        }
    }
}

/// A tee at its start: both sides open.
pub fn tee_start() -> (s: TeeState)
    ensures
        s == tee_initial(),
{
    TeeState { client_open: true, storage_open: true, finished: false }
}

/// How a tee starts (see [`TeeStart`]).
pub fn tee_start_plan(already_cached: bool, expected_size: Option<u64>) -> (r: TeeStart)
    ensures
        already_cached ==> (r is ServeCached),
        !already_cached ==> (r == (TeeStart::Tee { reserve: expected_size })),
{
    if already_cached {
        TeeStart::ServeCached
    } else {
        TeeStart::Tee { reserve: expected_size }
    }
}

/// One step of the tee (see [`tee_next`]).
pub fn tee_step(s: TeeState, e: TeeEvent) -> (r: (TeeState, TeeAction))
    ensures
        r == tee_next(s, e),
{
    if s.finished {
        return (s, TeeAction::Continue);
    }
    match e {
        TeeEvent::Chunk(c) => (s, TeeAction::Forward { chunk: c, to_client: s.client_open, to_storage: s.storage_open }),
        TeeEvent::SourceError(m) => (
            TeeState { client_open: s.client_open, storage_open: s.storage_open, finished: true },
            TeeAction::Fail { message: m, to_client: s.client_open, to_storage: s.storage_open },
        ),
        TeeEvent::SourceEnd => (
            TeeState { client_open: s.client_open, storage_open: s.storage_open, finished: true },
            TeeAction::Finish,
        ),
        TeeEvent::ClientGone => if s.storage_open {
            (TeeState { client_open: false, storage_open: true, finished: false }, TeeAction::Continue)
        } else {
            (TeeState { client_open: false, storage_open: false, finished: true }, TeeAction::Stop)
        },
        TeeEvent::StorageClosed => if s.client_open {
            (TeeState { client_open: true, storage_open: false, finished: false }, TeeAction::Continue)
        } else {
            (TeeState { client_open: false, storage_open: false, finished: true }, TeeAction::Stop)
        },
    }
}

// ==================== Laws over runs ====================

/// The chunks the upstream gives before it ends or fails.
pub open spec fn source_chunks(es: Seq<TeeEvent>) -> Seq<Seq<u8>>
    decreases es.len(),
{
    if es.len() == 0 {
        Seq::empty()
    } else {
        match es[0] {
            TeeEvent::Chunk(c) => seq![c@] + source_chunks(es.skip(1)),
            TeeEvent::SourceError(_) => Seq::empty(),
            TeeEvent::SourceEnd => Seq::empty(),
            _ => source_chunks(es.skip(1)),
        }
    }
}

/// The chunks a run of the tee from `s` over `es` sends to the client
/// (`client`) or to the storage writer (`!client`), in order.
pub open spec fn sent_chunks(s: TeeState, es: Seq<TeeEvent>, client: bool) -> Seq<Seq<u8>>
    decreases es.len(),
{
    if es.len() == 0 {
        Seq::empty()
    } else {
        let (t, a) = tee_next(s, es[0]);
        let now = match a {
            TeeAction::Forward { chunk, to_client, to_storage } => if (client && to_client) || (!client
                && to_storage) {
                seq![chunk@]
            } else {
                Seq::empty()
            },
            _ => Seq::empty(),
        };
        now + sent_chunks(t, es.skip(1), client)
    }
}

/// A finished tee sends nothing more.
proof fn lemma_finished_sends_nothing(s: TeeState, es: Seq<TeeEvent>, client: bool)
    requires
        s.finished,
    ensures
        sent_chunks(s, es, client) == Seq::<Seq<u8>>::empty(),
    decreases es.len(),
{
    if es.len() > 0 {
        lemma_finished_sends_nothing(s, es.skip(1), client);
        assert(sent_chunks(s, es, client) =~= Seq::<Seq<u8>>::empty());
    }
}

/// As long as one side stays, it receives every chunk the upstream gives,
/// in order, whatever the other side does: the client gets the whole blob
/// though the cache stops taking it, and the cache gets the whole blob
/// though the client goes away.
pub proof fn lemma_staying_side_gets_every_chunk(s: TeeState, es: Seq<TeeEvent>, client: bool)
    requires
        !s.finished,
        client ==> s.client_open,
        !client ==> s.storage_open,
        client ==> forall|i: int| 0 <= i < es.len() ==> !(#[trigger] es[i] is ClientGone),
        !client ==> forall|i: int| 0 <= i < es.len() ==> !(#[trigger] es[i] is StorageClosed),
    ensures
        sent_chunks(s, es, client) == source_chunks(es),
    decreases es.len(),
{
    if es.len() > 0 {
        let (t, a) = tee_next(s, es[0]);
        let rest = es.skip(1);
        if client {
            assert(!(es[0] is ClientGone));
            assert forall|i: int| 0 <= i < rest.len() implies !(#[trigger] rest[i] is ClientGone) by {
                assert(rest[i] == es[i + 1]);
            }
        } else {
            assert(!(es[0] is StorageClosed));
            assert forall|i: int| 0 <= i < rest.len() implies !(#[trigger] rest[i] is StorageClosed) by {
                assert(rest[i] == es[i + 1]);
            }
        }
        match es[0] {
            TeeEvent::SourceError(_) => {
                lemma_finished_sends_nothing(t, rest, client);
                assert(sent_chunks(s, es, client) =~= Seq::<Seq<u8>>::empty());
            },
            TeeEvent::SourceEnd => {
                lemma_finished_sends_nothing(t, rest, client);
                assert(sent_chunks(s, es, client) =~= Seq::<Seq<u8>>::empty());
            },
            _ => {
                lemma_staying_side_gets_every_chunk(t, rest, client);
            },
        }
    }
}

} // verus!
