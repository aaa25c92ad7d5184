//! The ingestion endpoint and its deferred-commit queue: uploaded results
//! are held back as transactions, and a flusher commits them later.

use vstd::prelude::*;
use vstd::string::StringExecFns;
use crate::database::entities::{lemma_views_push, views};
use crate::database::store::{
    flushes_compose, stats_of, PendingTransaction, PendingView, Store, StoreView,
};
use crate::database::{DbStats, QueryParams};
use crate::util::bridge::random_u64;
use crate::util::text::{decimal, unsigned_string};
use crate::util::types::{Entry, EntryView};

verus! {

/// Seconds the flusher sleeps after a flush cycle.
pub const FLUSH_INTERVAL_SECS: u64 = 5;

/// What a caller sends.
#[derive(Debug)]
pub struct WebRequest {
    /// For a lookup: the id of the server asked for.
    pub server_id: Option<u64>,
    /// For an upload: the batch of scan results.
    pub servers: Option<Vec<Entry>>,
}

/// What a caller gets back.
#[derive(Debug)]
pub struct Response {
    pub status: u16,
    pub message: String,
    pub data: Option<ResponseData>,
}

/// The payload of an answer.
#[derive(Debug)]
pub struct ResponseData {
    pub results: Option<Vec<Entry>>,
    pub stats: Option<Stats>,
}

/// The counts as they are reported.
#[derive(Debug)]
pub struct Stats {
    pub status: String,
    pub runtime_mode: String,
    pub stored_ips: u64,
    pub stored_servers: u64,
    pub stored_players: u64,
}

impl Default for WebRequest {
    fn default() -> (request: Self)
        ensures
            request.server_id is None,
            request.servers is None,
    {
        WebRequest { server_id: None, servers: None }
    }
}

/// Transactions that are held back, oldest first.
pub struct CommitQueue<T> {
    pub pending: Vec<T>,
}

/// What the flusher does in one cycle.
pub enum FlushCycle<T> {
    /// Nothing was held back: look again at once.
    Idle,
    /// Commit these, in order, then sleep for the given seconds.
    Commit { batch: Vec<T>, sleep_secs: u64 },
}

impl<T> CommitQueue<T> {
    /// A queue that holds nothing back.
    pub fn new() -> (queue: Self)
        ensures
            queue.pending@.len() == 0,
    {
        CommitQueue { pending: Vec::new() }
    }

    /// Holds one more transaction back, behind those already held.
    pub fn push(&mut self, txn: T)
        ensures
            final(self).pending@ == old(self).pending@.push(txn),
    {
        self.pending.push(txn);
    }

    /// Number of transactions held back.
    pub fn len(&self) -> (n: usize)
        ensures
            n == self.pending@.len(),
    {
        self.pending.len()
    }

    /// Whether nothing is held back.
    pub fn is_empty(&self) -> (empty: bool)
        ensures
            empty == (self.pending@.len() == 0),
    {
        self.pending.len() == 0
    }

    /// Takes everything that is held back, in the order in which it came,
    /// and leaves the queue empty.
    pub fn take_all(&mut self) -> (batch: Vec<T>)
        ensures
            batch@ == old(self).pending@,
            final(self).pending@.len() == 0,
    {
        let mut batch: Vec<T> = Vec::new();
        core::mem::swap(&mut batch, &mut self.pending);
        batch
    }

    /// One cycle of the flusher: with nothing held back it looks again at
    /// once; otherwise it takes all that is held back, to commit it in order
    /// and then sleep five seconds. What is pushed from now on waits for the
    /// next cycle.
    pub fn flush_cycle(&mut self) -> (cycle: FlushCycle<T>)
        ensures
            final(self).pending@.len() == 0,
            old(self).pending@.len() == 0 <==> cycle is Idle,
            cycle matches FlushCycle::Commit { batch, sleep_secs } ==> batch@ == old(self).pending@
                && sleep_secs == FLUSH_INTERVAL_SECS,
    {
        if self.is_empty() {
            FlushCycle::Idle
        } else {
            FlushCycle::Commit { batch: self.take_all(), sleep_secs: FLUSH_INTERVAL_SECS }
        }
    }
}

/// The answer to a request that was taken in: status 200, with the given
/// message or the word `success`.
pub fn success(msg: Option<&str>, data: Option<ResponseData>) -> (response: Response)
    ensures
        response.status == 200,
        response.message@ == match msg {
            Some(text) => text@,
            None => "success"@,
        },
        response.data == data,
{
    let message = match msg {
        Some(text) => String::from_str(text),
        None => String::from_str("success"),
    };
    Response { status: 200, message, data }
}

/// The answer to a request that was refused: status 400 and the reason.
pub fn error(msg: &str) -> (response: Response)
    ensures
        response.status == 400,
        response.message@ == msg@,
        response.data is None,
{
    Response { status: 400, message: String::from_str(msg), data: None }
}

/// The transactions that hold `entries` back, each taken in at `now`.
pub open spec fn held_back(entries: Seq<EntryView>, now: i64) -> Seq<PendingView> {
    entries.map_values(|entry: EntryView| PendingView { entry, at: now })
}

/// The id of the server to look up: the one asked for, or a random one
/// among those counted.
pub open spec fn picked_server_id(requested: Option<u64>, random: u64, servers: u64) -> u64
    recommends
        servers > 0,
{
    match requested {
        Some(id) => id,
        None => (random % servers) as u64,
    }
}

/// The id of the server to look up, where `random` is the number drawn.
pub fn pick_server_id(requested: Option<u64>, random: u64, servers: u64) -> (id: u64)
    requires
        servers > 0,
    ensures
        id == picked_server_id(requested, random, servers),
{
    let drawn: u64 = random % servers;
    match requested {
        Some(id) => id,
        None => drawn,
    }
}

/// The filter that finds the server with id `server_id`.
pub fn server_query(server_id: u64) -> (params: QueryParams)
    ensures
        params.column@ == "id"@,
        params.value@ == decimal(server_id as int),
{
    QueryParams { column: String::from_str("id"), value: unsigned_string(server_id) }
}

/// The answer to a lookup: what was found, or status 400 where the lookup
/// failed.
pub fn lookup_response(found: Option<Vec<Entry>>) -> (response: Response)
    ensures
        match found {
            Some(entries) => {
                &&& response.status == 200
                &&& response.message@ == "success"@
                &&& response.data matches Some(data)
                &&& data.results == Some(entries)
                &&& data.stats is None
            },
            None => {
                &&& response.status == 400
                &&& response.message@ == "Internal server error"@
                &&& response.data is None
            },
        },
{
    match found {
        Some(entries) => success(None, Some(ResponseData { results: Some(entries), stats: None })),
        None => error("Internal server error"),
    }
}

/// The mode under which the process reports itself.
pub open spec fn runtime_mode(debug: bool) -> Seq<char> {
    if debug {
        "debug"@
    } else {
        "release"@
    }
}

/// Reports the counts: status 200 with the runtime mode and the counts as
/// of the last upload.
pub fn index(stats: &DbStats, debug: bool) -> (response: Response)
    ensures
        response.status == 200,
        response.message@ == "success"@,
        response.data matches Some(data) && data.results is None && (data.stats matches Some(
            reported,
        ) && {
            &&& reported.status@ == "ok"@
            &&& reported.runtime_mode@ == runtime_mode(debug)
            &&& reported.stored_ips == stats.ips
            &&& reported.stored_servers == stats.servers
            &&& reported.stored_players == stats.players
        }),
{
    let runtime_mode = if debug {
        String::from_str("debug")
    } else {
        String::from_str("release")
    };
    let data = ResponseData {
        results: None,
        stats: Some(
            Stats {
                status: String::from_str("ok"),
                runtime_mode,
                stored_ips: stats.ips,
                stored_servers: stats.servers,
                stored_players: stats.players,
            },
        ),
    };
    success(None, Some(data))
}

/// What the receiving side holds: the store, the transactions held back,
/// and the counts as of the last upload.
pub struct AppState {
    pub database: Store,
    pub txn_queue: CommitQueue<PendingTransaction>,
    pub stats: DbStats,
}

/// The receiving side as readers and the flusher see it: what is stored,
/// and what is held back, oldest first.
pub struct ReceiverView {
    pub store: StoreView,
    pub pending: Seq<PendingView>,
}

/// What happens to the receiving side.
pub enum ReceiverEvent {
    /// A batch is taken in.
    Upload(Seq<PendingView>),
    /// The flusher runs one cycle.
    Flush,
    /// The process ends and starts anew; memory is lost, storage is not.
    Restart,
}

impl ReceiverView {
    /// The receiving side after one event. An upload only lengthens the
    /// queue; a flush commits the queue in order and empties it; a restart
    /// empties the queue and commits nothing.
    pub open spec fn after(self, event: ReceiverEvent) -> ReceiverView {
        match event {
            ReceiverEvent::Upload(batch) => ReceiverView {
                store: self.store,
                pending: self.pending + batch,
            },
            ReceiverEvent::Flush => ReceiverView {
                store: self.store.committed_all(self.pending),
                pending: Seq::empty(),
            },
            ReceiverEvent::Restart => ReceiverView { store: self.store, pending: Seq::empty() },
        }
    }

    /// The receiving side after a run of events.
    pub open spec fn after_all(self, events: Seq<ReceiverEvent>) -> ReceiverView
        decreases events.len(),
    {
        if events.len() == 0 {
            self
        } else {
            self.after_all(events.drop_last()).after(events.last())
        }
    }
}

impl View for AppState {
    type V = ReceiverView;

    open spec fn view(&self) -> ReceiverView {
        ReceiverView { store: self.database@, pending: views(self.txn_queue.pending@) }
    }
}

impl AppState {
    /// The store is well formed.
    pub open spec fn wf(&self) -> bool {
        self.database.wf()
    }

    /// A receiving side over `database`, with nothing held back and the
    /// counts taken.
    pub fn new(database: Store) -> (state: Self)
        ensures
            state.database == database,
            state.txn_queue.pending@.len() == 0,
            state.stats == stats_of(database@),
    {
        let stats = database.create_stats();
        AppState { database, txn_queue: CommitQueue::new(), stats }
    }

    /// Takes the counts anew from what is stored.
    pub fn update_stats(&mut self)
        ensures
            final(self).stats == stats_of(old(self).database@),
            final(self).database == old(self).database,
            final(self).txn_queue == old(self).txn_queue,
    {
        let fresh = self.database.create_stats();
        self.stats = fresh;
    }

    /// Takes an uploaded batch in at time `now`. A request without a batch
    /// is refused with status 400 and changes nothing. Otherwise each result
    /// is held back as a transaction, behind those already held and in the
    /// order of the batch; nothing is written to the store, so no reader
    /// sees the batch before it is flushed; the counts are taken anew; and
    /// the answer is status 200 at once.
    pub fn upload_servers(&mut self, args: WebRequest, now: i64) -> (response: Response)
        ensures
            final(self).database == old(self).database,
            args.servers matches Some(servers) ==> final(self)@ == old(self)@.after(
                ReceiverEvent::Upload(held_back(views(servers@), now)),
            ),
            response.data is None,
            match args.servers {
                Some(servers) => {
                    &&& response.status == 200
                    &&& response.message@ == "success"@
                    &&& views(final(self).txn_queue.pending@) == views(
                        old(self).txn_queue.pending@,
                    ) + held_back(views(servers@), now)
                    &&& final(self).stats == stats_of(old(self).database@)
                },
                None => {
                    &&& response.status == 400
                    &&& response.message@ == "No servers provided"@
                    &&& final(self).txn_queue == old(self).txn_queue
                    &&& final(self).stats == old(self).stats
                },
            },
    {
        let servers = match args.servers {
            Some(servers) => servers,
            None => {
                return error("No servers provided");
            },
        };
        let ghost batch = views(servers@);
        let ghost before = views(self.txn_queue.pending@);
        let mut stack = crate::util::lists::reversed(servers);
        let ghost mut done: int = 0;
        proof {
            assert(held_back(batch.take(0), now) =~= Seq::<PendingView>::empty());
            assert(before + Seq::<PendingView>::empty() =~= before);
        }
        while stack.len() > 0
            invariant
                0 <= done <= batch.len(),
                stack@.len() == batch.len() - done,
                forall|k: int|
                    0 <= k < stack@.len() ==> (#[trigger] stack@[k])@ == batch[batch.len() - 1
                        - k],
                self.database == old(self).database,
                self.stats == old(self).stats,
                views(self.txn_queue.pending@) == before + held_back(batch.take(done), now),
            decreases stack@.len(),
        {
            let entry = stack.pop().unwrap();
            let txn = PendingTransaction { entry, at: now };
            proof {
                lemma_views_push(self.txn_queue.pending@, txn);
                assert(batch.take(done + 1) =~= batch.take(done).push(batch[done]));
                assert(held_back(batch.take(done + 1), now) =~= held_back(
                    batch.take(done),
                    now,
                ).push(txn@));
                assert((before + held_back(batch.take(done), now)).push(txn@) =~= before
                    + held_back(batch.take(done + 1), now));
                done = done + 1;
            }
            self.txn_queue.push(txn);
        }
        proof {
            assert(batch.take(batch.len() as int) =~= batch);
        }
        self.update_stats();
        success(None, None)
    }

    /// One flush: commits everything that is held back, in the order in
    /// which it was held back, and leaves the queue empty. A transaction
    /// that fails is dropped and the rest still commit. Returns the number
    /// of those that failed.
    pub fn flush(&mut self) -> (failed: usize)
        requires
            old(self).wf(),
        ensures
            final(self).wf(),
            final(self)@ == old(self)@.after(ReceiverEvent::Flush),
            final(self).database@ == old(self).database@.committed_all(
                views(old(self).txn_queue.pending@),
            ),
            failed == old(self).database@.refused(views(old(self).txn_queue.pending@)),
            final(self).txn_queue.pending@.len() == 0,
            final(self).stats == old(self).stats,
    {
        let batch = self.txn_queue.take_all();
        let failed = self.database.commit_all(batch);
        proof {
            assert(views(self.txn_queue.pending@) =~= Seq::<PendingView>::empty());
        }
        failed
    }
}

/// Draws the id of the server to look up among `servers` counted. There is
/// none to draw where nothing is counted.
pub fn draw_server_id(requested: Option<u64>, servers: u64) -> (id: Option<u64>)
    ensures
        id is Some <==> servers > 0,
        id matches Some(i) ==> exists|random: u64|
            i == picked_server_id(requested, random, servers),
{
    if servers == 0 {
        None
    } else {
        let random: u64 = random_u64();
        let id = pick_server_id(requested, random, servers);
        assert(id == picked_server_id(requested, random, servers));
        Some(id)
    }
}

/// A batch that was taken in is seen by no reader before the next flush:
/// the upload leaves what is stored as it was, and so does every further
/// upload. The flush that follows commits the batch behind everything that
/// was held back before it.
pub proof fn held_back_until_flush(
    state: ReceiverView,
    batch: Seq<PendingView>,
    later: Seq<PendingView>,
)
    ensures
        state.after(ReceiverEvent::Upload(batch)).store == state.store,
        state.after(ReceiverEvent::Upload(batch)).after(ReceiverEvent::Upload(later)).store
            == state.store,
        state.after(ReceiverEvent::Upload(batch)).after(ReceiverEvent::Flush).store
            == state.store.committed_all(state.pending).committed_all(batch),
        state.after(ReceiverEvent::Upload(batch)).after(ReceiverEvent::Flush).pending.len() == 0,
{
    flushes_compose(state.store, state.pending, batch);
}

/// A batch that is held back when the process ends never reaches storage:
/// whatever happens afterwards, the receiving side is as if the batch had
/// never been taken in.
pub proof fn lost_before_flush(
    state: ReceiverView,
    batch: Seq<PendingView>,
    afterwards: Seq<ReceiverEvent>,
)
    ensures
        state.after(ReceiverEvent::Upload(batch)).after(ReceiverEvent::Restart) == state.after(
            ReceiverEvent::Restart,
        ),
        state.after(ReceiverEvent::Upload(batch)).after(ReceiverEvent::Restart).store
            == state.store,
        state.after(ReceiverEvent::Upload(batch)).after(ReceiverEvent::Restart).after_all(
            afterwards,
        ) == state.after(ReceiverEvent::Restart).after_all(afterwards),
{
}

/// What is stored changes at a flush and at no other event.
pub proof fn only_a_flush_writes(state: ReceiverView, event: ReceiverEvent)
    ensures
        !(event is Flush) ==> state.after(event).store == state.store,
        event is Flush ==> state.after(event).store == state.store.committed_all(state.pending),
{
}

} // verus!
