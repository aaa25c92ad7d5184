//! Scan jobs and the worker pool's decisions: how a target list is cut into
//! chunks, and how one worker batches what it found.

use vstd::prelude::*;
use vstd::string::StringExecFns;
use crate::util::convert::{i32_to_u64, sign_extended_u64};
use crate::util::types::Entry;
use crate::web::server::WebRequest;

verus! {

/// Seconds a probe may take when a job names no timeout.
pub const DEFAULT_TIMEOUT_SECS: i32 = 10;

/// Workers a job runs with when it names none.
pub const DEFAULT_WORKERS: usize = 1;

/// Results a worker collects before it hands them to the uploader.
pub const BATCH_SIZE: usize = 10;

/// A list of targets to probe, the time each probe may take, and the number
/// of workers to share the list among.
pub struct ScanJob {
    /// The targets, each written `host:port`.
    pub ips: Vec<String>,
    /// Seconds one probe may take.
    pub timeout: u64,
    /// Number of workers.
    pub workers: usize,
}

/// The number of seconds that a signed timeout stands for once it is read as
/// an unsigned 64-bit count: itself where it is not negative, else wrapped
/// round the top of the unsigned range.
pub open spec fn timeout_secs(timeout: i32) -> u64 {
    sign_extended_u64(timeout as int) as u64
}

/// Targets per chunk: the whole part of `total / workers`, and at least one.
pub open spec fn chunk_size(total: nat, workers: nat) -> nat
    recommends
        workers >= 1,
{
    if total / workers >= 1 {
        total / workers
    } else {
        1
    }
}

/// Number of chunks that a list of `total` targets falls into when cut
/// every `size` targets.
pub open spec fn chunk_count(total: nat, size: nat) -> nat
    recommends
        size >= 1,
{
    if total % size == 0 {
        total / size
    } else {
        total / size + 1
    }
}

/// Number of chunks the pool hands to workers: it asks for a chunk
/// `workers + 1` times and stops early once the list is used up.
pub open spec fn dispatched_count(total: nat, workers: nat) -> nat
    recommends
        workers >= 1,
{
    let all = chunk_count(total, chunk_size(total, workers));
    if all <= workers + 1 {
        all
    } else {
        workers + 1
    }
}

/// The `index`-th chunk of `targets` when cut every `size` targets.
pub open spec fn chunk_at<T>(targets: Seq<T>, size: nat, index: nat) -> Seq<T>
    recommends
        size >= 1,
        index * size < targets.len(),
{
    let start: int = (index * size) as int;
    let end: int = if start + size <= targets.len() {
        start + size
    } else {
        targets.len() as int
    };
    targets.subrange(start, end)
}

/// Number of targets that reach a worker: all of them, unless the list needs
/// more than `workers + 1` chunks.
pub open spec fn dispatched_len(total: nat, workers: nat) -> nat
    recommends
        workers >= 1,
{
    let reach = (workers + 1) * chunk_size(total, workers);
    if total <= reach {
        total
    } else {
        reach
    }
}

impl ScanJob {
    /// A job is well formed when it has a target and a worker.
    pub open spec fn wf(&self) -> bool {
        &&& self.ips@.len() >= 1
        &&& self.workers >= 1
    }

    /// Builds a job. There is none for an empty target list. A missing
    /// timeout is ten seconds, a missing worker count is one, and a worker
    /// count of zero is raised to one.
    pub fn new(ips: Vec<String>, timeout: Option<i32>, workers: Option<usize>) -> (job: Option<
        Self,
    >)
        ensures
            job is None <==> ips@.len() == 0,
            job matches Some(j) ==> {
                &&& j.wf()
                &&& j.ips == ips
                &&& j.timeout == timeout_secs(
                    match timeout {
                        Some(t) => t,
                        None => DEFAULT_TIMEOUT_SECS,
                    },
                )
                &&& j.workers == match workers {
                    Some(w) => if w >= 1 {
                        w
                    } else {
                        1
                    },
                    None => DEFAULT_WORKERS,
                }
            },
    {
        if ips.len() == 0 {
            return None;
        }
        let secs: i32 = match timeout {
            Some(t) => t,
            None => DEFAULT_TIMEOUT_SECS,
        };
        let timeout: u64 = i32_to_u64(secs);
        let asked: usize = match workers {
            Some(w) => w,
            None => DEFAULT_WORKERS,
        };
        let workers: usize = if asked >= 1 {
            asked
        } else {
            1
        };
        Some(Self { ips, timeout, workers })
    }

    /// Cuts the target list into the chunks that the pool hands out, in
    /// order, one chunk per worker task.
    pub fn partition(&self) -> (chunks: Vec<Vec<String>>)
        requires
            self.workers >= 1,
        ensures
            chunk_lists(chunks@) == dispatched_chunks(self.ips@, self.workers as nat),
            chunk_lists(chunks@).flatten() == self.ips@.take(
                dispatched_len(self.ips@.len(), self.workers as nat) as int,
            ),
    {
        let len: usize = self.ips.len();
        let quotient: usize = len / self.workers;
        let size: usize = if quotient >= 1 {
            quotient
        } else {
            1
        };
        let mut chunks: Vec<Vec<String>> = Vec::new();
        let mut start: usize = 0;
        proof {
            assert(chunk_lists(chunks@) =~= Seq::<Seq<String>>::empty());
            assert(self.ips@.take(0) =~= Seq::<String>::empty());
        }
        while start < len && chunks.len() <= self.workers
            invariant
                len == self.ips@.len(),
                self.workers >= 1,
                size >= 1,
                size == chunk_size(len as nat, self.workers as nat),
                start <= len,
                chunks@.len() <= self.workers + 1,
                start < len ==> start == chunks@.len() * size,
                start == len ==> chunks@.len() == chunk_count(len as nat, size as nat),
                chunks@.len() * size <= len + size,
                forall|i: int|
                    0 <= i < chunks@.len() ==> (#[trigger] chunks@[i])@ == chunk_at(
                        self.ips@,
                        size as nat,
                        i as nat,
                    ),
                chunk_lists(chunks@).flatten() == self.ips@.take(start as int),
            decreases len - start,
        {
            let end: usize = if len - start <= size {
                len
            } else {
                start + size
            };
            let ghost index: nat = chunks@.len();
            let mut chunk: Vec<String> = Vec::new();
            let mut at: usize = start;
            while at < end
                invariant
                    start <= at <= end <= len,
                    len == self.ips@.len(),
                    chunk@ == self.ips@.subrange(start as int, at as int),
                decreases end - at,
            {
                chunk.push(self.ips[at].clone());
                at = at + 1;
                proof {
                    assert(chunk@ =~= self.ips@.subrange(start as int, at as int));
                }
            }
            proof {
                lemma_next_chunk(len as nat, size as nat, index);
                let before = chunk_lists(chunks@);
                assert(chunk_lists(chunks@.push(chunk)) =~= before.push(chunk@));
                before.lemma_flatten_push(chunk@);
                assert(self.ips@.take(start as int) + self.ips@.subrange(start as int, end as int)
                    =~= self.ips@.take(end as int));
            }
            chunks.push(chunk);
            start = end;
        }
        proof {
            lemma_dispatch_bounds(len as nat, self.workers as nat, chunks@.len(), start as nat);
            assert(chunk_lists(chunks@) =~= dispatched_chunks(self.ips@, self.workers as nat));
        }
        chunks
    }
}

/// The batch a worker holds after one probe: a result joins it, a failure
/// leaves it as it was, and a batch that has reached ten results starts
/// again empty.
pub open spec fn batch_after<T>(batch: Seq<T>, probe: Option<T>) -> Seq<T> {
    match probe {
        Some(result) => if batch.len() + 1 >= BATCH_SIZE {
            Seq::empty()
        } else {
            batch.push(result)
        },
        None => batch,
    }
}

/// The batch a worker hands to the uploader after one probe, if the probe
/// filled it.
pub open spec fn flushed_after<T>(batch: Seq<T>, probe: Option<T>) -> Option<Seq<T>> {
    match probe {
        Some(result) => if batch.len() + 1 >= BATCH_SIZE {
            Some(batch.push(result))
        } else {
            None
        },
        None => None,
    }
}

/// The results among the probes, in the order in which they came.
pub open spec fn successes<T>(probes: Seq<Option<T>>) -> Seq<T>
    decreases probes.len(),
{
    if probes.len() == 0 {
        Seq::empty()
    } else {
        match probes.last() {
            Some(result) => successes(probes.drop_last()).push(result),
            None => successes(probes.drop_last()),
        }
    }
}

/// The batch a worker that started empty-handed holds after `probes`.
pub open spec fn held_after<T>(probes: Seq<Option<T>>) -> Seq<T>
    decreases probes.len(),
{
    if probes.len() == 0 {
        Seq::empty()
    } else {
        batch_after(held_after(probes.drop_last()), probes.last())
    }
}

/// The batches a worker that started empty-handed has handed to the
/// uploader after `probes`, in order.
pub open spec fn uploaded_after<T>(probes: Seq<Option<T>>) -> Seq<Seq<T>>
    decreases probes.len(),
{
    if probes.len() == 0 {
        Seq::empty()
    } else {
        let before = uploaded_after(probes.drop_last());
        match flushed_after(held_after(probes.drop_last()), probes.last()) {
            Some(batch) => before.push(batch),
            None => before,
        }
    }
}

/// One worker's state: the targets it has yet to probe, and the results it
/// has not yet handed to the uploader.
pub struct SliceWorker {
    /// Targets yet to probe; the last one is probed next.
    pub remaining: Vec<String>,
    /// Results since the last upload.
    pub batch: Vec<Entry>,
}

impl SliceWorker {
    /// A worker for the targets of `list`, with nothing found yet.
    pub fn new(list: Vec<String>) -> (worker: Self)
        ensures
            worker.remaining == list,
            worker.batch@.len() == 0,
    {
        Self { remaining: list, batch: Vec::new() }
    }

    /// Takes the target to probe next, the last of those that remain. There
    /// is none once the chunk is used up; what the batch then holds is never
    /// uploaded.
    pub fn next_target(&mut self) -> (target: Option<String>)
        ensures
            final(self).batch == old(self).batch,
            old(self).remaining@.len() == 0 ==> target is None && final(self).remaining@ == old(
                self,
            ).remaining@,
            old(self).remaining@.len() > 0 ==> target == Some(old(self).remaining@.last())
                && final(self).remaining@ == old(self).remaining@.drop_last(),
    {
        self.remaining.pop()
    }

    /// Takes in the outcome of one probe: a result, or nothing where the
    /// probe failed. Returns the batch to upload where the result filled it;
    /// the worker then starts a new batch, whatever becomes of the upload.
    pub fn record(&mut self, probe: Option<Entry>) -> (upload: Option<Vec<Entry>>)
        ensures
            final(self).remaining == old(self).remaining,
            final(self).batch@ == batch_after(old(self).batch@, probe),
            upload is Some <==> flushed_after(old(self).batch@, probe) is Some,
            upload matches Some(batch) ==> batch@ == flushed_after(old(self).batch@, probe)->0,
    {
        match probe {
            Some(result) => {
                self.batch.push(result);
                if self.batch.len() >= BATCH_SIZE {
                    let mut full: Vec<Entry> = Vec::new();
                    core::mem::swap(&mut full, &mut self.batch);
                    Some(full)
                } else {
                    None
                }
            },
            None => None,
        }
    }

    /// Number of results held back since the last upload.
    pub fn unflushed(&self) -> (n: usize)
        ensures
            n == self.batch@.len(),
    {
        self.batch.len()
    }
}

/// One delivery to the receiving side: where it goes and what it carries.
pub struct Upload {
    pub url: String,
    pub request: WebRequest,
}

/// Prepares the delivery of a batch to the receiving side at `host` and
/// `port`: the batch travels whole, in one request, to the upload path.
pub fn upload_servers(queue: Vec<Entry>, host: &str, port: &str) -> (upload: Upload)
    ensures
        upload.url@ == "http://"@ + host@ + ":"@ + port@ + "/upload"@,
        upload.request.servers == Some(queue),
        upload.request.server_id is None,
{
    let mut url = String::from_str("http://");
    url.append(host);
    url.append(":");
    url.append(port);
    url.append("/upload");
    Upload { url, request: WebRequest { server_id: None, servers: Some(queue) } }
}

/// The workers of a job: one for each chunk that the pool hands out, in
/// order, each with its chunk to probe and nothing found yet.
pub fn run_blocking(job: &ScanJob) -> (workers: Vec<SliceWorker>)
    requires
        job.workers >= 1,
    ensures
        workers@.len() == dispatched_count(job.ips@.len(), job.workers as nat),
        forall|i: int|
            0 <= i < workers@.len() ==> (#[trigger] workers@[i]).remaining@ == dispatched_chunks(
                job.ips@,
                job.workers as nat,
            )[i] && workers@[i].batch@.len() == 0,
{
    let chunks = job.partition();
    let ghost lists = chunk_lists(chunks@);
    let mut stack = crate::util::lists::reversed(chunks);
    let mut workers: Vec<SliceWorker> = Vec::new();
    while stack.len() > 0
        invariant
            stack@.len() + workers@.len() == lists.len(),
            forall|k: int|
                0 <= k < stack@.len() ==> (#[trigger] stack@[k])@ == lists[lists.len() - 1 - k],
            forall|i: int|
                0 <= i < workers@.len() ==> (#[trigger] workers@[i]).remaining@ == lists[i]
                    && workers@[i].batch@.len() == 0,
        decreases stack@.len(),
    {
        let chunk = stack.pop().unwrap();
        workers.push(SliceWorker::new(chunk));
    }
    workers
}

/// Whether an upload was taken in: the receiving side answers with status
/// 200 where it was.
pub fn upload_delivered(status: u16) -> (ok: bool)
    ensures
        ok == (status == 200),
{
    status == 200
}

/// The chunks that the pool hands out for `targets`, in order.
pub open spec fn dispatched_chunks<T>(targets: Seq<T>, workers: nat) -> Seq<Seq<T>>
    recommends
        workers >= 1,
{
    Seq::new(
        dispatched_count(targets.len(), workers),
        |i: int| chunk_at(targets, chunk_size(targets.len(), workers), i as nat),
    )
}

/// The chunks as sequences of targets.
pub open spec fn chunk_lists(chunks: Seq<Vec<String>>) -> Seq<Seq<String>> {
    chunks.map_values(|c: Vec<String>| c@)
}

/// Where chunk `index` starts inside the list, chunk `index + 1` starts
/// `size` later, or the list ends with chunk `index` as its last.
proof fn lemma_next_chunk(len: nat, size: nat, index: nat)
    requires
        size >= 1,
        index * size < len,
    ensures
        (index + 1) * size == index * size + size,
        len - index * size <= size ==> chunk_count(len, size) == index + 1,
{
    assert((index + 1) * size == index * size + size) by (nonlinear_arith);
    if len - index * size <= size {
        let rest = (len - index * size) as nat;
        if rest == size {
            assert(len == (index + 1) * size);
            assert(len / size == index + 1 && len % size == 0) by (nonlinear_arith)
                requires
                    len == (index + 1) * size,
                    size >= 1,
            ;
        } else {
            assert(len / size == index && len % size == rest) by (nonlinear_arith)
                requires
                    len == index * size + rest,
                    0 < rest < size,
            ;
        }
    }
}

/// Relates the state in which the cutting loop stops to the number of chunks
/// and of targets that the pool hands out.
proof fn lemma_dispatch_bounds(len: nat, workers: nat, made: nat, start: nat)
    requires
        workers >= 1,
        start <= len,
        made <= workers + 1,
        start < len ==> start == made * chunk_size(len, workers),
        start == len ==> made == chunk_count(len, chunk_size(len, workers)),
        !(start < len && made <= workers),
    ensures
        made == dispatched_count(len, workers),
        start == dispatched_len(len, workers),
{
    let size = chunk_size(len, workers);
    let all = chunk_count(len, size);
    if start < len {
        assert(made == workers + 1);
        assert(all > made) by (nonlinear_arith)
            requires
                made * size < len,
                size >= 1,
                all == if len % size == 0 {
                    len / size
                } else {
                    len / size + 1
                },
        ;
    } else {
        assert(len <= (workers + 1) * size) by (nonlinear_arith)
            requires
                made <= workers + 1,
                size >= 1,
                made == if len % size == 0 {
                    len / size
                } else {
                    len / size + 1
                },
        ;
    }
}

/// The first `count` chunks, laid end to end, are the list's first
/// `count * size` targets, or the whole list where it is shorter.
proof fn lemma_chunks_flatten<T>(targets: Seq<T>, size: nat, count: nat)
    requires
        size >= 1,
        count <= chunk_count(targets.len(), size),
    ensures
        Seq::new(count, |i: int| chunk_at(targets, size, i as nat)).flatten() == targets.take(
            if count * size <= targets.len() {
                (count * size) as int
            } else {
                targets.len() as int
            },
        ),
    decreases count,
{
    let chunks = Seq::new(count, |i: int| chunk_at(targets, size, i as nat));
    if count == 0 {
        assert(chunks =~= Seq::<Seq<T>>::empty());
        assert(0 * size == 0) by (nonlinear_arith);
        assert(targets.take(0) =~= Seq::<T>::empty());
    } else {
        let before = (count - 1) as nat;
        let len = targets.len();
        lemma_chunks_flatten(targets, size, before);
        assert(before * size < len) by (nonlinear_arith)
            requires
                before + 1 <= if len % size == 0 {
                    len / size
                } else {
                    len / size + 1
                },
                size >= 1,
        ;
        assert((before + 1) * size == before * size + size) by (nonlinear_arith);
        let shorter = Seq::new(before, |i: int| chunk_at(targets, size, i as nat));
        let last = chunk_at(targets, size, before);
        assert(chunks =~= shorter.push(last));
        shorter.lemma_flatten_push(last);
        let start: int = (before * size) as int;
        let end: int = if start + size <= len {
            start + size
        } else {
            len as int
        };
        assert(targets.take(start) + targets.subrange(start, end) =~= targets.take(end));
    }
}

/// What reaches the workers, chunk after chunk, is the front of the target
/// list, each target once and in its place: `dispatched_len` targets of it.
pub proof fn partition_covers_front<T>(targets: Seq<T>, workers: nat)
    requires
        workers >= 1,
    ensures
        dispatched_chunks(targets, workers).flatten() == targets.take(
            dispatched_len(targets.len(), workers) as int,
        ),
{
    let len = targets.len();
    let size = chunk_size(len, workers);
    let count = dispatched_count(len, workers);
    lemma_chunks_flatten(targets, size, count);
    if count == chunk_count(len, size) {
        assert(count * size >= len) by (nonlinear_arith)
            requires
                size >= 1,
                count == if len % size == 0 {
                    len / size
                } else {
                    len / size + 1
                },
        ;
        assert(len <= (workers + 1) * size) by (nonlinear_arith)
            requires
                count * size >= len,
                count <= workers + 1,
                size >= 1,
        ;
    } else {
        assert(count == workers + 1);
        assert((workers + 1) * size < len) by (nonlinear_arith)
            requires
                workers + 1 < if len % size == 0 {
                    len / size
                } else {
                    len / size + 1
                },
                size >= 1,
        ;
    }
}

/// A target list that fits into `workers + 1` chunks is handed out whole:
/// the chunks laid end to end are the list itself, so every target is in
/// exactly one chunk.
pub proof fn partition_is_complete<T>(targets: Seq<T>, workers: nat)
    requires
        workers >= 1,
        targets.len() >= 1,
        targets.len() <= (workers + 1) * chunk_size(targets.len(), workers),
    ensures
        dispatched_chunks(targets, workers).flatten() == targets,
{
    partition_covers_front(targets, workers);
    assert(targets.take(targets.len() as int) =~= targets);
}

/// A target list that needs more than `workers + 1` chunks loses its tail:
/// what is handed out is strictly shorter than the list.
pub proof fn partition_drops_tail<T>(targets: Seq<T>, workers: nat)
    requires
        workers >= 1,
        targets.len() > (workers + 1) * chunk_size(targets.len(), workers),
    ensures
        dispatched_chunks(targets, workers).flatten().len() < targets.len(),
{
    partition_covers_front(targets, workers);
}

/// A worker uploads its results ten at a time and in the order in which
/// they came: after any run of probes it has uploaded one batch for every
/// full ten results, and holds back the rest, fewer than ten.
pub proof fn batches_of_ten<T>(probes: Seq<Option<T>>)
    ensures
        uploaded_after(probes).len() == successes(probes).len() / 10,
        forall|i: int|
            0 <= i < uploaded_after(probes).len() ==> #[trigger] uploaded_after(probes)[i]
                == successes(probes).subrange(10 * i, 10 * i + 10),
        held_after(probes) == successes(probes).skip(10 * (uploaded_after(probes).len() as int)),
        held_after(probes).len() == successes(probes).len() % 10,
    decreases probes.len(),
{
    let found = successes(probes);
    if probes.len() == 0 {
        assert(found.skip(0) =~= found);
    } else {
        let earlier = probes.drop_last();
        batches_of_ten(earlier);
        let found_before = successes(earlier);
        let held = held_after(earlier);
        let sent = uploaded_after(earlier);
        let sent_len: int = sent.len() as int;
        match probes.last() {
            Some(result) => {
                assert(found == found_before.push(result));
                if held.len() + 1 >= BATCH_SIZE {
                    let full = held.push(result);
                    assert(full =~= found.subrange(10 * sent_len, 10 * sent_len + 10));
                    assert(found.skip(10 * (sent_len + 1)) =~= Seq::<T>::empty());
                    assert forall|i: int| 0 <= i < sent.len() implies #[trigger] sent[i]
                        == found.subrange(10 * i, 10 * i + 10) by {
                        assert(found_before.subrange(10 * i, 10 * i + 10) =~= found.subrange(
                            10 * i,
                            10 * i + 10,
                        ));
                    }
                } else {
                    assert(held.push(result) =~= found.skip(10 * sent_len));
                    assert forall|i: int| 0 <= i < sent.len() implies #[trigger] sent[i]
                        == found.subrange(10 * i, 10 * i + 10) by {
                        assert(found_before.subrange(10 * i, 10 * i + 10) =~= found.subrange(
                            10 * i,
                            10 * i + 10,
                        ));
                    }
                }
            },
            None => {},
        }
    }
}

/// The results that a worker never uploads are those left over when the
/// results are counted off in tens.
pub proof fn leftover_is_dropped<T>(probes: Seq<Option<T>>)
    ensures
        uploaded_after(probes).flatten() + held_after(probes) == successes(probes),
        uploaded_after(probes).flatten().len() == successes(probes).len() - successes(
            probes,
        ).len() % 10,
    decreases probes.len(),
{
    batches_of_ten(probes);
    if probes.len() == 0 {
        assert(uploaded_after(probes).flatten() + held_after(probes) =~= successes(probes));
    } else {
        let earlier = probes.drop_last();
        leftover_is_dropped(earlier);
        batches_of_ten(earlier);
        let held = held_after(earlier);
        let sent = uploaded_after(earlier);
        match probes.last() {
            Some(result) => {
                if held.len() + 1 >= BATCH_SIZE {
                    sent.lemma_flatten_push(held.push(result));
                    assert(sent.flatten() + held.push(result) =~= (sent.flatten() + held).push(
                        result,
                    ));
                    assert(uploaded_after(probes).flatten() + held_after(probes) =~= successes(
                        probes,
                    ));
                } else {
                    assert(sent.flatten() + held.push(result) =~= (sent.flatten() + held).push(
                        result,
                    ));
                }
            },
            None => {},
        }
    }
}

} // verus!
