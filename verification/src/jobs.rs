//! Parent-owned per-thread job queues, running jobs, and a bounded history of receipts.
use crate::ids::new_random_id;
use crate::strmap::{
    lemma_lookup_insert, lemma_lookup_position, lemma_remove_entry, lookup, position,
    remove_entry, StrMap,
};
use crate::text::{
    cat, chars_of, copy_str, is_whitespace, is_ws, join, string_of, string_of_range, views,
};
use vstd::prelude::*;

verus! {

/// Where a job is in its life.
#[derive(Debug, Clone, Copy, PartialEq, Eq, Structural)]
pub enum JobState {
    Queued,
    Running,
    Succeeded,
    Failed,
    Canceled,
}

/// A unit of work for one thread.
#[derive(Debug, PartialEq, Eq)]
pub struct Job {
    pub id: String,
    pub thread_id: String,
    pub connector: String,
    pub prompt_preview: String,
    pub state: JobState,
    pub created_sequence: u64,
}

impl Clone for Job {
    fn clone(&self) -> (r: Self)
        ensures
            r == *self,
    {
        Job {
            id: self.id.clone(),
            thread_id: self.thread_id.clone(),
            connector: self.connector.clone(),
            prompt_preview: self.prompt_preview.clone(),
            state: self.state,
            created_sequence: self.created_sequence,
        }
    }
}

/// The safe record of a finished or canceled job.
#[derive(Debug, PartialEq, Eq)]
pub struct JobReceipt {
    pub job_id: String,
    pub thread_id: String,
    pub connector: String,
    pub state: JobState,
    pub message: String,
    pub sequence: u64,
}

impl Clone for JobReceipt {
    fn clone(&self) -> (r: Self)
        ensures
            r == *self,
    {
        JobReceipt {
            job_id: self.job_id.clone(),
            thread_id: self.thread_id.clone(),
            connector: self.connector.clone(),
            state: self.state,
            message: self.message.clone(),
            sequence: self.sequence,
        }
    }
}

/// Why a job operation was refused.
#[derive(Debug, PartialEq, Eq)]
pub enum JobStoreError {
    QueueFull(String),
    UnknownJob(String),
    NoRunningJob(String),
}

impl JobStoreError {
    /// The human-readable message for the error.
    pub fn message(&self) -> (m: String)
        ensures
            m@ == match self {
                JobStoreError::QueueFull(t) => "queue for thread `"@ + t@ + "` is full"@,
                JobStoreError::UnknownJob(j) => "unknown running job `"@ + j@ + "`"@,
                JobStoreError::NoRunningJob(t) => "thread `"@ + t@ + "` has no running job"@,
            },
    {
        match self {
            JobStoreError::QueueFull(t) => {
                let a = cat("queue for thread `", t.as_str());
                cat(a.as_str(), "` is full")
            },
            JobStoreError::UnknownJob(j) => {
                let a = cat("unknown running job `", j.as_str());
                cat(a.as_str(), "`")
            },
            JobStoreError::NoRunningJob(t) => {
                let a = cat("thread `", t.as_str());
                cat(a.as_str(), "` has no running job")
            },
        }
    }
}

/// The index just past the word that starts at `i` (the next whitespace or the end).
pub open spec fn word_end(s: Seq<char>, i: int) -> int
    decreases s.len() - i,
{
    if i < 0 || i >= s.len() || is_ws(s[i]) {
        i
    } else {
        word_end(s, i + 1)
    }
}

pub proof fn lemma_word_end(s: Seq<char>, i: int)
    requires
        0 <= i,
    ensures
        i <= word_end(s, i),
        word_end(s, i) <= s.len() || word_end(s, i) == i,
        forall|j: int| i <= j < word_end(s, i) ==> !is_ws(#[trigger] s[j]),
    decreases s.len() - i,
{
    if i < s.len() && !is_ws(s[i]) {
        lemma_word_end(s, i + 1);
    }
}

/// The whitespace-separated words of `s` from position `i` on (`str::split_whitespace`).
pub open spec fn words_from(s: Seq<char>, i: int) -> Seq<Seq<char>>
    decreases s.len() - i,
{
    if i < 0 || i >= s.len() {
        Seq::empty()
    } else if is_ws(s[i]) {
        words_from(s, i + 1)
    } else {
        let e = word_end(s, i);
        proof {
            lemma_word_end(s, i);
        }
        if e <= i {
            Seq::empty()
        } else {
            seq![s.subrange(i, e)] + words_from(s, e)
        }
    }
}

/// The whitespace-separated words of `s`.
pub open spec fn words(s: Seq<char>) -> Seq<Seq<char>> {
    words_from(s, 0)
}

/// The words of `s` separated by single spaces.
pub open spec fn normalize_whitespace(s: Seq<char>) -> Seq<char> {
    join(words(s), seq![' '])
}

/// `str::split_whitespace`, collected.
pub fn words_of(s: &str) -> (r: Vec<String>)
    ensures
        views(r@) == words(s@),
{
    let v = chars_of(s);
    let n = v.len();
    let mut out: Vec<String> = Vec::new();
    let mut i: usize = 0;
    assert(views(out@) + words_from(v@, 0) =~= words_from(v@, 0));
    while i < n
        invariant
            i <= n == v.len(),
            v@ == s@,
            words(v@) == views(out@) + words_from(v@, i as int),
        decreases n - i,
    {
        if is_whitespace(v[i]) {
            i = i + 1;
        } else {
            let start = i;
            while i < n && !is_whitespace(v[i])
                invariant
                    start <= i <= n == v.len(),
                    word_end(v@, start as int) == word_end(v@, i as int),
                decreases n - i,
            {
                i = i + 1;
            }
            proof {
                lemma_word_end(v@, start as int);
            }
            let ghost w = v@.subrange(start as int, i as int);
            assert(words_from(v@, start as int) == seq![w] + words_from(v@, i as int));
            let ghost before = views(out@);
            out.push(string_of_range(v.as_slice(), start, i));
            assert(views(out@) =~= before.push(w));
            assert(words(v@) =~= views(out@) + words_from(v@, i as int));
        }
    }
    assert(words_from(v@, n as int) =~= Seq::<Seq<char>>::empty());
    assert(views(out@) + Seq::<Seq<char>>::empty() =~= views(out@));
    out
}

/// The longest preview kept whole, in characters.
pub const PREVIEW_LIMIT: usize = 120;

/// A prompt reduced to a one-line preview: whitespace runs become single spaces, and a
/// preview longer than 120 characters is cut to 117 characters followed by `...`.
pub open spec fn preview_of(prompt: Seq<char>) -> Seq<char> {
    let n = normalize_whitespace(prompt);
    if n.len() <= 120 {
        n
    } else {
        n.take(117) + "..."@
    }
}

/// The one-line preview of a prompt kept in job records.
pub fn prompt_preview(prompt: &str) -> (r: String)
    ensures
        r@ == preview_of(prompt@),
{
    let v = chars_of(prompt);
    let n = v.len();
    let mut out: Vec<char> = Vec::new();
    let ghost mut done: Seq<Seq<char>> = Seq::empty();
    let mut i: usize = 0;
    assert(done + words_from(v@, 0) == words_from(v@, 0));
    while i < n
        invariant
            i <= n == v.len(),
            v@ == prompt@,
            words(v@) == done + words_from(v@, i as int),
            out@ == join(done, seq![' ']),
            out@.len() == 0 <==> done.len() == 0,
        decreases n - i,
    {
        if is_whitespace(v[i]) {
            i = i + 1;
        } else {
            let start = i;
            while i < n && !is_whitespace(v[i])
                invariant
                    start <= i <= n == v.len(),
                    word_end(v@, start as int) == word_end(v@, i as int),
                decreases n - i,
            {
                i = i + 1;
            }
            proof {
                lemma_word_end(v@, start as int);
            }
            let ghost w = v@.subrange(start as int, i as int);
            assert(words_from(v@, start as int) == seq![w] + words_from(v@, i as int));
            let ghost before = out@;
            if out.len() > 0 {
                out.push(' ');
            }
            let mut j = start;
            while j < i
                invariant
                    start <= j <= i <= n == v.len(),
                    out@ == (if before.len() > 0 {
                        before.push(' ')
                    } else {
                        before
                    }) + v@.subrange(start as int, j as int),
                decreases i - j,
            {
                out.push(v[j]);
                j = j + 1;
                assert(v@.subrange(start as int, j as int) == v@.subrange(
                    start as int,
                    j - 1,
                ).push(v@[j - 1]));
            }
            proof {
                let d2 = done.push(w);
                assert(d2.drop_last() == done);
                if done.len() == 0 {
                    assert(join(d2, seq![' ']) == w);
                } else {
                    assert(join(d2, seq![' ']) == join(done, seq![' ']) + seq![' '] + w);
                }
                assert(words(v@) == d2 + words_from(v@, i as int));
                done = d2;
            }
        }
    }
    let normalized = out;
    if normalized.len() <= PREVIEW_LIMIT {
        string_of(normalized.as_slice())
    } else {
        let mut cut: Vec<char> = Vec::new();
        let mut k: usize = 0;
        while k < 117
            invariant
                k <= 117,
                117 < normalized.len(),
                cut@ == normalized@.take(k as int),
            decreases 117 - k,
        {
            cut.push(normalized[k]);
            k = k + 1;
            assert(cut@ == normalized@.take(k as int));
        }
        let head = string_of(cut.as_slice());
        cat(head.as_str(), "...")
    }
}

/// The receipts kept after adding one: the newest `max` of them.
pub open spec fn retain_last<T>(s: Seq<T>, max: nat) -> Seq<T> {
    if s.len() <= max {
        s
    } else {
        s.skip(s.len() - max)
    }
}

/// The queue filed under a thread, empty where there is none.
pub open spec fn queue_of(queued: Seq<(Seq<char>, Vec<Job>)>, thread: Seq<char>) -> Seq<Job> {
    match lookup(queued, thread) {
        Some(q) => q@,
        None => Seq::empty(),
    }
}

/// Every queued job is in the queued state, in its own thread's queue.
pub open spec fn queues_filed(queued: Seq<(Seq<char>, Vec<Job>)>) -> bool {
    forall|t: Seq<char>, k: int|
        0 <= k < queue_of(queued, t).len() ==> (#[trigger] queue_of(queued, t)[k]).thread_id@
            == t && queue_of(queued, t)[k].state == JobState::Queued
}

/// Every running job is in the running state, under its own thread.
pub open spec fn running_filed(running: Seq<(Seq<char>, Job)>) -> bool {
    forall|t: Seq<char>|
        #[trigger] lookup(running, t) matches Some(j) ==> j.thread_id@ == t && j.state
            == JobState::Running
}

/// Receipts in increasing sequence order, all below the next sequence number, where the
/// numbers have not run out (at `u64::MAX` they stop growing).
pub open spec fn receipts_ordered(receipts: Seq<JobReceipt>, next: u64) -> bool {
    &&& forall|i: int, j: int|
        0 <= i < j < receipts.len() ==> (#[trigger] receipts[i]).sequence < (
        #[trigger] receipts[j]).sequence || receipts[j].sequence == u64::MAX
    &&& forall|i: int|
        0 <= i < receipts.len() ==> (#[trigger] receipts[i]).sequence < next || next == u64::MAX
}

/// A receipt numbered with the next sequence number keeps the receipts in order.
proof fn lemma_receipt_pushed(receipts: Seq<JobReceipt>, next: u64, receipt: JobReceipt, max: nat)
    requires
        receipts_ordered(receipts, next),
        receipt.sequence == next,
    ensures
        receipts_ordered(retain_last(receipts.push(receipt), max), next_sequence(next)),
{
    let all = receipts.push(receipt);
    assert(receipts_ordered(all, next_sequence(next))) by {
        assert forall|i: int, j: int| 0 <= i < j < all.len() implies (#[trigger] all[i]).sequence
            < (#[trigger] all[j]).sequence || all[j].sequence == u64::MAX by {
            if j == receipts.len() {
                assert(all[i] == receipts[i]);
            } else {
                assert(all[i] == receipts[i] && all[j] == receipts[j]);
            }
        }
        assert forall|i: int| 0 <= i < all.len() implies (#[trigger] all[i]).sequence
            < next_sequence(next) || next_sequence(next) == u64::MAX by {
            if i < receipts.len() {
                assert(all[i] == receipts[i]);
            }
        }
    }
    if all.len() > max {
        let d = all.len() - max;
        let kept = all.skip(d);
        assert forall|i: int, j: int| 0 <= i < j < kept.len() implies (#[trigger] kept[i]).sequence
            < (#[trigger] kept[j]).sequence || kept[j].sequence == u64::MAX by {
            assert(kept[i] == all[i + d] && kept[j] == all[j + d]);
        }
        assert forall|i: int| 0 <= i < kept.len() implies (#[trigger] kept[i]).sequence
            < next_sequence(next) || next_sequence(next) == u64::MAX by {
            assert(kept[i] == all[i + d]);
        }
    }
}

/// A later sequence number keeps the receipts below it.
proof fn lemma_receipts_next(receipts: Seq<JobReceipt>, next: u64)
    requires
        receipts_ordered(receipts, next),
    ensures
        receipts_ordered(receipts, next_sequence(next)),
{
}

/// The next sequence number, saturating at `u64::MAX`.
pub open spec fn next_sequence(n: u64) -> u64 {
    if n == u64::MAX {
        u64::MAX
    } else {
        (n + 1) as u64
    }
}

/// The position of the first running job (in thread order) with identifier `id`.
pub open spec fn running_index(entries: Seq<(Seq<char>, Job)>, id: Seq<char>) -> Option<int>
    decreases entries.len(),
{
    if entries.len() == 0 {
        None
    } else if entries[0].1.id@ == id {
        Some(0)
    } else {
        match running_index(entries.drop_first(), id) {
            Some(i) => Some(i + 1),
            None => None,
        }
    }
}

proof fn lemma_running_index(entries: Seq<(Seq<char>, Job)>, id: Seq<char>)
    ensures
        running_index(entries, id) matches Some(i) ==> 0 <= i < entries.len()
            && entries[i].1.id@ == id && forall|j: int| 0 <= j < i ==> entries[j].1.id@ != id,
        running_index(entries, id) is None ==> forall|j: int|
            0 <= j < entries.len() ==> entries[j].1.id@ != id,
    decreases entries.len(),
{
    if entries.len() > 0 && entries[0].1.id@ != id {
        lemma_running_index(entries.drop_first(), id);
        assert forall|j: int| 0 < j < entries.len() implies entries[j] == entries.drop_first()[j
            - 1] by {}
    }
}

/// Queues, running jobs and receipts, owned by the parent process.
#[derive(Debug)]
pub struct JobStore {
    max_queue_depth: usize,
    max_receipts: usize,
    next_sequence: u64,
    queued: StrMap<Vec<Job>>,
    running: StrMap<Job>,
    receipts: Vec<JobReceipt>,
}

impl JobStore {
    /// The jobs waiting on `thread`, oldest first.
    pub closed spec fn spec_queue(&self, thread: Seq<char>) -> Seq<Job> {
        queue_of(self.queued@, thread)
    }

    /// The running jobs by thread, in thread order.
    pub closed spec fn spec_running(&self) -> Seq<(Seq<char>, Job)> {
        self.running@
    }

    /// The retained receipts, oldest first.
    pub closed spec fn spec_receipts(&self) -> Seq<JobReceipt> {
        self.receipts@
    }

    pub closed spec fn spec_next_sequence(&self) -> u64 {
        self.next_sequence
    }

    pub closed spec fn spec_max_queue_depth(&self) -> usize {
        self.max_queue_depth
    }

    pub closed spec fn spec_max_receipts(&self) -> usize {
        self.max_receipts
    }

    /// The retained receipts never outnumber the limit and are in sequence order, the maps
    /// are in key order, and every job is filed under its own thread: a running job, in the
    /// running state, under its thread in the running map, a queued job, in the queued state,
    /// in its thread's queue.
    pub closed spec fn wf(&self) -> bool {
        &&& self.receipts@.len() <= self.max_receipts
        &&& crate::strmap::sorted_entries(self.running@)
        &&& crate::strmap::sorted_entries(self.queued@)
        &&& running_filed(self.running@)
        &&& queues_filed(self.queued@)
        &&& receipts_ordered(self.receipts@, self.next_sequence)
    }


    /// An empty store.
    pub fn new(max_queue_depth: usize, max_receipts: usize) -> (s: Self)
        ensures
            s.wf(),
            s.spec_max_queue_depth() == max_queue_depth,
            s.spec_max_receipts() == max_receipts,
            s.spec_next_sequence() == 1,
            forall|t: Seq<char>| #[trigger] s.spec_queue(t) == Seq::<Job>::empty(),
            s.spec_running() == Seq::<(Seq<char>, Job)>::empty(),
            s.spec_receipts() == Seq::<JobReceipt>::empty(),
    {
        JobStore {
            max_queue_depth,
            max_receipts,
            next_sequence: 1,
            queued: StrMap::new(),
            running: StrMap::new(),
            receipts: Vec::new(),
        }
    }

    /// The maps are in key order.
    fn maps_sorted(&self)
        ensures
            crate::strmap::sorted_entries(self.running@),
            crate::strmap::sorted_entries(self.queued@),
    {
        let _ = self.running.len();
        let _ = self.queued.len();
    }

    fn take_sequence(&mut self) -> (n: u64)
        ensures
            n == old(self).next_sequence,
            final(self).next_sequence == next_sequence(old(self).next_sequence),
            final(self).queued == old(self).queued,
            final(self).running == old(self).running,
            final(self).receipts == old(self).receipts,
            final(self).max_queue_depth == old(self).max_queue_depth,
            final(self).max_receipts == old(self).max_receipts,
    {
        let n = self.next_sequence;
        self.next_sequence = if self.next_sequence == u64::MAX {
            u64::MAX
        } else {
            self.next_sequence + 1
        };
        n
    }

    fn push_receipt(&mut self, receipt: JobReceipt)
        ensures
            final(self).receipts@ == retain_last(
                old(self).receipts@.push(receipt),
                old(self).max_receipts as nat,
            ),
            final(self).next_sequence == old(self).next_sequence,
            final(self).queued == old(self).queued,
            final(self).running == old(self).running,
            final(self).max_queue_depth == old(self).max_queue_depth,
            final(self).max_receipts == old(self).max_receipts,
    {
        let ghost all = self.receipts@.push(receipt);
        self.receipts.push(receipt);
        let ghost mut dropped: int = 0;
        while self.receipts.len() > self.max_receipts
            invariant
                0 <= dropped <= all.len(),
                self.receipts@ == all.skip(dropped),
                self.next_sequence == old(self).next_sequence,
                self.queued == old(self).queued,
                self.running == old(self).running,
                self.max_queue_depth == old(self).max_queue_depth,
                self.max_receipts == old(self).max_receipts,
                dropped > 0 ==> all.len() - dropped >= self.max_receipts,
            decreases self.receipts.len(),
        {
            self.receipts.remove(0);
            proof {
                assert(all.skip(dropped).skip(1) == all.skip(dropped + 1));
                dropped = dropped + 1;
            }
        }
        proof {
            if all.len() <= self.max_receipts {
                assert(dropped == 0);
                assert(all.skip(0) == all);
            } else {
                assert(dropped == all.len() - self.max_receipts);
            }
        }
    }

    /// Adds a job to the end of `thread_id`'s queue, unless the queue is full.
    pub fn enqueue(&mut self, thread_id: &str, connector: &str, prompt: &str) -> (r: Result<
        Job,
        JobStoreError,
    >)
        requires
            old(self).wf(),
        ensures
            final(self).wf(),
            enqueue_post(*old(self), *final(self), thread_id@, connector@, prompt@, r),

    {
        let _ = self.queued.len();
        let queued_len: usize = match self.queued.get(thread_id) {
            Some(q) => q.len(),
            None => 0,
        };
        if queued_len >= self.max_queue_depth {
            return Err(JobStoreError::QueueFull(copy_str(thread_id)));
        }
        let created_sequence = self.take_sequence();
        let job = Job {
            id: new_random_id(),
            thread_id: copy_str(thread_id),
            connector: copy_str(connector),
            prompt_preview: prompt_preview(prompt),
            state: JobState::Queued,
            created_sequence,
        };
        let mut queue: Vec<Job> = match self.queued.remove(thread_id) {
            Some(q) => q,
            None => Vec::new(),
        };
        let ghost q0 = queue@;
        queue.push(job.clone());
        let ghost s0 = self.queued@;
        proof {
            assert(q0 == old(self).spec_queue(thread_id@));
        }
        self.queued.insert(copy_str(thread_id), queue);
        proof {
            assert forall|t: Seq<char>| #[trigger] self.spec_queue(t) == if t == thread_id@ {
                old(self).spec_queue(thread_id@).push(job)
            } else {
                old(self).spec_queue(t)
            } by {
                lemma_lookup_insert(s0, thread_id@, queue, t);
                lemma_remove_entry_lookup(old(self).queued@, thread_id@, t);
            }
            assert(self.spec_queue(thread_id@) == old(self).spec_queue(thread_id@).push(job));
            assert forall|t: Seq<char>, k: int|
                0 <= k < queue_of(self.queued@, t).len() implies (#[trigger] queue_of(
                    self.queued@,
                    t,
                )[k]).thread_id@ == t && queue_of(self.queued@, t)[k].state == JobState::Queued by {
                assert(queue_of(self.queued@, t) == self.spec_queue(t));
                assert(queue_of(old(self).queued@, t) == old(self).spec_queue(t));
                if t == thread_id@ && k == queue_of(old(self).queued@, t).len() {
                    assert(queue_of(self.queued@, t)[k] == job);
                } else {
                    assert(queue_of(self.queued@, t)[k] == queue_of(old(self).queued@, t)[k]);
                }
            }
        }
        self.maps_sorted();
        Ok(job)
    }

    /// Starts the oldest queued job of `thread_id`, unless that thread already runs one or
    /// has nothing queued.
    pub fn start_next(&mut self, thread_id: &str) -> (r: Option<Job>)
        requires
            old(self).wf(),
        ensures
            final(self).wf(),
            start_next_post(*old(self), *final(self), thread_id@, r),

    {
        if self.running.contains_key(thread_id) {
            return None;
        }
        let _ = self.queued.len();
        let has_front = match self.queued.get(thread_id) {
            Some(q) => q.len() > 0,
            None => false,
        };
        if !has_front {
            return None;
        }
        let ghost s0 = self.queued@;
        let mut queue = match self.queued.remove(thread_id) {
            Some(q) => q,
            None => Vec::new(),
        };
        let ghost q0 = queue@;
        let mut job = queue.remove(0);
        job.state = JobState::Running;
        let ghost s1 = self.queued@;
        self.queued.insert(copy_str(thread_id), queue);
        self.running.insert(copy_str(thread_id), job.clone());
        proof {
            assert forall|t: Seq<char>| #[trigger] self.spec_queue(t) == if t == thread_id@ {
                old(self).spec_queue(thread_id@).drop_first()
            } else {
                old(self).spec_queue(t)
            } by {
                lemma_lookup_insert(s1, thread_id@, queue, t);
                lemma_remove_entry_lookup(s0, thread_id@, t);
            }
            let front = old(self).spec_queue(thread_id@)[0];
            assert(q0 == old(self).spec_queue(thread_id@));
            assert(front.thread_id@ == thread_id@ && front.state == JobState::Queued);
            assert forall|t: Seq<char>| #[trigger]
                lookup(self.running@, t) is Some implies lookup(self.running@, t)->0.thread_id@ == t && lookup(self.running@, t)->0.state
                    == JobState::Running by {
                lemma_lookup_insert(old(self).running@, thread_id@, job, t);
            }
            assert forall|t: Seq<char>, k: int|
                0 <= k < queue_of(self.queued@, t).len() implies (#[trigger] queue_of(
                    self.queued@,
                    t,
                )[k]).thread_id@ == t && queue_of(self.queued@, t)[k].state == JobState::Queued by {
                assert(queue_of(self.queued@, t) == self.spec_queue(t));
                assert(queue_of(old(self).queued@, t) == old(self).spec_queue(t));
                if t == thread_id@ {
                    assert(queue_of(self.queued@, t)[k] == queue_of(old(self).queued@, t)[k + 1]);
                } else {
                    assert(queue_of(self.queued@, t)[k] == queue_of(old(self).queued@, t)[k]);
                }
            }
        }
        self.maps_sorted();
        Some(job)
    }

    /// Records the end of the running job `job_id` with the given outcome.
    pub fn finish(&mut self, job_id: &str, state: JobState, message: &str) -> (r: Result<
        JobReceipt,
        JobStoreError,
    >)
        requires
            old(self).wf(),
        ensures
            final(self).wf(),
            finish_post(*old(self), *final(self), job_id@, state, message@, r),

    {
        let n = self.running.len();
        let target = chars_of(job_id);
        let mut i: usize = 0;
        let mut found: Option<usize> = None;
        proof {
            lemma_running_index(self.running@, job_id@);
        }
        while i < n
            invariant_except_break
                found is None,
            invariant
                i <= n == self.running@.len(),
                target@ == job_id@,
                forall|j: int| 0 <= j < i ==> self.running@[j].1.id@ != job_id@,
            ensures
                found matches Some(k) ==> k < n && self.running@[k as int].1.id@ == job_id@
                    && forall|j: int| 0 <= j < k ==> self.running@[j].1.id@ != job_id@,
                found is None ==> forall|j: int| 0 <= j < n ==> self.running@[j].1.id@ != job_id@,
            decreases n - i,
        {
            let (_key, job) = self.running.entry(i);
            if crate::text::str_eq(job.id.as_str(), job_id) {
                assert(self.running@[i as int].1.id@ == job_id@);
                found = Some(i);
                break;
            }
            i = i + 1;
        }
        match found {
            None => {
                proof {
                    if running_index(self.running@, job_id@) is Some {
                        let k = running_index(self.running@, job_id@)->0;
                        assert(self.running@[k].1.id@ == job_id@);
                    }
                }
                Err(JobStoreError::UnknownJob(copy_str(job_id)))
            },
            Some(k) => {
                proof {
                    if running_index(self.running@, job_id@) != Some(k as int) {
                        let k2 = running_index(self.running@, job_id@)->0;
                        assert(self.running@[k2].1.id@ == job_id@);
                    }
                }
                let (key, _job) = self.running.entry(k);
                let thread = copy_str(key.as_str());
                let removed = self.running.remove(thread.as_str());
                proof {
                    crate::strmap::lemma_lookup_at(old(self).running@, k as int);
                }
                let job = match removed {
                    Some(j) => j,
                    None => {
                        // unreachable: the key was read from the map
                        return Err(JobStoreError::UnknownJob(copy_str(job_id)));
                    },
                };
                let ghost removed_running = self.running@;
                let sequence = self.take_sequence();
                let receipt = JobReceipt {
                    job_id: job.id,
                    thread_id: job.thread_id,
                    connector: job.connector,
                    state,
                    message: copy_str(message),
                    sequence,
                };
                proof {
                    lemma_receipt_pushed(old(self).receipts@, old(self).next_sequence, receipt, self.max_receipts as nat);
                    assert forall|t: Seq<char>| #[trigger]
                        lookup(removed_running, t) is Some implies lookup(removed_running, t)->0.thread_id@ == t
                            && lookup(removed_running, t)->0.state == JobState::Running by {
                        lemma_remove_entry_lookup(old(self).running@, thread@, t);
                    }
                }
                self.push_receipt(receipt.clone());
                self.maps_sorted();
                Ok(receipt)
            },
        }
    }

    /// Cancels the job running on `thread_id`.
    pub fn cancel_running(&mut self, thread_id: &str) -> (r: Result<JobReceipt, JobStoreError>)
        requires
            old(self).wf(),
        ensures
            final(self).wf(),
            cancel_post(*old(self), *final(self), thread_id@, r),

    {
        let job = match self.running.remove(thread_id) {
            Some(j) => j,
            None => {
                return Err(JobStoreError::NoRunningJob(copy_str(thread_id)));
            },
        };
        let ghost removed_running = self.running@;
        let sequence = self.take_sequence();
        let receipt = JobReceipt {
            job_id: job.id,
            thread_id: job.thread_id,
            connector: job.connector,
            state: JobState::Canceled,
            message: copy_str("canceled by parent gateway"),
            sequence,
        };
        proof {
            lemma_receipt_pushed(old(self).receipts@, old(self).next_sequence, receipt, self.max_receipts as nat);
            assert forall|t: Seq<char>| #[trigger]
                lookup(removed_running, t) is Some implies lookup(removed_running, t)->0.thread_id@ == t && lookup(removed_running, t)->0.state
                    == JobState::Running by {
                lemma_remove_entry_lookup(old(self).running@, thread_id@, t);
            }
        }
        self.push_receipt(receipt.clone());
        self.maps_sorted();
        Ok(receipt)
    }

    /// The jobs waiting on `thread_id`, oldest first.
    pub fn queued_for_thread(&self, thread_id: &str) -> (r: Vec<Job>)
        ensures
            r@ == self.spec_queue(thread_id@),
    {
        match self.queued.get(thread_id) {
            Some(q) => {
                let mut out: Vec<Job> = Vec::new();
                let mut i: usize = 0;
                while i < q.len()
                    invariant
                        i <= q.len(),
                        out@ == q@.take(i as int),
                    decreases q.len() - i,
                {
                    out.push(q[i].clone());
                    i = i + 1;
                    assert(out@ == q@.take(i as int));
                }
                assert(q@.take(q.len() as int) == q@);
                out
            },
            None => Vec::new(),
        }
    }

    /// The job running on `thread_id`, if any.
    pub fn running_for_thread(&self, thread_id: &str) -> (r: Option<&Job>)
        ensures
            r matches Some(j) ==> lookup(self.spec_running(), thread_id@) == Some(*j),
            r is None ==> lookup(self.spec_running(), thread_id@) is None,
    {
        self.running.get(thread_id)
    }

    /// The retained receipts, oldest first.
    pub fn receipts(&self) -> (r: Vec<JobReceipt>)
        ensures
            r@ == self.spec_receipts(),
    {
        let mut out: Vec<JobReceipt> = Vec::new();
        let mut i: usize = 0;
        while i < self.receipts.len()
            invariant
                i <= self.receipts.len(),
                out@ == self.receipts@.take(i as int),
            decreases self.receipts.len() - i,
        {
            out.push(self.receipts[i].clone());
            i = i + 1;
            assert(out@ == self.receipts@.take(i as int));
        }
        assert(self.receipts@.take(self.receipts.len() as int) == self.receipts@);
        out
    }
}

/// The outcome of `enqueue`: the job goes to the end of its thread's queue unless the queue is
/// full, and nothing else changes but the sequence number.
pub open spec fn enqueue_post(before: JobStore, after: JobStore, thread: Seq<char>, connector: Seq<char>, prompt: Seq<char>, r: Result<Job, JobStoreError>) -> bool {
    &&& (before.spec_queue(thread).len() >= before.spec_max_queue_depth() ==> {
        &&& r matches Err(JobStoreError::QueueFull(t)) && t@ == thread
        &&& after == before
    })
    &&& (before.spec_queue(thread).len() < before.spec_max_queue_depth() ==> {
        &&& r matches Ok(job)
        &&& crate::ids::is_uuid_v4_text(job.id@)
        &&& job.thread_id@ == thread
        &&& job.connector@ == connector
        &&& job.prompt_preview@ == preview_of(prompt)
        &&& job.state == JobState::Queued
        &&& job.created_sequence == before.spec_next_sequence()
        &&& after.spec_queue(thread) == before.spec_queue(thread).push(
            job,
        )
        &&& forall|t: Seq<char>|
            t != thread ==> #[trigger] after.spec_queue(t) == before.spec_queue(t)
        &&& after.spec_next_sequence() == next_sequence(
            before.spec_next_sequence(),
        )
        &&& after.spec_running() == before.spec_running()
        &&& after.spec_receipts() == before.spec_receipts()
        &&& after.spec_max_queue_depth() == before.spec_max_queue_depth()
        &&& after.spec_max_receipts() == before.spec_max_receipts()
    })
}

/// The outcome of `start_next`: the oldest queued job of an idle thread becomes its running
/// job; a busy thread or an empty queue changes nothing.
pub open spec fn start_next_post(before: JobStore, after: JobStore, thread: Seq<char>, r: Option<Job>) -> bool {
    &&& (lookup(before.spec_running(), thread) is Some || before.spec_queue(
        thread,
    ).len() == 0 ==> r is None && after == before)
    &&& (lookup(before.spec_running(), thread) is None && before.spec_queue(
        thread,
    ).len() > 0 ==> {
        let front = before.spec_queue(thread)[0];
        &&& front.thread_id@ == thread
        &&& r == Some(Job { state: JobState::Running, ..front })
        &&& after.spec_running() == crate::strmap::insert_entry(
            before.spec_running(),
            thread,
            Job { state: JobState::Running, ..front },
        )
        &&& after.spec_queue(thread) == before.spec_queue(
            thread,
        ).drop_first()
        &&& forall|t: Seq<char>|
            t != thread ==> #[trigger] after.spec_queue(t) == before.spec_queue(t)
        &&& after.spec_receipts() == before.spec_receipts()
        &&& after.spec_next_sequence() == before.spec_next_sequence()
        &&& after.spec_max_queue_depth() == before.spec_max_queue_depth()
        &&& after.spec_max_receipts() == before.spec_max_receipts()
    })
}

/// The outcome of `finish`: the running job with the identifier leaves the running set and
/// a receipt is kept; an unknown identifier changes nothing.
pub open spec fn finish_post(before: JobStore, after: JobStore, job_id: Seq<char>, state: JobState, message: Seq<char>, r: Result<JobReceipt, JobStoreError>) -> bool {
    &&& (running_index(before.spec_running(), job_id) is None ==> {
        &&& r matches Err(JobStoreError::UnknownJob(j)) && j@ == job_id
        &&& after == before
    })
    &&& (running_index(before.spec_running(), job_id) matches Some(i) ==> {
        let entry = before.spec_running()[i];
        let job = entry.1;
        &&& r matches Ok(receipt)
        &&& receipt.job_id == job.id
        &&& receipt.thread_id == job.thread_id
        &&& receipt.thread_id@ == entry.0
        &&& receipt.connector == job.connector
        &&& receipt.state == state
        &&& receipt.message@ == message
        &&& receipt.sequence == before.spec_next_sequence()
        &&& after.spec_running() == remove_entry(before.spec_running(), entry.0)
        &&& after.spec_receipts() == retain_last(
            before.spec_receipts().push(receipt),
            before.spec_max_receipts() as nat,
        )
        &&& after.spec_next_sequence() == next_sequence(
            before.spec_next_sequence(),
        )
        &&& forall|t: Seq<char>| #[trigger]
            after.spec_queue(t) == before.spec_queue(t)
        &&& after.spec_max_queue_depth() == before.spec_max_queue_depth()
        &&& after.spec_max_receipts() == before.spec_max_receipts()
    })
}

/// The outcome of `cancel_running`: the thread's running job leaves the running set with a
/// canceled receipt; a thread with nothing running changes nothing.
pub open spec fn cancel_post(before: JobStore, after: JobStore, thread: Seq<char>, r: Result<JobReceipt, JobStoreError>) -> bool {
    &&& (lookup(before.spec_running(), thread) is None ==> {
        &&& r matches Err(JobStoreError::NoRunningJob(t)) && t@ == thread
        &&& after == before
    })
    &&& (lookup(before.spec_running(), thread) matches Some(job) ==> {
        &&& r matches Ok(receipt)
        &&& receipt.job_id == job.id
        &&& receipt.thread_id == job.thread_id
        &&& receipt.thread_id@ == thread
        &&& receipt.connector == job.connector
        &&& receipt.state == JobState::Canceled
        &&& receipt.message@ == "canceled by parent gateway"@
        &&& receipt.sequence == before.spec_next_sequence()
        &&& after.spec_running() == remove_entry(
            before.spec_running(),
            thread,
        )
        &&& after.spec_receipts() == retain_last(
            before.spec_receipts().push(receipt),
            before.spec_max_receipts() as nat,
        )
        &&& after.spec_next_sequence() == next_sequence(
            before.spec_next_sequence(),
        )
        &&& forall|t: Seq<char>| #[trigger]
            after.spec_queue(t) == before.spec_queue(t)
        &&& after.spec_max_queue_depth() == before.spec_max_queue_depth()
        &&& after.spec_max_receipts() == before.spec_max_receipts()
    })
}

/// Lookups after removing a key are unchanged for other keys; the removed key is gone from a
/// sorted map.
proof fn lemma_remove_entry_lookup<V>(s: Seq<(Seq<char>, V)>, k: Seq<char>, k2: Seq<char>)
    requires
        crate::strmap::sorted_entries(s),
    ensures
        lookup(remove_entry(s, k), k2) == if k2 == k {
            None
        } else {
            lookup(s, k2)
        },
{
    lemma_remove_entry(s, k);
}

/// The retained receipts never outnumber the store's limit.
pub proof fn law_receipts_are_bounded(s: JobStore)
    requires
        s.wf(),
    ensures
        s.spec_receipts().len() <= s.spec_max_receipts(),
{
}

/// A thread never runs two jobs: asking a busy thread to start its next job starts nothing
/// and changes nothing.
pub proof fn law_one_running_job_per_thread(
    before: JobStore,
    after: JobStore,
    thread: Seq<char>,
    r: Option<Job>,
)
    requires
        start_next_post(before, after, thread, r),
        lookup(before.spec_running(), thread) is Some,
    ensures
        r is None,
        after == before,
{
}

/// On an idle thread with an empty queue, the job just queued is the one that starts next.
pub proof fn law_queued_job_starts_next(
    a: JobStore,
    b: JobStore,
    c: JobStore,
    thread: Seq<char>,
    connector: Seq<char>,
    prompt: Seq<char>,
    queued: Result<Job, JobStoreError>,
    started: Option<Job>,
)
    requires
        a.spec_max_queue_depth() > 0,
        lookup(a.spec_running(), thread) is None,
        a.spec_queue(thread).len() == 0,
        enqueue_post(a, b, thread, connector, prompt, queued),
        start_next_post(b, c, thread, started),
    ensures
        queued matches Ok(job) && started == Some(Job { state: JobState::Running, ..job }),
{
    let job = queued->Ok_0;
    assert(b.spec_queue(thread) == seq![job]);
    assert(b.spec_queue(thread)[0] == job);
}

/// Queued jobs start in the order they were queued: after the running job of a thread is
/// canceled, the oldest queued job of that thread starts next.
pub proof fn law_cancel_then_start_next(
    a: JobStore,
    b: JobStore,
    c: JobStore,
    thread: Seq<char>,
    canceled: Result<JobReceipt, JobStoreError>,
    started: Option<Job>,
)
    requires
        a.wf(),
        lookup(a.spec_running(), thread) is Some,
        a.spec_queue(thread).len() > 0,
        cancel_post(a, b, thread, canceled),
        start_next_post(b, c, thread, started),
    ensures
        canceled is Ok,
        started == Some(Job { state: JobState::Running, ..a.spec_queue(thread)[0] }),
{
    lemma_remove_entry(a.running@, thread);
    assert(lookup(b.spec_running(), thread) is None);
    assert(b.spec_queue(thread) == a.spec_queue(thread));
}

/// Every running job is in the running state and filed under its own thread.
pub proof fn law_running_jobs_are_filed_under_their_thread(s: JobStore, t: Seq<char>)
    requires
        s.wf(),
    ensures
        lookup(s.spec_running(), t) matches Some(j) ==> j.thread_id@ == t && j.state
            == JobState::Running,
{
}

/// Every queued job is in the queued state and waits in its own thread's queue.
pub proof fn law_queued_jobs_wait_under_their_thread(s: JobStore, t: Seq<char>, k: int)
    requires
        s.wf(),
        0 <= k < s.spec_queue(t).len(),
    ensures
        s.spec_queue(t)[k].thread_id@ == t,
        s.spec_queue(t)[k].state == JobState::Queued,
{
    assert(s.spec_queue(t) == queue_of(s.queued@, t));
}

/// Until the sequence numbers run out, the retained receipts are in strictly increasing
/// sequence order, all below the next number to be issued.
pub proof fn law_receipt_sequences_increase(s: JobStore)
    requires
        s.wf(),
        s.spec_next_sequence() < u64::MAX,
    ensures
        forall|i: int, j: int|
            0 <= i < j < s.spec_receipts().len() ==> (#[trigger] s.spec_receipts()[i]).sequence < (
            #[trigger] s.spec_receipts()[j]).sequence,
        forall|i: int|
            0 <= i < s.spec_receipts().len() ==> (#[trigger] s.spec_receipts()[i]).sequence
                < s.spec_next_sequence(),
{
}

/// The retained receipts after a new one are the latest of the earlier ones followed by the
/// new one, the oldest dropped first, so that (with room for any) the new receipt is the last
/// one kept and the history stays in the order the receipts were returned.
pub proof fn law_newest_receipt_is_kept_last(
    before: Seq<JobReceipt>,
    receipt: JobReceipt,
    max: nat,
)
    requires
        max > 0,
    ensures
        retain_last(before.push(receipt), max).len() == if before.len() + 1 <= max {
            (before.len() + 1) as int
        } else {
            max as int
        },
        retain_last(before.push(receipt), max).last() == receipt,
        retain_last(before.push(receipt), max) == before.push(receipt).skip(
            before.len() + 1 - retain_last(before.push(receipt), max).len(),
        ),
{
    let all = before.push(receipt);
    if all.len() <= max {
        assert(all.skip(0) =~= all);
    }
}

/// Keeping the latest `max` of the retained receipts and a new one is keeping the latest
/// `max` of all receipts and the new one.
proof fn lemma_retain_last_push(all: Seq<JobReceipt>, r: JobReceipt, max: nat)
    ensures
        retain_last(retain_last(all, max).push(r), max) == retain_last(all.push(r), max),
{
    let kept = retain_last(all, max);
    if all.len() > max {
        assert(kept.len() == max);
    }
    let lhs = retain_last(kept.push(r), max);
    let rhs = retain_last(all.push(r), max);
    assert(lhs.len() == rhs.len());
    assert(lhs =~= rhs);
}

/// The retained receipts are always the latest of all receipts returned, in the order they
/// were returned: if a store keeps the latest of the receipts returned so far, it still does
/// after `finish` or `cancel_running` returns another (and `enqueue` and `start_next` keep
/// the receipts as they are).
pub proof fn law_receipts_are_the_latest_returned(
    before: JobStore,
    after: JobStore,
    returned: Seq<JobReceipt>,
    job_id: Seq<char>,
    state: JobState,
    message: Seq<char>,
    thread: Seq<char>,
    finished: Result<JobReceipt, JobStoreError>,
    canceled: Result<JobReceipt, JobStoreError>,
)
    requires
        before.spec_receipts() == retain_last(returned, before.spec_max_receipts() as nat),
    ensures
        finish_post(before, after, job_id, state, message, finished) ==> (finished matches Ok(r)
            ==> after.spec_receipts() == retain_last(
            returned.push(r),
            after.spec_max_receipts() as nat,
        )) && (finished is Err ==> after.spec_receipts() == retain_last(
            returned,
            after.spec_max_receipts() as nat,
        )),
        cancel_post(before, after, thread, canceled) ==> (canceled matches Ok(r)
            ==> after.spec_receipts() == retain_last(
            returned.push(r),
            after.spec_max_receipts() as nat,
        )) && (canceled is Err ==> after.spec_receipts() == retain_last(
            returned,
            after.spec_max_receipts() as nat,
        )),
{
    let m = before.spec_max_receipts() as nat;
    if finished is Ok {
        lemma_retain_last_push(returned, finished->Ok_0, m);
    }
    if canceled is Ok {
        lemma_retain_last_push(returned, canceled->Ok_0, m);
    }
}

/// No two queued jobs share an identifier, and no queued job shares one with a running job.
pub open spec fn ids_apart(s: JobStore) -> bool {
    &&& forall|t1: Seq<char>, k1: int, t2: Seq<char>, k2: int|
        0 <= k1 < s.spec_queue(t1).len() && 0 <= k2 < s.spec_queue(t2).len() && (t1 != t2 || k1
            != k2) ==> (#[trigger] s.spec_queue(t1)[k1]).id@ != (#[trigger] s.spec_queue(
            t2,
        )[k2]).id@
    &&& forall|t1: Seq<char>, k: int, t2: Seq<char>|
        0 <= k < s.spec_queue(t1).len() && (#[trigger] lookup(s.spec_running(), t2)) is Some
            ==> (#[trigger] s.spec_queue(t1)[k]).id@ != lookup(s.spec_running(), t2)->0.id@
}

/// An identifier that no job in the store has.
pub open spec fn id_is_new(s: JobStore, id: Seq<char>) -> bool {
    &&& forall|t: Seq<char>, k: int|
        0 <= k < s.spec_queue(t).len() ==> (#[trigger] s.spec_queue(t)[k]).id@ != id
    &&& forall|t: Seq<char>| #[trigger]
        lookup(s.spec_running(), t) matches Some(j) ==> j.id@ != id
}

/// No job is ever both queued and running: an empty store has no jobs, and every operation
/// keeps queued identifiers apart from each other and from the running jobs', as long as
/// each identifier `enqueue` draws is new to the store (identifiers are random UUIDs, which
/// the store does not check).
pub proof fn law_no_job_is_both_queued_and_running(
    before: JobStore,
    after: JobStore,
    thread: Seq<char>,
    connector: Seq<char>,
    prompt: Seq<char>,
    job_id: Seq<char>,
    state: JobState,
    message: Seq<char>,
    enqueued: Result<Job, JobStoreError>,
    started: Option<Job>,
    finished: Result<JobReceipt, JobStoreError>,
    canceled: Result<JobReceipt, JobStoreError>,
)
    requires
        before.wf(),
        ids_apart(before),
    ensures
        enqueue_post(before, after, thread, connector, prompt, enqueued) && (enqueued matches Ok(
            j,
        ) ==> id_is_new(before, j.id@)) ==> ids_apart(after),
        start_next_post(before, after, thread, started) ==> ids_apart(after),
        finish_post(before, after, job_id, state, message, finished) ==> ids_apart(after),
        cancel_post(before, after, thread, canceled) ==> ids_apart(after),
{
    if enqueue_post(before, after, thread, connector, prompt, enqueued) && (enqueued matches Ok(
        j,
    ) ==> id_is_new(before, j.id@)) {
        lemma_enqueue_keeps_ids_apart(before, after, thread, connector, prompt, enqueued);
    }
    if start_next_post(before, after, thread, started) {
        lemma_start_next_keeps_ids_apart(before, after, thread, started);
    }
    if finish_post(before, after, job_id, state, message, finished) {
        lemma_removal_keeps_ids_apart(before, after, before.spec_running()[running_index(before.spec_running(), job_id)->0].0);
    }
    if cancel_post(before, after, thread, canceled) {
        lemma_removal_keeps_ids_apart(before, after, thread);
    }
}

proof fn lemma_enqueue_keeps_ids_apart(
    before: JobStore,
    after: JobStore,
    thread: Seq<char>,
    connector: Seq<char>,
    prompt: Seq<char>,
    r: Result<Job, JobStoreError>,
)
    requires
        ids_apart(before),
        enqueue_post(before, after, thread, connector, prompt, r),
        r matches Ok(j) ==> id_is_new(before, j.id@),
    ensures
        ids_apart(after),
{
    if r is Ok {
        let job = r->Ok_0;
        let bq = before.spec_queue(thread);
        assert forall|t: Seq<char>, k: int| 0 <= k < after.spec_queue(t).len() implies
            #[trigger] after.spec_queue(t)[k] == if t == thread && k == bq.len() {
                job
            } else {
                before.spec_queue(t)[k]
            } && (t != thread || k <= bq.len()) && (!(t == thread && k == bq.len()) ==> k
            < before.spec_queue(t).len()) by {
            if t != thread {
                assert(after.spec_queue(t) == before.spec_queue(t));
            }
        }
    }
}

proof fn lemma_start_next_keeps_ids_apart(
    before: JobStore,
    after: JobStore,
    thread: Seq<char>,
    r: Option<Job>,
)
    requires
        before.wf(),
        ids_apart(before),
        start_next_post(before, after, thread, r),
    ensures
        ids_apart(after),
{
    if lookup(before.spec_running(), thread) is None && before.spec_queue(thread).len() > 0 {
        let bq = before.spec_queue(thread);
        let front = bq[0];
        assert forall|t: Seq<char>, k: int| 0 <= k < after.spec_queue(t).len() implies
            #[trigger] after.spec_queue(t)[k] == if t == thread {
                bq[k + 1]
            } else {
                before.spec_queue(t)[k]
            } && (t == thread ==> k + 1 < bq.len()) && (t != thread ==> k < before.spec_queue(
                t,
            ).len()) by {
            if t != thread {
                assert(after.spec_queue(t) == before.spec_queue(t));
            }
        }
        assert forall|t: Seq<char>| #[trigger] lookup(after.spec_running(), t) == if t == thread {
            Some(Job { state: JobState::Running, ..front })
        } else {
            lookup(before.spec_running(), t)
        } by {
            crate::strmap::lemma_lookup_insert(
                before.spec_running(),
                thread,
                Job { state: JobState::Running, ..front },
                t,
            );
        }
        assert forall|t1: Seq<char>, k1: int, t2: Seq<char>, k2: int|
            0 <= k1 < after.spec_queue(t1).len() && 0 <= k2 < after.spec_queue(t2).len() && (t1
                != t2 || k1 != k2) implies (#[trigger] after.spec_queue(t1)[k1]).id@
            != (#[trigger] after.spec_queue(t2)[k2]).id@ by {
            let p1 = if t1 == thread { k1 + 1 } else { k1 };
            let p2 = if t2 == thread { k2 + 1 } else { k2 };
            assert(before.spec_queue(t1)[p1] == after.spec_queue(t1)[k1]);
            assert(before.spec_queue(t2)[p2] == after.spec_queue(t2)[k2]);
        }
        assert forall|t1: Seq<char>, k: int, t2: Seq<char>|
            0 <= k < after.spec_queue(t1).len() && (#[trigger] lookup(after.spec_running(), t2))
                is Some implies (#[trigger] after.spec_queue(t1)[k]).id@ != lookup(
            after.spec_running(),
            t2,
        )->0.id@ by {
            let p = if t1 == thread { k + 1 } else { k };
            assert(before.spec_queue(t1)[p] == after.spec_queue(t1)[k]);
            if t2 == thread {
                assert(before.spec_queue(thread)[0] == front);
            } else {
                assert(lookup(before.spec_running(), t2) == lookup(after.spec_running(), t2));
            }
        }
    }
}

proof fn lemma_removal_keeps_ids_apart(before: JobStore, after: JobStore, key: Seq<char>)
    requires
        before.wf(),
        ids_apart(before),
        after.spec_running() == remove_entry(before.spec_running(), key) || after == before,
        forall|t: Seq<char>| #[trigger] after.spec_queue(t) == before.spec_queue(t),
    ensures
        ids_apart(after),
{
    if after.spec_running() == remove_entry(before.spec_running(), key) {
        lemma_remove_entry(before.spec_running(), key);
        assert forall|t1: Seq<char>, k: int, t2: Seq<char>|
            0 <= k < after.spec_queue(t1).len() && (#[trigger] lookup(after.spec_running(), t2))
                is Some implies (#[trigger] after.spec_queue(t1)[k]).id@ != lookup(
            after.spec_running(),
            t2,
        )->0.id@ by {
            assert(after.spec_queue(t1) == before.spec_queue(t1));
            assert(lookup(after.spec_running(), t2) == lookup(before.spec_running(), t2));
        }
        assert forall|t1: Seq<char>, k1: int, t2: Seq<char>, k2: int|
            0 <= k1 < after.spec_queue(t1).len() && 0 <= k2 < after.spec_queue(t2).len() && (t1
                != t2 || k1 != k2) implies (#[trigger] after.spec_queue(t1)[k1]).id@
            != (#[trigger] after.spec_queue(t2)[k2]).id@ by {
            assert(after.spec_queue(t1) == before.spec_queue(t1));
            assert(after.spec_queue(t2) == before.spec_queue(t2));
        }
    }
}

/// A job's preview is never longer than the preview limit.
pub proof fn law_preview_fits(prompt: Seq<char>)
    ensures
        preview_of(prompt).len() <= PREVIEW_LIMIT,
{
    reveal_strlit("...");
}

} // verus!
