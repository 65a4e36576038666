//! The pool of worker threads: how many there are, and which one gets the
//! next task. The threads themselves run outside the library.
use vstd::prelude::*;

verus! {

/// Calls `num_cpus::get`, which returns the number of CPUs available to
/// the process. Its documentation promises "This will always return at
/// least `1`". The count depends on the machine; nothing more is claimed.
#[verifier::external_body]
fn available_cpus() -> (n: usize)
    ensures
        n >= 1,
{
    num_cpus::get()
}

/// The fewest CPUs that a pool sized by the machine needs: one for the
/// connection listener, one for the event loop, one left for the system,
/// and at least one worker.
pub const MIN_CPUS: usize = 4;

/// The size of a pool sized by the machine with `cpus` CPUs: every CPU
/// but the three kept for the listener, the event loop and the system, and
/// no pool at all (it refuses to start) below `MIN_CPUS`.
pub fn workers_for_cpus(cpus: usize) -> (r: Option<usize>)
    ensures
        r == if cpus < MIN_CPUS { None::<usize> } else { Some((cpus - 3) as usize) },
{
    if cpus < MIN_CPUS {
        None
    } else {
        Some(cpus - 3)
    }
}

/// The size of a pool sized by this machine: `workers_for_cpus` of the
/// number of CPUs available, whatever that is.
pub fn machine_worker_count() -> (r: Option<usize>)
    ensures
        r matches Some(n) ==> n >= MIN_CPUS - 3,
{
    workers_for_cpus(available_cpus())
}

/// The worker count of a pool asked for `num_workers` workers: at least one.
pub open spec fn worker_count(num_workers: u8) -> usize {
    if num_workers < 1 {
        1
    } else {
        num_workers as usize
    }
}

/// The worker that `pick` chooses when the ring stands at `next`, and where
/// the ring stands afterwards.
pub open spec fn pick_model(len: nat, next: nat) -> (nat, nat) {
    let i = if next == len { 0 } else { next };
    (i, i + 1)
}

/// Round-robin choice among the workers of a pool.
pub struct WorkerRing {
    len: usize,
    next: usize,
}

impl WorkerRing {
    /// The number of workers.
    pub closed spec fn size(&self) -> nat {
        self.len as nat
    }

    /// The position of the next choice.
    pub closed spec fn cursor(&self) -> nat {
        self.next as nat
    }

    /// Well-formedness: at least one worker, and the cursor within the ring.
    pub closed spec fn wf(&self) -> bool {
        1 <= self.len && self.next <= self.len
    }

    /// A ring over the workers of a pool asked for `num_workers` workers;
    /// zero is taken as one. The first choice is worker 0.
    pub fn new(num_workers: u8) -> (r: WorkerRing)
        ensures
            r.wf(),
            r.size() == worker_count(num_workers),
            num_workers >= 1 ==> r.size() == num_workers,
            num_workers == 0 ==> r.size() == 1,
            r.cursor() == 0,
    {
        let mut n = num_workers;
        if n < 1 {
            n = 1;
        }
        WorkerRing { len: n as usize, next: 0 }
    }

    /// A ring over `len` workers; the first choice is worker 0.
    pub fn with_len(len: usize) -> (r: WorkerRing)
        requires
            len >= 1,
        ensures
            r.wf(),
            r.size() == len,
            r.cursor() == 0,
    {
        WorkerRing { len, next: 0 }
    }

    /// The number of workers.
    pub fn len(&self) -> (n: usize)
        ensures
            n == self.size(),
    {
        self.len
    }

    /// Chooses the worker for the next task: the workers take turns in
    /// order, starting over after the last.
    pub fn pick(&mut self) -> (i: usize)
        requires
            old(self).wf(),
        ensures
            final(self).wf(),
            final(self).size() == old(self).size(),
            (i as nat, final(self).cursor()) == pick_model(old(self).size(), old(self).cursor()),
    {
        if self.next == self.len {
            self.next = 0;
        }
        let i = self.next;
        self.next = self.next + 1;
        i
    }
}

/// Every choice names one of the workers, and successive choices go round
/// the ring in order: after worker `i` comes worker `(i + 1) % len`.
pub proof fn lemma_pick_round_robin(len: nat, next: nat)
    requires
        1 <= len,
        next <= len,
    ensures
        pick_model(len, next).0 < len,
        pick_model(len, next).1 <= len,
        pick_model(len, pick_model(len, next).1).0 == (pick_model(len, next).0 + 1) % len,
{
    let i = pick_model(len, next).0;
    if i + 1 == len {
        vstd::arithmetic::div_mod::lemma_mod_self_0(len as int);
    } else {
        vstd::arithmetic::div_mod::lemma_small_mod((i + 1) as nat, len);
    }
}

/// From a fresh ring, the first `len` choices are the workers 0 to
/// `len - 1`, each once, in order.
pub proof fn lemma_pick_first_round(len: nat, k: nat)
    requires
        1 <= len,
        k < len,
    ensures
        pick_model(len, k).0 == k,
        pick_model(len, k).1 == k + 1,
{
}

/// A pool asked for at least one worker has exactly that many; one asked
/// for none has one.
pub proof fn lemma_worker_count(num_workers: u8)
    ensures
        num_workers >= 1 ==> worker_count(num_workers) == num_workers,
        num_workers == 0 ==> worker_count(num_workers) == 1,
{
}

/// From a fresh ring of a pool asked for `num_workers` workers, the choice
/// after `k` earlier ones is worker `k % num_workers` (worker 0 every time
/// when asked for none).
pub proof fn lemma_ring_kth_choice(num_workers: u8, k: nat)
    ensures
        num_workers >= 1 ==> pick_model(worker_count(num_workers) as nat, cursor_after(worker_count(num_workers) as nat, k)).0
            == k % (num_workers as nat),
        num_workers == 0 ==> pick_model(worker_count(num_workers) as nat, cursor_after(worker_count(num_workers) as nat, k)).0 == 0,
{
    lemma_pick_kth(worker_count(num_workers) as nat, k);
    if num_workers == 0 {
        vstd::arithmetic::div_mod::lemma_mod_self_0(1);
        vstd::arithmetic::div_mod::lemma_mod_bound(k as int, 1);
    }
}

/// Where a ring over `len` workers stands after `k` choices from a fresh
/// start.
pub open spec fn cursor_after(len: nat, k: nat) -> nat
    decreases k,
{
    if k == 0 {
        0
    } else {
        pick_model(len, cursor_after(len, (k - 1) as nat)).1
    }
}

/// The workers take turns: from a fresh ring over `len` workers, the choice
/// after `k` earlier ones is worker `k % len`.
pub proof fn lemma_pick_kth(len: nat, k: nat)
    requires
        1 <= len,
    ensures
        cursor_after(len, k) == (if k == 0 { 0 } else { ((k - 1) as nat % len) + 1 }),
        pick_model(len, cursor_after(len, k)).0 == k % len,
    decreases k,
{
    if k == 0 {
        vstd::arithmetic::div_mod::lemma_small_mod(0, len);
    } else {
        lemma_pick_kth(len, (k - 1) as nat);
        vstd::arithmetic::div_mod::lemma_mod_bound((k - 1) as int, len as int);
        vstd::arithmetic::div_mod::lemma_add_mod_noop((k - 1) as int, 1, len as int);
        if len == 1 {
            vstd::arithmetic::div_mod::lemma_mod_self_0(1);
        } else {
            vstd::arithmetic::div_mod::lemma_small_mod(1, len);
        }
        let r = (k - 1) as nat % len;
        if r + 1 == len {
            vstd::arithmetic::div_mod::lemma_mod_self_0(len as int);
        } else {
            vstd::arithmetic::div_mod::lemma_small_mod((r + 1) as nat, len);
        }
    }
}

/// The core numbers that a pool's per-core CPU figures are labelled with:
/// `0, 1, ...`, kept in a byte (so counting from 0 again after 255).
pub fn core_ids(num: usize) -> (ids: Vec<u8>)
    ensures
        ids@.len() == num,
        forall|i: int| 0 <= i < num ==> ids@[i] == (i % 256) as u8,
{
    let mut ids: Vec<u8> = Vec::new();
    let mut x: usize = 0;
    while x < num
        invariant
            0 <= x <= num,
            ids@.len() == x,
            forall|i: int| 0 <= i < x ==> ids@[i] == (i % 256) as u8,
        decreases num - x,
    {
        ids.push((x % 256) as u8);
        x = x + 1;
    }
    ids
}

/// The core numbers for the CPUs of this machine: one per available CPU.
pub fn machine_core_ids() -> (ids: Vec<u8>)
    ensures
        ids@.len() >= 1,
        forall|i: int| 0 <= i < ids@.len() ==> ids@[i] == (i % 256) as u8,
{
    core_ids(available_cpus())
}

} // verus!
