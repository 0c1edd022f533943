//! The per-worker search loop: generate a candidate, test it, emit a
//! result on a match, and batch attempt counts into a shared counter.

use vstd::prelude::*;
use std::sync::atomic::AtomicBool;
use std::sync::atomic::AtomicU64;
use std::sync::atomic::Ordering;
use crate::keygen::generate_candidate;
use crate::pattern::MatchSpec;
use crate::pattern::spec_match;

verus! {

/// A successful match, created by a worker and owned by the result
/// sink thereafter.
pub struct MatchResult {
    /// The matching address, verbatim as generated.
    pub address: String,
    /// The private key behind the address, in its export encoding.
    pub exported_private_key: String,
    /// The matcher's metric: zero for a prefix/suffix match, the
    /// occurrence count for a substring-count match.
    pub match_metric: usize,
    /// Which worker found it.
    pub worker_id: usize,
}

#[verifier::external_type_specification]
#[verifier::external_body]
#[verifier::reject_recursive_types(T)]
pub struct ExSender<T>(crossbeam::channel::Sender<T>);

/// Relies on crossbeam's `Sender::send`: on an unbounded channel it
/// never blocks, and it fails exactly when the receiver is gone. The
/// returned flag says whether the result was delivered.
#[verifier::external_body]
fn send_result(tx: &crossbeam::channel::Sender<MatchResult>, result: MatchResult) -> bool {
    tx.send(result).is_ok()
}

/// Relies on std's `AtomicU64::fetch_add` to accumulate attempt counts
/// across workers; the count is diagnostic, so relaxed ordering
/// suffices.
#[verifier::external_body]
fn flush_attempts(total_attempts: &AtomicU64, amount: u64) {
    total_attempts.fetch_add(amount, Ordering::Relaxed);
}

/// Relies on std's `AtomicBool::load` to poll the shared stop flag.
#[verifier::external_body]
fn stop_requested(stop: &AtomicBool) -> bool {
    stop.load(Ordering::Relaxed)
}

/// Tests one candidate against the specification; on a match, builds
/// the result record exactly from the candidate's fields and the
/// matcher's metric.
pub fn process_candidate(
    m: &MatchSpec,
    address: String,
    exported_private_key: String,
    worker_id: usize,
) -> (r: Option<MatchResult>)
    requires
        m.wf(),
    ensures
        match r {
            Some(res) => {
                &&& spec_match(vstd::utf8::encode_utf8(address@), m) == Some(
                    res.match_metric as nat,
                )
                &&& res.address@ == address@
                &&& res.exported_private_key@ == exported_private_key@
                &&& res.worker_id == worker_id
            },
            None => spec_match(vstd::utf8::encode_utf8(address@), m) is None,
        },
{
    let metric = crate::pattern::match_address(address.as_str().as_bytes(), m);
    match metric {
        Some(match_metric) => Some(
            MatchResult { address, exported_private_key, match_metric, worker_id },
        ),
        None => None,
    }
}

/// One worker's transparent loop state: its identifier and the local
/// attempt counter that batches updates of the shared counter.
pub struct WorkerCounter {
    /// Which worker this is.
    pub worker_id: usize,
    /// Attempts not yet flushed to the shared counter.
    pub local_attempts: u64,
    /// How many attempts accumulate locally before one flush of the
    /// shared counter; a tunable performance parameter.
    pub batch: u64,
}

impl WorkerCounter {
    /// The local counter always stays below the flush batch, so the
    /// shared counter under-reports by at most `batch - 1` per worker.
    pub open spec fn wf(&self) -> bool {
        1 <= self.batch && self.local_attempts < self.batch
    }

    /// A fresh counter for one worker.
    pub fn new(worker_id: usize, batch: u64) -> (s: Self)
        requires
            1 <= batch,
        ensures
            s.wf(),
            s.worker_id == worker_id,
            s.batch == batch,
            s.local_attempts == 0,
    {
        WorkerCounter { worker_id, local_attempts: 0, batch }
    }
}

/// Sets up one worker: its counter state, its own curve context and
/// its private entropy stream.
pub fn init_worker(worker_id: usize, batch: u64) -> (r: (
    WorkerCounter,
    crate::keygen::SecpContext,
    rand::rngs::ThreadRng,
))
    requires
        1 <= batch,
    ensures
        r.0.wf(),
        r.0.worker_id == worker_id,
        r.0.batch == batch,
        r.0.local_attempts == 0,
{
    (
        WorkerCounter::new(worker_id, batch),
        crate::keygen::new_secp_context(),
        crate::keygen::new_thread_rng(),
    )
}

/// What one iteration of the worker loop observed, and whether the
/// worker goes on.
#[derive(Clone, Copy, PartialEq, Eq, Structural)]
pub struct StepOutcome {
    /// A matching candidate was produced and accepted by the channel.
    pub delivered: bool,
    /// A matching candidate was produced but the channel's consumer is
    /// gone.
    pub send_failed: bool,
    /// The stop flag was observed set.
    pub stop_seen: bool,
    /// Whether the worker continues.
    pub keep_running: bool,
}

/// One iteration of the worker loop: draw a fresh candidate, count the
/// attempt (flushing the shared counter once `batch` local attempts
/// have accumulated), test the candidate, and send a result on a
/// match. The worker stops exactly when the stop flag was seen or the
/// result channel's consumer is gone: a successful delivery alone
/// never ends the loop, and a failed send always does, quietly.
pub fn worker_step(
    counter: &mut WorkerCounter,
    secp: &crate::keygen::SecpContext,
    rng: &mut rand::rngs::ThreadRng,
    m: &MatchSpec,
    total_attempts: &AtomicU64,
    stop: &AtomicBool,
    tx: &crossbeam::channel::Sender<MatchResult>,
) -> (outcome: StepOutcome)
    requires
        old(counter).wf(),
        m.wf(),
    ensures
        final(counter).wf(),
        final(counter).worker_id == old(counter).worker_id,
        final(counter).batch == old(counter).batch,
        final(counter).local_attempts == if old(counter).local_attempts + 1 == old(counter).batch {
            0u64
        } else {
            (old(counter).local_attempts + 1) as u64
        },
        outcome.keep_running == (!outcome.send_failed && !outcome.stop_seen),
        !(outcome.delivered && outcome.send_failed),
{
    let (address, wif) = generate_candidate(secp, rng);
    counter.local_attempts = counter.local_attempts + 1;
    if counter.local_attempts == counter.batch {
        flush_attempts(total_attempts, counter.batch);
        counter.local_attempts = 0;
    }
    let mut delivered = false;
    let mut send_failed = false;
    if let Some(result) = process_candidate(m, address, wif, counter.worker_id) {
        if send_result(tx, result) {
            delivered = true;
        } else {
            send_failed = true;
        }
    }
    let stop_seen = stop_requested(stop);
    StepOutcome { delivered, send_failed, stop_seen, keep_running: !send_failed && !stop_seen }
}

/// Flushes the attempts a worker still holds locally, so that the
/// shared counter is exact once the worker has exited.
pub fn flush_remainder(counter: &mut WorkerCounter, total_attempts: &AtomicU64)
    requires
        old(counter).wf(),
    ensures
        final(counter).wf(),
        final(counter).local_attempts == 0,
        final(counter).worker_id == old(counter).worker_id,
        final(counter).batch == old(counter).batch,
{
    flush_attempts(total_attempts, counter.local_attempts);
    counter.local_attempts = 0;
}

} // verus!
