//! How an IMAP failure is handled, and the back-off between retries.

use vstd::prelude::*;
use crate::imap::error::{auth_failure_code, imap_transient_text, ImapError};
use crate::managesieve::error::opt_view;

verus! {

#[derive(Debug, Clone, Copy, PartialEq, Eq, Structural)]
pub enum Disposition {
    TransportDrop,
    Transient,
    Permanent,
    PerMessageRecoverable,
    PerFolderPermanent,
    FeatureNegotiation,
    AuthFailed,
}

#[derive(Debug, Clone, Copy)]
pub struct RetryPolicy {
    pub max_retries: u32,
}

impl RetryPolicy {
    pub fn new(max_retries: u32) -> (r: RetryPolicy)
        ensures
            r.max_retries == max_retries,
    {
        RetryPolicy { max_retries }
    }
}

pub const SHARED_BASE_MS: u64 = 1_000;
pub const SHARED_CAP_MS: u64 = 30_000;
pub const TRANSPORT_BASE_MS: u64 = 500;
pub const TRANSPORT_CAP_MS: u64 = 30_000;
pub const LEVEL_CAP: u32 = 16;

/// `2^e` for small exponents.
pub open spec fn pow2(e: nat) -> nat
    decreases e,
{
    if e == 0 {
        1
    } else {
        2 * pow2((e - 1) as nat)
    }
}

/// The back-off ceiling after `n` consecutive retries (`n` at least 1):
/// `base * 2^(n-1)`, the exponent capped at 15 and `n` at `LEVEL_CAP`, the
/// result capped at `cap`.
pub open spec fn backoff_ceiling(base: nat, cap: nat, n: nat) -> nat {
    let m = if n > LEVEL_CAP { LEVEL_CAP as nat } else { n };
    let shift = if m == 0 { 0 } else { if m - 1 > 15 { 15 } else { (m - 1) as nat } };
    let scaled = base * pow2(shift);
    if scaled > cap {
        cap
    } else {
        scaled
    }
}

proof fn lemma_pow2_mono(e: nat)
    requires
        e <= 15,
    ensures
        1 <= pow2(e) <= pow2(15),
    decreases 15 - e,
{
    if e < 15 {
        lemma_pow2_mono(e + 1);
    }
    if e > 0 {
        lemma_pow2_positive((e - 1) as nat);
    }
}

proof fn lemma_pow2_positive(e: nat)
    ensures
        1 <= pow2(e),
    decreases e,
{
    if e > 0 {
        lemma_pow2_positive((e - 1) as nat);
    }
}

proof fn lemma_pow2_small(e: nat)
    requires
        e <= 15,
    ensures
        1 <= pow2(e) <= 32768,
{
    lemma_pow2_mono(e);
    reveal_with_fuel(pow2, 16);
    assert(pow2(15) == 32768);
}

/// `2^shift` for `shift <= 15`.
fn shift_factor(shift: u32) -> (r: u64)
    requires
        shift <= 15,
    ensures
        r == pow2(shift as nat),
{
    let mut r: u64 = 1;
    let mut i: u32 = 0;
    while i < shift
        invariant
            i <= shift <= 15,
            r == pow2(i as nat),
        decreases shift - i,
    {
        proof {
            lemma_pow2_small(i as nat);
        }
        r = r * 2;
        i += 1;
    }
    r
}

/// The ceiling `backoff_ceiling(base, cap, n)` in milliseconds.
pub fn ceiling_millis(base: u64, cap: u64, n: u32) -> (r: u64)
    requires
        base <= 1_000_000,
    ensures
        r == backoff_ceiling(base as nat, cap as nat, n as nat),
{
    let m: u32 = if n > LEVEL_CAP { LEVEL_CAP } else { n };
    let shift: u32 = if m == 0 { 0 } else if m - 1 > 15 { 15 } else { m - 1 };
    let f = shift_factor(shift);
    proof {
        lemma_pow2_small(shift as nat);
        assert(base * f <= 1_000_000 * 32768) by (nonlinear_arith)
            requires base <= 1_000_000, f <= 32768;
    }
    let scaled: u64 = base * f;
    if scaled > cap {
        cap
    } else {
        scaled
    }
}

/// A point in `[lo, hi)` picked by `seed` (`lo` itself when the range is empty).
pub open spec fn jitter_pick(lo: nat, hi: nat, seed: nat) -> nat {
    if hi <= lo {
        lo
    } else {
        lo + seed % ((hi - lo) as nat)
    }
}

/// Picks a point of `[lo, hi)` from `seed`.
pub fn jitter_from(lo: u64, hi: u64, seed: u64) -> (r: u64)
    ensures
        r == jitter_pick(lo as nat, hi as nat, seed as nat),
        hi <= lo ==> r == lo,
        hi > lo ==> lo <= r < hi,
{
    if hi <= lo {
        return lo;
    }
    let span = hi - lo;
    lo + (seed % span)
}

/// The sub-second part, in nanoseconds, of the system clock's time since the
/// Unix epoch (0 if the clock reads before the epoch). A clock reading: only its
/// range is stated.
#[verifier::external_body]
fn clock_subsec_nanos() -> (r: u64)
    ensures
        r < 1_000_000_000,
{
    std::time::SystemTime::now()
        .duration_since(std::time::UNIX_EPOCH)
        .map(|d| d.subsec_nanos() as u64)
        .unwrap_or(0)
}

pub open spec fn shared_delay_spec(prev: u32, seed: u64) -> u64 {
    let n = if prev as nat + 1 > u32::MAX { u32::MAX as nat } else { prev as nat + 1 };
    let c = backoff_ceiling(SHARED_BASE_MS as nat, SHARED_CAP_MS as nat, n);
    jitter_pick(c / 2, c, seed as nat) as u64
}

pub open spec fn transport_delay_spec(attempt: u32, seed: u64) -> u64 {
    jitter_pick(0, backoff_ceiling(TRANSPORT_BASE_MS as nat, TRANSPORT_CAP_MS as nat, attempt as nat), seed as nat) as u64
}

/// The delay before the retry after `prev` consecutive throttles, with the
/// jitter taken from `seed`: a point of `[ceiling / 2, ceiling)`, the ceiling
/// starting at one second and doubling up to thirty.
pub fn shared_delay_millis(prev: u32, seed: u64) -> (r: u64)
    ensures
        r == shared_delay_spec(prev, seed),
        r <= SHARED_CAP_MS,
{
    let n: u32 = prev.saturating_add(1);
    let scaled = ceiling_millis(SHARED_BASE_MS, SHARED_CAP_MS, n);
    let half = scaled / 2;
    jitter_from(half, scaled, seed)
}

/// The delay before reconnect attempt `attempt`, with the jitter taken from
/// `seed`: a point of `[0, ceiling)`, the ceiling starting at half a second
/// and doubling up to thirty.
pub fn transport_delay_millis(attempt: u32, seed: u64) -> (r: u64)
    ensures
        r == transport_delay_spec(attempt, seed),
        r <= TRANSPORT_CAP_MS,
{
    let scaled = ceiling_millis(TRANSPORT_BASE_MS, TRANSPORT_CAP_MS, attempt);
    jitter_from(0, scaled, seed)
}

struct BackoffInner {
    level: std::sync::atomic::AtomicU32,
    transient_retries: std::sync::atomic::AtomicU32,
    transport_retries: std::sync::atomic::AtomicU32,
}

/// Back-off state shared by every connection of one account: clones share it.
/// The counters are atomics that other threads may move at any time, so
/// nothing is stated of what a read returns.
#[derive(Clone)]
pub struct BackoffState {
    inner: std::sync::Arc<BackoffInner>,
}

impl BackoffState {
    pub fn new() -> BackoffState {
        BackoffState {
            inner: std::sync::Arc::new(
                BackoffInner {
                    level: std::sync::atomic::AtomicU32::new(0),
                    transient_retries: std::sync::atomic::AtomicU32::new(0),
                    transport_retries: std::sync::atomic::AtomicU32::new(0),
                },
            ),
        }
    }

    pub fn reset(&self) {
        self.inner.level.store(0, std::sync::atomic::Ordering::Relaxed);
    }

    pub fn current_level(&self) -> u32 {
        self.inner.level.load(std::sync::atomic::Ordering::Relaxed)
    }

    pub fn transient_retries(&self) -> u32 {
        self.inner.transient_retries.load(std::sync::atomic::Ordering::Relaxed)
    }

    pub fn transport_retries(&self) -> u32 {
        self.inner.transport_retries.load(std::sync::atomic::Ordering::Relaxed)
    }

    pub fn total_retries(&self) -> (r: u64)
        ensures
            r <= 2 * (u32::MAX as int),
    {
        let a = self.transient_retries();
        let b = self.transport_retries();
        a as u64 + b as u64
    }

    /// Raises the shared level and returns the delay before the next retry:
    /// the jittered back-off for the level it found, never above
    /// `SHARED_CAP_MS` milliseconds.
    pub fn next_shared_delay(&self) -> (r: std::time::Duration)
        ensures
            exists|prev: u32, seed: u64| r == crate::time::millis_duration(#[trigger] shared_delay_spec(prev, seed)),
    {
        let prev = self.inner.level.fetch_add(1, std::sync::atomic::Ordering::Relaxed);
        self.inner.transient_retries.fetch_add(1, std::sync::atomic::Ordering::Relaxed);
        let nanos = clock_subsec_nanos();
        let ms = shared_delay_millis(prev, nanos);
        crate::time::duration_from_millis(ms)
    }

    /// The delay before reconnect attempt `attempt`; the shared level is not
    /// touched.
    pub fn transport_delay(&self, attempt: u32) -> (r: std::time::Duration)
        ensures
            exists|seed: u64| r == crate::time::millis_duration(#[trigger] transport_delay_spec(attempt, seed)),
    {
        self.inner.transport_retries.fetch_add(1, std::sync::atomic::Ordering::Relaxed);
        let nanos = clock_subsec_nanos();
        let ms = transport_delay_millis(attempt, nanos);
        crate::time::duration_from_millis(ms)
    }
}

pub open spec fn spec_classify(err: &ImapError) -> Disposition {
    match err {
        ImapError::Io(_) => Disposition::TransportDrop,
        ImapError::Tls(_) => Disposition::Permanent,
        ImapError::Disconnected => Disposition::TransportDrop,
        ImapError::Bye(_) => Disposition::TransportDrop,
        ImapError::AuthFailed(_) => Disposition::AuthFailed,
        ImapError::Bad(_) => Disposition::FeatureNegotiation,
        ImapError::No(no) => if auth_failure_code(opt_view(no.code)) {
            Disposition::AuthFailed
        } else if imap_transient_text(no.text@) {
            Disposition::Transient
        } else {
            Disposition::Permanent
        },
        ImapError::Protocol(_) => Disposition::TransportDrop,
        ImapError::Parse(_) => Disposition::Permanent,
        ImapError::Unsupported(_) => Disposition::Permanent,
    }
}

/// A failure that shows the server lacks what was asked: `BAD`, a `NO` that
/// is not transient, or an explicit lack of support.
pub fn is_negotiation_failure(err: &ImapError) -> (r: bool)
    ensures
        r == match err {
            ImapError::Bad(_) => true,
            ImapError::No(no) => !imap_transient_text(no.text@),
            ImapError::Unsupported(_) => true,
            _ => false,
        },
{
    match err {
        ImapError::Bad(_) => true,
        ImapError::No(no) => !no.is_transient(),
        ImapError::Unsupported(_) => true,
        _ => false,
    }
}

pub fn classify(err: &ImapError) -> (r: Disposition)
    ensures
        r == spec_classify(err),
{
    match err {
        ImapError::Io(_) => Disposition::TransportDrop,
        ImapError::Tls(_) => Disposition::Permanent,
        ImapError::Disconnected => Disposition::TransportDrop,
        ImapError::Bye(_) => Disposition::TransportDrop,
        ImapError::AuthFailed(_) => Disposition::AuthFailed,
        ImapError::Bad(_) => Disposition::FeatureNegotiation,
        ImapError::No(no) => {
            if no.is_auth_failed() {
                Disposition::AuthFailed
            } else if no.is_transient() {
                Disposition::Transient
            } else {
                Disposition::Permanent
            }
        },
        ImapError::Protocol(_) => Disposition::TransportDrop,
        ImapError::Parse(_) => Disposition::Permanent,
        ImapError::Unsupported(_) => Disposition::Permanent,
    }
}

/// A failure while syncing one folder: what would be permanent skips the folder.
pub fn folder_disposition(err: &ImapError) -> (r: Disposition)
    ensures
        r == (match spec_classify(err) {
            Disposition::Permanent | Disposition::FeatureNegotiation => Disposition::PerFolderPermanent,
            other => other,
        }),
{
    let base = classify(err);
    if matches!(base, Disposition::Permanent | Disposition::FeatureNegotiation) {
        Disposition::PerFolderPermanent
    } else {
        base
    }
}

/// A failure on one message: what would be permanent skips the message.
pub fn message_disposition(err: &ImapError) -> (r: Disposition)
    ensures
        r == (match spec_classify(err) {
            Disposition::Permanent | Disposition::FeatureNegotiation => Disposition::PerMessageRecoverable,
            other => other,
        }),
{
    let base = classify(err);
    if matches!(base, Disposition::Permanent | Disposition::FeatureNegotiation) {
        Disposition::PerMessageRecoverable
    } else {
        base
    }
}

} // verus!
