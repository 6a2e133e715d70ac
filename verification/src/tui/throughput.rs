//! Live and final model-output throughput for the status line.
//!
//! Time is measured in nanoseconds on a monotonic clock and output in UTF-8
//! bytes; four bytes count as one estimated token. A live estimate is the
//! output of the last five seconds over the time it took (at most five
//! seconds); it is shown once half a second has passed since the first output
//! and at least four tokens arrived, and drops to zero when output stalls for
//! five seconds. A final measurement from the server replaces the estimate.

use vstd::prelude::*;

verus! {

/// Output is grouped in buckets of this length.
pub const BUCKET_NANOS: u64 = 250_000_000;

/// Output older than this no longer counts, and a stall this long shows zero.
pub const WINDOW_NANOS: u64 = 5_000_000_000;

/// No estimate is shown before this much time has passed since the first output.
pub const MINIMUM_SAMPLE_NANOS: u64 = 500_000_000;

/// No estimate is shown for less output than this (four estimated tokens).
pub const MINIMUM_ESTIMATED_BYTES: u64 = 16;

/// What the status line shows.
#[derive(Clone, Copy, Debug, PartialEq, Eq, Structural)]
pub enum ThroughputDisplay {
    Waiting,
    /// About `bytes / 4` tokens over `window_nanos` nanoseconds; zero when the window is 0.
    Approximate { bytes: u64, window_nanos: u64 },
    /// The server's measurement in tokens per second, as the bits of an `f64`.
    Exact { tokens_per_second_bits: u64 },
}

/// Whether two displays show the same thing: estimates compare by their rate.
pub open spec fn same_display(a: Option<ThroughputDisplay>, b: Option<ThroughputDisplay>) -> bool {
    match (a, b) {
        (
            Some(ThroughputDisplay::Approximate { bytes: b1, window_nanos: w1 }),
            Some(ThroughputDisplay::Approximate { bytes: b2, window_nanos: w2 }),
        ) => if w1 == 0 || w2 == 0 {
            (w1 == 0 || b1 == 0) && (w2 == 0 || b2 == 0)
        } else {
            b1 * w2 == b2 * w1
        },
        _ => a == b,
    }
}

/// Output of one bucket.
#[derive(Clone, Copy, Debug, PartialEq, Eq, Structural)]
pub struct Bucket {
    pub started_at: u64,
    pub bytes: u64,
}

/// Tracks the live estimate while a sampling response is active, then keeps
/// the server's final measurement when it arrives.
#[derive(Debug)]
pub struct ThroughputTracker {
    pub sampling_started_at: Option<u64>,
    pub first_delta_at: Option<u64>,
    pub last_delta_at: Option<u64>,
    pub buckets: Vec<Bucket>,
    pub display: Option<ThroughputDisplay>,
}

/// `a - b`, or 0 when `b` is later.
pub open spec fn since(a: u64, b: u64) -> nat {
    if a >= b {
        (a - b) as nat
    } else {
        0
    }
}

/// The buckets without the leading ones that left the window.
pub open spec fn evicted(buckets: Seq<Bucket>, now: u64) -> Seq<Bucket>
    decreases buckets.len(),
{
    if buckets.len() > 0 && since(now, buckets[0].started_at) >= WINDOW_NANOS {
        evicted(buckets.drop_first(), now)
    } else {
        buckets
    }
}

/// The output in the buckets.
pub open spec fn total_bytes(buckets: Seq<Bucket>) -> nat
    decreases buckets.len(),
{
    if buckets.len() == 0 {
        0
    } else {
        total_bytes(buckets.drop_last()) + buckets.last().bytes as nat
    }
}

/// What a refresh shows, given the buckets left in the window.
pub open spec fn live_display(
    first: Option<u64>,
    last: Option<u64>,
    buckets: Seq<Bucket>,
    now: u64,
) -> ThroughputDisplay {
    match first {
        None => ThroughputDisplay::Waiting,
        Some(f) => if last matches Some(l) && since(now, l) >= WINDOW_NANOS {
            ThroughputDisplay::Approximate { bytes: 0, window_nanos: 0 }
        } else if since(now, f) < MINIMUM_SAMPLE_NANOS || total_bytes(buckets)
            < MINIMUM_ESTIMATED_BYTES {
            ThroughputDisplay::Waiting
        } else {
            ThroughputDisplay::Approximate {
                bytes: if total_bytes(buckets) > u64::MAX {
                    u64::MAX
                } else {
                    total_bytes(buckets) as u64
                },
                window_nanos: if since(now, f) < WINDOW_NANOS {
                    since(now, f) as u64
                } else {
                    WINDOW_NANOS
                },
            }
        },
    }
}

/// The start of the bucket that output at `now` falls in.
pub open spec fn bucket_start(first: u64, now: u64) -> nat {
    (first + since(now, first) / (BUCKET_NANOS as nat) * (BUCKET_NANOS as nat)) as nat
}

/// The buckets with `bytes` more output in the bucket starting at `start`:
/// added to the last bucket when it starts there, else in a new bucket.
pub open spec fn with_output(buckets: Seq<Bucket>, start: nat, bytes: nat) -> Seq<Bucket> {
    if buckets.len() > 0 && buckets.last().started_at == start {
        buckets.update(
            buckets.len() - 1,
            Bucket {
                started_at: start as u64,
                bytes: if buckets.last().bytes + bytes > u64::MAX {
                    u64::MAX
                } else {
                    (buckets.last().bytes + bytes) as u64
                },
            },
        )
    } else {
        buckets.push(Bucket { started_at: start as u64, bytes: bytes as u64 })
    }
}

/// Whether a refresh changes anything: only while sampling, and never once
/// the exact measurement is in.
pub open spec fn refreshes(sampling: Option<u64>, display: Option<ThroughputDisplay>) -> bool {
    sampling is Some && !(display matches Some(ThroughputDisplay::Exact { .. }))
}

impl ThroughputTracker {
    /// Nothing tracked.
    pub fn new() -> (t: ThroughputTracker)
        ensures
            t.sampling_started_at is None,
            t.first_delta_at is None,
            t.last_delta_at is None,
            t.buckets@.len() == 0,
            t.display is None,
    {
        ThroughputTracker {
            sampling_started_at: None,
            first_delta_at: None,
            last_delta_at: None,
            buckets: Vec::new(),
            display: None,
        }
    }

    /// Forgets everything.
    pub fn reset(&mut self)
        ensures
            final(self).sampling_started_at is None,
            final(self).first_delta_at is None,
            final(self).last_delta_at is None,
            final(self).buckets@.len() == 0,
            final(self).display is None,
    {
        self.sampling_started_at = None;
        self.first_delta_at = None;
        self.last_delta_at = None;
        self.buckets = Vec::new();
        self.display = None;
    }

    /// Starts sampling a response, unless one is being sampled.
    pub fn begin_sampling(&mut self, now: u64)
        ensures
            old(self).sampling_started_at is Some ==> final(self).sampling_started_at
                == old(self).sampling_started_at && final(self).first_delta_at
                == old(self).first_delta_at && final(self).last_delta_at == old(self).last_delta_at
                && final(self).buckets@ == old(self).buckets@ && final(self).display
                == old(self).display,
            old(self).sampling_started_at is None ==> final(self).sampling_started_at == Some(now)
                && final(self).first_delta_at is None && final(self).last_delta_at is None
                && final(self).buckets@.len() == 0 && final(self).display == Some(
                ThroughputDisplay::Waiting,
            ),
    {
        if self.sampling_started_at.is_some() {
            return;
        }
        self.sampling_started_at = Some(now);
        self.first_delta_at = None;
        self.last_delta_at = None;
        self.buckets = Vec::new();
        self.display = Some(ThroughputDisplay::Waiting);
    }

    fn evict_expired_buckets(&mut self, now: u64)
        ensures
            final(self).buckets@ == evicted(old(self).buckets@, now),
            final(self).sampling_started_at == old(self).sampling_started_at,
            final(self).first_delta_at == old(self).first_delta_at,
            final(self).last_delta_at == old(self).last_delta_at,
            final(self).display == old(self).display,
    {
        let mut skip: usize = 0;
        let n = self.buckets.len();
        assert(self.buckets@.subrange(0, n as int) =~= self.buckets@);
        while skip < n && (now >= self.buckets[skip].started_at && now - self.buckets[skip].started_at
            >= WINDOW_NANOS)
            invariant
                n == self.buckets@.len(),
                skip <= n,
                evicted(self.buckets@, now) == evicted(
                    self.buckets@.subrange(skip as int, n as int),
                    now,
                ),
            decreases n - skip,
        {
            proof {
                let rest = self.buckets@.subrange(skip as int, n as int);
                assert(rest.drop_first() =~= self.buckets@.subrange(skip + 1, n as int));
                assert(rest[0] == self.buckets@[skip as int]);
            }
            skip = skip + 1;
        }
        proof {
            assert(self.buckets@.subrange(0, n as int) =~= self.buckets@);
        }
        let ghost whole = self.buckets@;
        let mut kept: Vec<Bucket> = Vec::new();
        let mut i = skip;
        while i < n
            invariant
                n == whole.len(),
                skip <= i <= n,
                kept@ == whole.subrange(skip as int, i as int),
                whole == self.buckets@,
            decreases n - i,
        {
            kept.push(self.buckets[i]);
            i = i + 1;
            assert(kept@ =~= whole.subrange(skip as int, i as int));
        }
        proof {
            let rest = whole.subrange(skip as int, n as int);
            assert(rest.len() == 0 || since(now, rest[0].started_at) < WINDOW_NANOS);
        }
        self.buckets = kept;
    }

    fn bucket_total(&self) -> (total: u128)
        ensures
            total == total_bytes(self.buckets@),
    {
        let mut total: u128 = 0;
        let mut i: usize = 0;
        while i < self.buckets.len()
            invariant
                i <= self.buckets@.len(),
                total == total_bytes(self.buckets@.subrange(0, i as int)),
                total <= i * 18446744073709551615u128,
            decreases self.buckets@.len() - i,
        {
            proof {
                let sub = self.buckets@.subrange(0, i + 1);
                assert(sub.drop_last() =~= self.buckets@.subrange(0, i as int));
                assert(sub.last() == self.buckets@[i as int]);
            }
            assert(total + self.buckets@[i as int].bytes <= (i + 1) * 18446744073709551615u128) by (nonlinear_arith)
                requires
                    total <= i * 18446744073709551615u128,
                    self.buckets@[i as int].bytes <= 18446744073709551615u64,
            ;
            total = total + self.buckets[i].bytes as u128;
            i = i + 1;
        }
        assert(self.buckets@.subrange(0, self.buckets@.len() as int) =~= self.buckets@);
        total
    }

    /// Brings the live estimate up to `now`.
    pub fn refresh_live_display(&mut self, now: u64)
        ensures
            !refreshes(old(self).sampling_started_at, old(self).display) ==> {
                &&& final(self).buckets@ == old(self).buckets@
                &&& final(self).display == old(self).display
            },
            refreshes(old(self).sampling_started_at, old(self).display) ==> {
                &&& final(self).buckets@ == evicted(old(self).buckets@, now)
                &&& final(self).display == Some(
                    live_display(
                        old(self).first_delta_at,
                        old(self).last_delta_at,
                        evicted(old(self).buckets@, now),
                        now,
                    ),
                )
            },
            final(self).sampling_started_at == old(self).sampling_started_at,
            final(self).first_delta_at == old(self).first_delta_at,
            final(self).last_delta_at == old(self).last_delta_at,
    {
        if self.sampling_started_at.is_none() {
            return;
        }
        match self.display {
            Some(ThroughputDisplay::Exact { .. }) => {
                return;
            },
            _ => {},
        }
        self.evict_expired_buckets(now);
        let first = match self.first_delta_at {
            None => {
                self.display = Some(ThroughputDisplay::Waiting);
                return;
            },
            Some(f) => f,
        };
        match self.last_delta_at {
            Some(last) => {
                if now >= last && now - last >= WINDOW_NANOS {
                    self.display = Some(
                        ThroughputDisplay::Approximate { bytes: 0, window_nanos: 0 },
                    );
                    return;
                }
            },
            None => {},
        }
        let elapsed: u64 = if now >= first {
            now - first
        } else {
            0
        };
        let total = self.bucket_total();
        if elapsed < MINIMUM_SAMPLE_NANOS || total < MINIMUM_ESTIMATED_BYTES as u128 {
            self.display = Some(ThroughputDisplay::Waiting);
            return;
        }
        let bytes: u64 = if total > u64::MAX as u128 {
            u64::MAX
        } else {
            total as u64
        };
        let window: u64 = if elapsed < WINDOW_NANOS {
            elapsed
        } else {
            WINDOW_NANOS
        };
        self.display = Some(ThroughputDisplay::Approximate { bytes, window_nanos: window });
    }

    /// Records `byte_count` bytes of output that arrived at `now`, while sampling.
    pub fn record_utf8_bytes(&mut self, byte_count: usize, now: u64)
        ensures
            old(self).sampling_started_at is None || byte_count == 0 ==> {
                &&& final(self).sampling_started_at == old(self).sampling_started_at
                &&& final(self).first_delta_at == old(self).first_delta_at
                &&& final(self).last_delta_at == old(self).last_delta_at
                &&& final(self).buckets@ == old(self).buckets@
                &&& final(self).display == old(self).display
            },
            old(self).sampling_started_at is Some && byte_count > 0 ==> {
                let first = match old(self).first_delta_at {
                    Some(f) => f,
                    None => now,
                };
                &&& final(self).sampling_started_at == old(self).sampling_started_at
                &&& final(self).first_delta_at == Some(first)
                &&& final(self).last_delta_at == Some(now)
                &&& final(self).buckets@ == if refreshes(
                    old(self).sampling_started_at,
                    old(self).display,
                ) {
                    evicted(with_output(old(self).buckets@, bucket_start(first, now), byte_count as nat), now)
                } else {
                    with_output(old(self).buckets@, bucket_start(first, now), byte_count as nat)
                }
                &&& final(self).display == if refreshes(
                    old(self).sampling_started_at,
                    old(self).display,
                ) {
                    Some(live_display(Some(first), Some(now), final(self).buckets@, now))
                } else {
                    old(self).display
                }
            },
    {
        if self.sampling_started_at.is_none() || byte_count == 0 {
            return;
        }
        let first = match self.first_delta_at {
            Some(f) => f,
            None => now,
        };
        self.first_delta_at = Some(first);
        let elapsed: u64 = if now >= first {
            now - first
        } else {
            0
        };
        let offset: u64 = elapsed / BUCKET_NANOS * BUCKET_NANOS;
        assert(offset <= elapsed) by (nonlinear_arith)
            requires
                offset == elapsed / BUCKET_NANOS * BUCKET_NANOS,
                BUCKET_NANOS > 0,
        ;
        let started_at: u64 = first + offset;
        assert(started_at == bucket_start(first, now));
        let ghost old_buckets = self.buckets@;
        let count = self.buckets.len();
        let appended = if count > 0 && self.buckets[count - 1].started_at == started_at {
            let last = self.buckets[count - 1];
            let sum: u64 = if last.bytes > u64::MAX - byte_count as u64 {
                u64::MAX
            } else {
                last.bytes + byte_count as u64
            };
            self.buckets.set(count - 1, Bucket { started_at, bytes: sum });
            false
        } else {
            self.buckets.push(Bucket { started_at, bytes: byte_count as u64 });
            true
        };
        assert(self.buckets@ =~= with_output(old_buckets, bucket_start(first, now), byte_count as nat));
        self.last_delta_at = Some(now);
        self.refresh_live_display(now);
    }

    /// The display at `now`.
    pub fn display(&mut self, now: u64) -> (d: Option<ThroughputDisplay>)
        ensures
            d == final(self).display,
            !refreshes(old(self).sampling_started_at, old(self).display) ==> d == old(self).display
                && final(self).buckets@ == old(self).buckets@,
            refreshes(old(self).sampling_started_at, old(self).display) ==> final(self).buckets@
                == evicted(old(self).buckets@, now),
            final(self).sampling_started_at == old(self).sampling_started_at,
            final(self).first_delta_at == old(self).first_delta_at,
            final(self).last_delta_at == old(self).last_delta_at,
            refreshes(old(self).sampling_started_at, old(self).display) ==> d == Some(
                live_display(
                    old(self).first_delta_at,
                    old(self).last_delta_at,
                    evicted(old(self).buckets@, now),
                    now,
                ),
            ),
    {
        self.refresh_live_display(now);
        self.display
    }

    /// Brings the display up to `now` and tells whether it changed.
    pub fn advance(&mut self, now: u64) -> (changed: bool)
        ensures
            changed == !same_display(old(self).display, final(self).display),
            !refreshes(old(self).sampling_started_at, old(self).display) ==> {
                &&& final(self).buckets@ == old(self).buckets@
                &&& final(self).display == old(self).display
            },
            refreshes(old(self).sampling_started_at, old(self).display) ==> {
                &&& final(self).buckets@ == evicted(old(self).buckets@, now)
                &&& final(self).display == Some(
                    live_display(
                        old(self).first_delta_at,
                        old(self).last_delta_at,
                        evicted(old(self).buckets@, now),
                        now,
                    ),
                )
            },
            final(self).sampling_started_at == old(self).sampling_started_at,
            final(self).first_delta_at == old(self).first_delta_at,
            final(self).last_delta_at == old(self).last_delta_at,
    {
        let before = self.display;
        self.refresh_live_display(now);
        !same_display_exec(before, self.display)
    }

    /// Ends sampling with the server's measurement, or freezes the live
    /// estimate when there is none.
    pub fn finish_sampling(&mut self, tokens_per_second_bits: Option<u64>, now: u64)
        ensures
            final(self).sampling_started_at is None,
            tokens_per_second_bits matches Some(bits) ==> final(self).display == Some(
                ThroughputDisplay::Exact { tokens_per_second_bits: bits },
            ),
            tokens_per_second_bits is None ==> final(self).display == if refreshes(
                old(self).sampling_started_at,
                old(self).display,
            ) {
                Some(
                    live_display(
                        old(self).first_delta_at,
                        old(self).last_delta_at,
                        evicted(old(self).buckets@, now),
                        now,
                    ),
                )
            } else {
                old(self).display
            },
            final(self).first_delta_at == old(self).first_delta_at,
            final(self).last_delta_at == old(self).last_delta_at,
    {
        match tokens_per_second_bits {
            Some(bits) => {
                self.display = Some(ThroughputDisplay::Exact { tokens_per_second_bits: bits });
            },
            None => {
                self.refresh_live_display(now);
            },
        }
        self.sampling_started_at = None;
    }

    /// Freezes the live estimate, as when a turn is aborted.
    pub fn freeze(&mut self, now: u64)
        ensures
            final(self).sampling_started_at is None,
            refreshes(old(self).sampling_started_at, old(self).display) ==> final(self).display
                == Some(
                live_display(
                    old(self).first_delta_at,
                    old(self).last_delta_at,
                    evicted(old(self).buckets@, now),
                    now,
                ),
            ),
            !refreshes(old(self).sampling_started_at, old(self).display) ==> final(self).display
                == old(self).display,
            final(self).first_delta_at == old(self).first_delta_at,
            final(self).last_delta_at == old(self).last_delta_at,
    {
        self.refresh_live_display(now);
        self.sampling_started_at = None;
    }

    /// When the display may next change without new output: half a second
    /// after the first output and five seconds after the last, whichever is
    /// still ahead and sooner.
    pub fn next_update_after(&self, now: u64) -> (r: Option<u128>)
        ensures
            match (self.sampling_started_at, self.first_delta_at, self.last_delta_at) {
                (Some(_), Some(f), Some(l)) => {
                    let threshold = f + MINIMUM_SAMPLE_NANOS;
                    let stall = l + WINDOW_NANOS;
                    r == if threshold > now && stall > now {
                        Some(
                            (if threshold < stall {
                                threshold
                            } else {
                                stall
                            }) as u128,
                        )
                    } else if threshold > now {
                        Some(threshold as u128)
                    } else if stall > now {
                        Some(stall as u128)
                    } else {
                        None
                    }
                },
                _ => r is None,
            },
    {
        if self.sampling_started_at.is_none() {
            return None;
        }
        let first = match self.first_delta_at {
            Some(f) => f,
            None => {
                return None;
            },
        };
        let last = match self.last_delta_at {
            Some(l) => l,
            None => {
                return None;
            },
        };
        let threshold: u128 = first as u128 + MINIMUM_SAMPLE_NANOS as u128;
        let stall: u128 = last as u128 + WINDOW_NANOS as u128;
        let now = now as u128;
        if threshold > now && stall > now {
            Some(
                if threshold < stall {
                    threshold
                } else {
                    stall
                },
            )
        } else if threshold > now {
            Some(threshold)
        } else if stall > now {
            Some(stall)
        } else {
            None
        }
    }
}

fn same_display_exec(a: Option<ThroughputDisplay>, b: Option<ThroughputDisplay>) -> (r: bool)
    ensures
        r == same_display(a, b),
{
    match (a, b) {
        (
            Some(ThroughputDisplay::Approximate { bytes: b1, window_nanos: w1 }),
            Some(ThroughputDisplay::Approximate { bytes: b2, window_nanos: w2 }),
        ) => {
            if w1 == 0 || w2 == 0 {
                (w1 == 0 || b1 == 0) && (w2 == 0 || b2 == 0)
            } else {
                assert((b1 as u128) * (w2 as u128) <= u64::MAX * u64::MAX) by (nonlinear_arith)
                    requires
                        b1 <= u64::MAX,
                        w2 <= u64::MAX,
                ;
                assert((b2 as u128) * (w1 as u128) <= u64::MAX * u64::MAX) by (nonlinear_arith)
                    requires
                        b2 <= u64::MAX,
                        w1 <= u64::MAX,
                ;
                (b1 as u128) * (w2 as u128) == (b2 as u128) * (w1 as u128)
            }
        },
        _ => a == b,
    }
}

/// The exact measurement, once in, stays until a new sample begins or the
/// tracker is reset: refreshing never replaces it.
pub proof fn lemma_exact_is_final(
    sampling: Option<u64>,
    display: Option<ThroughputDisplay>,
)
    requires
        display matches Some(ThroughputDisplay::Exact { .. }),
    ensures
        !refreshes(sampling, display),
{
}

/// Every bucket left after eviction is inside the window.
pub proof fn lemma_evicted_front_in_window(buckets: Seq<Bucket>, now: u64)
    ensures
        evicted(buckets, now).len() > 0 ==> since(now, evicted(buckets, now)[0].started_at)
            < WINDOW_NANOS,
        evicted(buckets, now).len() <= buckets.len(),
    decreases buckets.len(),
{
    if buckets.len() > 0 && since(now, buckets[0].started_at) >= WINDOW_NANOS {
        lemma_evicted_front_in_window(buckets.drop_first(), now);
    }
}

/// No estimate is shown before four tokens have arrived in the window.
pub proof fn lemma_no_estimate_from_little_output(
    first: Option<u64>,
    last: Option<u64>,
    buckets: Seq<Bucket>,
    now: u64,
)
    requires
        total_bytes(buckets) < MINIMUM_ESTIMATED_BYTES,
        !(last matches Some(l) && since(now, l) >= WINDOW_NANOS),
    ensures
        live_display(first, last, buckets, now) == ThroughputDisplay::Waiting,
{
}

} // verus!
