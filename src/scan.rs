use vstd::prelude::*;
use crate::record::{ArtifactRecord, passes, same_item};

verus! {

/// The operator's settings for one scan session.
#[derive(Clone, Copy, Debug, PartialEq, Eq, Structural)]
pub struct ScanConfig {
    /// At most this many rows of the list are scanned.
    pub max_row: u32,
    pub min_star: u32,
    pub min_level: u32,
    /// Longest wait for the UI to settle after a selection, in milliseconds.
    pub max_wait_switch_ms: u64,
    /// The same bound for a streamed (cloud) session.
    pub cloud_wait_switch_ms: u64,
    /// Pause after each scroll step, in milliseconds.
    pub scroll_stop_ms: u64,
    /// Number of items the operator gives; 0 when the counter on screen is to be trusted.
    pub number: u32,
    pub dump: bool,
    pub capture_only: bool,
}

/// Where a session stands within the current slot.
#[derive(Clone, Copy, Debug, PartialEq, Eq, Structural)]
pub enum Phase {
    SelectSlot,
    WaitForRender,
    CaptureFields,
    RecognizeFields,
    Done,
}

/// What the driver does next to the UI.
#[derive(Clone, Copy, Debug, PartialEq, Eq, Structural)]
pub enum SlotAction {
    /// Scroll one page first when `scroll` is set, then click the slot at `column`, `row` of the page.
    Select { column: u32, row: u32, scroll: bool },
    Finish,
}

/// The verdict on one polled frame while waiting for the UI to settle.
#[derive(Clone, Copy, Debug, PartialEq, Eq, Structural)]
pub enum WaitDecision {
    Poll,
    Proceed { timed_out: bool },
}

/// What became of a recognized record.
#[derive(Clone, Copy, Debug, PartialEq, Eq, Structural)]
pub enum SlotOutcome {
    Kept,
    Filtered,
    Repeated,
}

/// The number of slots a session visits at most: the operator's count when given, else the
/// detected one, and never more than `max_row` full rows; none on a page without slots.
pub open spec fn session_total(config: ScanConfig, columns: u32, rows: u32, detected: u32) -> nat {
    let t: nat = if config.number > 0 {
        config.number as nat
    } else {
        detected as nat
    };
    let cap: nat = if rows == 0 {
        0
    } else {
        config.max_row as nat * columns as nat
    };
    if t < cap {
        t
    } else {
        cap
    }
}

/// Whether the wait for the UI ends on a polled frame: the fingerprint moved away from the
/// previous slot's, or the bound has passed.
pub open spec fn wait_proceeds(last: Option<u64>, fingerprint: u64, waited_ms: int, bound: int) -> bool {
    last != Some(fingerprint) || waited_ms >= bound
}

/// The state of one scan session.
pub struct ScanSession {
    pub config: ScanConfig,
    pub is_cloud: bool,
    pub columns: u32,
    pub rows: u32,
    pub total: u32,
    pub scanned: u32,
    pub phase: Phase,
    pub results: Vec<ArtifactRecord>,
    pub first: Option<ArtifactRecord>,
    pub last_fingerprint: Option<u64>,
}

impl ScanSession {
    /// The session's invariant: it never scans past its total, the first record is known
    /// once a slot was scanned, and every kept record passed the filters.
    pub open spec fn wf(&self) -> bool {
        &&& self.total > 0 ==> self.columns > 0 && self.rows > 0
        &&& self.scanned <= self.total
        &&& (self.phase == Phase::WaitForRender || self.phase == Phase::CaptureFields || self.phase
            == Phase::RecognizeFields) ==> self.scanned < self.total
        &&& (self.scanned > 0 <==> self.first is Some)
        &&& self.results@.len() <= self.scanned
        &&& forall|i: int| 0 <= i < self.results@.len()
            ==> passes(#[trigger] self.results@[i], self.config.min_star, self.config.min_level)
    }

    /// The bound on the wait for the UI to settle.
    pub open spec fn wait_bound(&self) -> u64 {
        if self.is_cloud {
            self.config.cloud_wait_switch_ms
        } else {
            self.config.max_wait_switch_ms
        }
    }

    /// A fresh session over a list of `columns` by `rows` slots per page.
    pub fn new(config: ScanConfig, is_cloud: bool, columns: u32, rows: u32, detected_total: u32) -> (s: ScanSession)
        ensures
            s.wf(),
            s.config == config,
            s.is_cloud == is_cloud,
            s.columns == columns,
            s.rows == rows,
            s.total == session_total(config, columns, rows, detected_total),
            s.scanned == 0,
            s.phase == Phase::SelectSlot,
            s.results@.len() == 0,
            s.first is None,
            s.last_fingerprint is None,
    {
        let t: u64 = if config.number > 0 {
            config.number as u64
        } else {
            detected_total as u64
        };
        proof {
            vstd::arithmetic::mul::lemma_mul_upper_bound(config.max_row as int, 0xffff_ffff, columns as int, 0xffff_ffff);
        }
        let cap: u64 = if rows == 0 {
            0
        } else {
            config.max_row as u64 * columns as u64
        };
        let total: u32 = if t < cap {
            t as u32
        } else {
            cap as u32
        };
        ScanSession {
            config,
            is_cloud,
            columns,
            rows,
            total,
            scanned: 0,
            phase: Phase::SelectSlot,
            results: Vec::new(),
            first: None,
            last_fingerprint: None,
        }
    }

    /// Decides the next slot: finish once the total is reached, else select the slot that
    /// follows the scanned ones, scrolling one page first when a page is used up.
    pub fn select_slot(&mut self) -> (a: SlotAction)
        requires
            old(self).wf(),
            old(self).phase == Phase::SelectSlot,
        ensures
            final(self).wf(),
            old(self).scanned >= old(self).total ==> a == SlotAction::Finish && *final(self)
                == (ScanSession { phase: Phase::Done, ..*old(self) }),
            old(self).scanned < old(self).total ==> {
                let page = old(self).columns as int * old(self).rows as int;
                let k = old(self).scanned as int % page;
                &&& a == (SlotAction::Select {
                    column: (k % old(self).columns as int) as u32,
                    row: (k / old(self).columns as int) as u32,
                    scroll: old(self).scanned > 0 && k == 0,
                })
                &&& *final(self) == (ScanSession { phase: Phase::WaitForRender, ..*old(self) })
            },
    {
        if self.scanned >= self.total {
            self.phase = Phase::Done;
            return SlotAction::Finish;
        }
        proof {
            vstd::arithmetic::mul::lemma_mul_upper_bound(self.columns as int, 0xffff_ffff, self.rows as int, 0xffff_ffff);
        }
        let page: u64 = self.columns as u64 * self.rows as u64;
        proof {
            assert(self.columns as u64 * self.rows as u64 > 0) by (nonlinear_arith)
                requires
                    self.columns > 0,
                    self.rows > 0,
            ;
        }
        let k: u64 = self.scanned as u64 % page;
        let column = (k % self.columns as u64) as u32;
        proof {
            vstd::arithmetic::div_mod::lemma_mod_decreases(self.scanned as nat, page as nat);
            vstd::arithmetic::div_mod::lemma_div_is_ordered_by_denominator(k as int, 1, self.columns as int);
        }
        let row = (k / self.columns as u64) as u32;
        self.phase = Phase::WaitForRender;
        SlotAction::Select { column, row, scroll: self.scanned > 0 && k == 0 }
    }

    /// Judges one polled frame, `waited_ms` after the selection: proceed to capture when
    /// the fingerprint differs from the previous slot's or the wait bound has passed,
    /// else poll again. A timeout is no failure.
    pub fn observe_frame(&mut self, fingerprint: u64, waited_ms: u64) -> (d: WaitDecision)
        requires
            old(self).wf(),
            old(self).phase == Phase::WaitForRender,
        ensures
            final(self).wf(),
            wait_proceeds(old(self).last_fingerprint, fingerprint, waited_ms as int, old(self).wait_bound() as int) ==> {
                &&& d == (WaitDecision::Proceed { timed_out: old(self).last_fingerprint == Some(fingerprint) })
                &&& *final(self) == (ScanSession {
                    phase: Phase::CaptureFields,
                    last_fingerprint: Some(fingerprint),
                    ..*old(self)
                })
            },
            !wait_proceeds(old(self).last_fingerprint, fingerprint, waited_ms as int, old(self).wait_bound() as int) ==> d
                == WaitDecision::Poll && *final(self) == *old(self),
    {
        let bound = if self.is_cloud {
            self.config.cloud_wait_switch_ms
        } else {
            self.config.max_wait_switch_ms
        };
        let unchanged = match self.last_fingerprint {
            Some(f) => f == fingerprint,
            None => false,
        };
        if !unchanged || waited_ms >= bound {
            self.phase = Phase::CaptureFields;
            self.last_fingerprint = Some(fingerprint);
            WaitDecision::Proceed { timed_out: unchanged }
        } else {
            WaitDecision::Poll
        }
    }

    /// Called once the slot's frame was captured: recognition follows, unless the session
    /// only captures, in which case it ends here.
    pub fn fields_captured(&mut self) -> (recognize: bool)
        requires
            old(self).wf(),
            old(self).phase == Phase::CaptureFields,
        ensures
            final(self).wf(),
            recognize == !old(self).config.capture_only,
            recognize ==> *final(self) == (ScanSession { phase: Phase::RecognizeFields, ..*old(self) }),
            !recognize ==> *final(self) == (ScanSession { phase: Phase::Done, ..*old(self) }),
    {
        if self.config.capture_only {
            self.phase = Phase::Done;
            false
        } else {
            self.phase = Phase::RecognizeFields;
            true
        }
    }

    /// Takes the record recognized for the current slot. A repeat of the session's first
    /// record ends the scan and is not counted. Any other record counts as a scanned slot
    /// and is kept only when it passes the filters; the scan ends when the total is reached.
    pub fn accept_record(&mut self, rec: ArtifactRecord) -> (o: SlotOutcome)
        requires
            old(self).wf(),
            old(self).phase == Phase::RecognizeFields,
        ensures
            final(self).wf(),
            final(self).config == old(self).config,
            final(self).is_cloud == old(self).is_cloud,
            final(self).columns == old(self).columns,
            final(self).rows == old(self).rows,
            final(self).total == old(self).total,
            final(self).last_fingerprint == old(self).last_fingerprint,
            (old(self).first matches Some(f) && same_item(rec, f)) ==> {
                &&& o == SlotOutcome::Repeated
                &&& *final(self) == (ScanSession { phase: Phase::Done, ..*old(self) })
            },
            !(old(self).first matches Some(f) && same_item(rec, f)) ==> {
                &&& final(self).scanned == old(self).scanned + 1
                &&& final(self).first == if old(self).first is None {
                    Some(rec)
                } else {
                    old(self).first
                }
                &&& final(self).phase == if final(self).scanned >= old(self).total {
                    Phase::Done
                } else {
                    Phase::SelectSlot
                }
                &&& passes(rec, old(self).config.min_star, old(self).config.min_level) ==> o
                    == SlotOutcome::Kept && final(self).results@ == old(self).results@.push(rec)
                &&& !passes(rec, old(self).config.min_star, old(self).config.min_level) ==> o
                    == SlotOutcome::Filtered && final(self).results@ == old(self).results@
            },
    {
        let repeated = match &self.first {
            Some(f) => rec.same_item_as(f),
            None => false,
        };
        if repeated {
            self.phase = Phase::Done;
            return SlotOutcome::Repeated;
        }
        if self.first.is_none() {
            self.first = Some(rec.duplicate());
        }
        self.scanned = self.scanned + 1;
        self.phase = if self.scanned >= self.total {
            Phase::Done
        } else {
            Phase::SelectSlot
        };
        if rec.passes_filter(self.config.min_star, self.config.min_level) {
            self.results.push(rec);
            SlotOutcome::Kept
        } else {
            SlotOutcome::Filtered
        }
    }

    /// Hands the accumulated records over, in scan order.
    pub fn into_results(self) -> (r: Vec<ArtifactRecord>)
        ensures
            r@ == self.results@,
    {
        self.results
    }
}

/// The records a session keeps out of the slots it scanned, in scan order.
pub open spec fn kept(s: Seq<ArtifactRecord>, min_star: u32, min_level: u32) -> Seq<ArtifactRecord>
    decreases s.len(),
{
    if s.len() == 0 {
        seq![]
    } else {
        let rest = kept(s.drop_last(), min_star, min_level);
        if passes(s.last(), min_star, min_level) {
            rest.push(s.last())
        } else {
            rest
        }
    }
}

/// A session over `feed` stops before scanning slot `i`: the feed ran out, the total is
/// reached, or slot `i` repeats the first record.
pub open spec fn stops_at(feed: Seq<ArtifactRecord>, total: nat, i: int) -> bool {
    i >= feed.len() || i >= total || (i > 0 && same_item(feed[i], feed[0]))
}

/// The first slot, from `i` on, before which the session stops.
pub open spec fn stop_from(feed: Seq<ArtifactRecord>, total: nat, i: nat) -> nat
    decreases feed.len() - i,
{
    if stops_at(feed, total, i as int) {
        i
    } else {
        stop_from(feed, total, i + 1)
    }
}

/// How many slots a session over `feed` scans.
pub open spec fn stop_index(feed: Seq<ArtifactRecord>, total: nat) -> nat {
    stop_from(feed, total, 0)
}

/// How many slots' records a session over `feed` reads: the scanned ones, and the
/// repeat that ended it, if one did.
pub open spec fn slots_read(feed: Seq<ArtifactRecord>, total: nat) -> nat {
    let n = stop_index(feed, total);
    if n < feed.len() && n < total && n > 0 && same_item(feed[n as int], feed[0]) {
        n + 1
    } else {
        n
    }
}

/// Runs a whole session against a canned feed in which slot `i` shows `feed[i]` and the UI
/// settles on the first poll; the end of the feed ends the scan too. Returns the kept
/// records and the number of slots whose record was read.
pub fn scan_feed(config: ScanConfig, columns: u32, rows: u32, detected_total: u32, feed: &Vec<ArtifactRecord>) -> (r: (Vec<ArtifactRecord>, usize))
    ensures
        config.capture_only ==> r.0@.len() == 0 && r.1 == 0,
        !config.capture_only ==> {
            let total = session_total(config, columns, rows, detected_total);
            &&& r.0@ == kept(feed@.subrange(0, stop_index(feed@, total) as int), config.min_star, config.min_level)
            &&& r.1 == slots_read(feed@, total)
        },
{
    let mut s = ScanSession::new(config, false, columns, rows, detected_total);
    let ghost total = s.total as nat;
    let mut i: usize = 0;
    while i < feed.len()
        invariant_except_break
            s.phase == Phase::SelectSlot,
        invariant
            s.wf(),
            s.config == config,
            s.columns == columns,
            s.rows == rows,
            s.total as nat == total,
            total == session_total(config, columns, rows, detected_total),
            s.scanned == i,
            i <= feed@.len(),
            config.capture_only ==> i == 0,
            stop_index(feed@, total) == stop_from(feed@, total, i as nat),
            forall|j: int| 0 <= j < i ==> !stops_at(feed@, total, j),
            i > 0 ==> s.first == Some(feed@[0]),
            s.results@ == kept(feed@.subrange(0, i as int), config.min_star, config.min_level),
        ensures
            i >= feed@.len() || i >= total,
        decreases feed@.len() - i,
    {
        match s.select_slot() {
            SlotAction::Finish => {
                break;
            },
            SlotAction::Select { .. } => {},
        }
        s.observe_frame(0, u64::MAX);
        if !s.fields_captured() {
            return (Vec::new(), 0);
        }
        let ghost pre = s.results@;
        let ghost prefix = feed@.subrange(0, i as int + 1);
        assert(prefix.drop_last() =~= feed@.subrange(0, i as int));
        let rec = feed[i].duplicate();
        match s.accept_record(rec) {
            SlotOutcome::Repeated => {
                assert(stops_at(feed@, total, i as int));
                return (s.into_results(), i + 1);
            },
            _ => {},
        }
        assert(!stops_at(feed@, total, i as int));
        i = i + 1;
        if s.scanned >= s.total {
            break;
        }
    }
    assert(stop_from(feed@, total, i as nat) == i);
    (s.into_results(), i)
}

proof fn lemma_stop_from_reaches(feed: Seq<ArtifactRecord>, total: nat, i: nat, n: nat)
    requires
        i <= n,
        forall|j: int| i <= j < n ==> !stops_at(feed, total, j),
        stops_at(feed, total, n as int),
    ensures
        stop_from(feed, total, i) == n,
    decreases n - i,
{
    if i < n {
        lemma_stop_from_reaches(feed, total, i + 1, n);
    }
}

proof fn lemma_kept_all(s: Seq<ArtifactRecord>, min_star: u32, min_level: u32)
    requires
        forall|i: int| 0 <= i < s.len() ==> passes(#[trigger] s[i], min_star, min_level),
    ensures
        kept(s, min_star, min_level) == s,
    decreases s.len(),
{
    if s.len() > 0 {
        lemma_kept_all(s.drop_last(), min_star, min_level);
        assert(s.drop_last().push(s.last()) =~= s);
    }
}

proof fn lemma_kept_append(a: Seq<ArtifactRecord>, b: Seq<ArtifactRecord>, min_star: u32, min_level: u32)
    ensures
        kept(a + b, min_star, min_level) == kept(a, min_star, min_level) + kept(b, min_star, min_level),
    decreases b.len(),
{
    if b.len() == 0 {
        assert(a + b =~= a);
        assert(kept(a, min_star, min_level) + kept(b, min_star, min_level) =~= kept(a, min_star, min_level));
    } else {
        lemma_kept_append(a, b.drop_last(), min_star, min_level);
        assert((a + b).drop_last() =~= a + b.drop_last());
        assert((a + b).last() == b.last());
        let ka = kept(a, min_star, min_level);
        let kb = kept(b.drop_last(), min_star, min_level);
        assert((ka + kb).push(b.last()) =~= ka + kb.push(b.last()));
    }
}

/// A session over `n` records that differ from one another, followed by a repeat of the
/// first, scans exactly those `n` slots, reads one more (the repeat) and no slot after it;
/// when the `n` records pass the filters, it keeps exactly them.
pub proof fn lemma_stops_at_repeat(feed: Seq<ArtifactRecord>, total: nat, n: nat, min_star: u32, min_level: u32)
    requires
        0 < n < feed.len(),
        n < total,
        forall|i: int, j: int| 0 <= i < j < n ==> !same_item(#[trigger] feed[i], #[trigger] feed[j]),
        same_item(feed[n as int], feed[0]),
    ensures
        stop_index(feed, total) == n,
        slots_read(feed, total) == n + 1,
        (forall|i: int| 0 <= i < n ==> passes(#[trigger] feed[i], min_star, min_level)) ==> kept(
            feed.subrange(0, n as int),
            min_star,
            min_level,
        ) == feed.subrange(0, n as int),
{
    assert forall|j: int| 0 <= j < n implies !stops_at(feed, total, j) by {
        if j > 0 {
            assert(!same_item(feed[0], feed[j]));
        }
    }
    lemma_stop_from_reaches(feed, total, 0, n);
    if forall|i: int| 0 <= i < n ==> passes(#[trigger] feed[i], min_star, min_level) {
        lemma_kept_all(feed.subrange(0, n as int), min_star, min_level);
    }
}

/// A record that fails the filters is left out of what the session keeps, and the records
/// kept before and after it stay in scan order.
pub proof fn lemma_filtered_record_omitted(s: Seq<ArtifactRecord>, k: int, min_star: u32, min_level: u32)
    requires
        0 <= k < s.len(),
        !passes(s[k], min_star, min_level),
    ensures
        kept(s, min_star, min_level) == kept(s.subrange(0, k), min_star, min_level) + kept(
            s.subrange(k + 1, s.len() as int),
            min_star,
            min_level,
        ),
{
    let a = s.subrange(0, k);
    let m = seq![s[k]];
    let b = s.subrange(k + 1, s.len() as int);
    assert(s =~= (a + m) + b);
    lemma_kept_append(a + m, b, min_star, min_level);
    lemma_kept_append(a, m, min_star, min_level);
    assert(m.drop_last() =~= Seq::<ArtifactRecord>::empty());
    assert(kept(m.drop_last(), min_star, min_level) =~= Seq::<ArtifactRecord>::empty());
    assert(m.last() == s[k]);
    assert(kept(m, min_star, min_level) =~= Seq::<ArtifactRecord>::empty());
    assert(kept(a, min_star, min_level) + kept(m, min_star, min_level) =~= kept(a, min_star, min_level));
}

/// When the fingerprint never changes and the frame is polled every `interval` ms, the
/// wait goes on at the polls before `ceil(bound / interval) * interval` ms and proceeds at
/// that poll: it never polls forever.
pub proof fn lemma_wait_is_bounded(fingerprint: u64, bound: nat, interval: nat)
    requires
        interval > 0,
    ensures
        ({
            let n = (bound + interval - 1) as int / interval as int;
            &&& wait_proceeds(Some(fingerprint), fingerprint, n * interval, bound as int)
            &&& forall|k: int| 0 <= k < n ==> !wait_proceeds(Some(fingerprint), fingerprint, #[trigger] (k * interval), bound as int)
        }),
{
    let x = (bound + interval - 1) as int;
    let d = interval as int;
    let n = x / d;
    vstd::arithmetic::div_mod::lemma_fundamental_div_mod(x, d);
    vstd::arithmetic::div_mod::lemma_mod_bound(x, d);
    assert(n * d >= bound) by (nonlinear_arith)
        requires
            x == d * n + x % d,
            x % d < d,
            x == bound + d - 1,
    ;
    assert forall|k: int| 0 <= k < n implies !wait_proceeds(Some(fingerprint), fingerprint, #[trigger] (k * interval), bound as int) by {
        assert(k * d < bound) by (nonlinear_arith)
            requires
                0 <= k < n,
                x == d * n + x % d,
                0 <= x % d,
                x == bound + d - 1,
                d > 0,
        ;
    }
}

} // verus!
