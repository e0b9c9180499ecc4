//! Learning a binding from what the user plays on a controller: the
//! messages seen while learning are counted per (status, data1), and once
//! enough have been seen, or the controller has gone quiet, the busiest
//! key becomes the binding's trigger.
use vstd::prelude::*;

use super::mapping::MidiTrigger;
use crate::pair_table::{lemma_lookup_found, lemma_lookup_has_entry, PairKey, PairTable};

verus! {

/// Messages after which a learn session ends at once.
pub const MIN_MESSAGES: u32 = 8;

/// Silence, in nanoseconds, after which a learn session with messages ends.
pub const QUIET_TIME_NS: u64 = 180_000_000;

/// Time, in nanoseconds, after which a learn session with messages ends.
pub const MAX_LEARN_TIME_NS: u64 = 2_000_000_000;

/// Which binding of a controller a learn request fills.
#[derive(Clone, Copy, Debug, PartialEq, Eq, Structural)]
pub enum MidiLearnTarget {
    InputBinding(usize),
    OutputBinding(usize),
}

/// A request to learn one binding of one controller.
#[derive(Clone, Copy, Debug, PartialEq, Eq, Structural)]
pub struct MidiLearnRequest {
    pub controller_id: u128,
    pub target: MidiLearnTarget,
}

/// A learnt trigger, for the binding that requested it.
#[derive(Clone, Copy, Debug, PartialEq, Eq, Structural)]
pub struct MidiLearnCapture {
    pub controller_id: u128,
    pub target: MidiLearnTarget,
    pub trigger: MidiTrigger,
}

/// How often a (status, data1) key was seen, and the range of its values.
#[derive(Clone, Copy, Debug, PartialEq, Eq, Structural)]
pub struct LearnStats {
    pub count: u32,
    pub min_value: u8,
    pub max_value: u8,
}

/// One learn session: the request, when it started and when it last saw a
/// message (nanoseconds on one monotonic clock), and the statistics so far.
#[derive(Clone, Debug)]
pub struct LearnSession {
    pub request: MidiLearnRequest,
    pub started_at_ns: u64,
    pub last_seen_at_ns: Option<u64>,
    pub stats: PairTable<LearnStats>,
}

// ---------------------------------------------------------------------------
// The model
// ---------------------------------------------------------------------------
/// The number of messages counted in `entries`.
pub open spec fn total_count(entries: Seq<(PairKey, LearnStats)>) -> int
    decreases entries.len(),
{
    if entries.len() == 0 {
        0
    } else {
        total_count(entries.drop_last()) + entries.last().1.count
    }
}

/// The key a message is learnt under: on a control-change status, the
/// low-resolution half (data1 32 to 63) of a 14-bit controller counts as
/// its high-resolution half (data1 0 to 31).
pub open spec fn canonical_key(key: PairKey) -> PairKey {
    if key.0 & 0xF0 == 0xB0 && 32 <= key.1 <= 63 {
        (key.0, (key.1 - 32) as u8)
    } else {
        key
    }
}

/// How far a key's values spread.
pub open spec fn value_span(stats: LearnStats) -> int {
    if stats.max_value >= stats.min_value {
        stats.max_value - stats.min_value
    } else {
        0
    }
}

/// For a canonical key: the number of messages of all keys with that
/// canonical key, and the widest value span among them; `None` when no
/// key has it.
pub open spec fn canonical_stats(entries: Seq<(PairKey, LearnStats)>, key: PairKey) -> Option<
    (int, int),
>
    decreases entries.len(),
{
    if entries.len() == 0 {
        None
    } else {
        let rest = canonical_stats(entries.drop_last(), key);
        let e = entries.last();
        if canonical_key(e.0) == key {
            match rest {
                Some((c, s)) => Some(
                    (c + e.1.count, if s >= value_span(e.1) {
                        s
                    } else {
                        value_span(e.1)
                    }),
                ),
                None => Some((e.1.count as int, value_span(e.1))),
            }
        } else {
            rest
        }
    }
}

/// How strongly a canonical key is suggested: its message count first, its
/// value span second.
pub open spec fn learn_score(stats: (int, int)) -> int {
    stats.0 * 256 + stats.1
}

/// Whether `key` is a canonical key of `entries` with a score no other
/// canonical key exceeds.
pub open spec fn is_best_key(entries: Seq<(PairKey, LearnStats)>, key: PairKey) -> bool {
    &&& canonical_stats(entries, key) is Some
    &&& forall|other: PairKey| #[trigger]
        canonical_stats(entries, other) is Some ==> learn_score(
            canonical_stats(entries, other)->0,
        ) <= learn_score(canonical_stats(entries, key)->0)
}

/// Whether a status byte's messages carry a note or controller number in
/// data1, so that a trigger must match it: all but program change, channel
/// pressure and pitch bend.
pub open spec fn spec_match_data1_for_status(status: u8) -> bool {
    !(status & 0xF0 == 0xC0 || status & 0xF0 == 0xD0 || status & 0xF0 == 0xE0)
}

/// `now - earlier`, or 0 when `earlier` is later.
pub open spec fn elapsed(now: u64, earlier: u64) -> int {
    if now >= earlier {
        now - earlier
    } else {
        0
    }
}

/// Whether a session with `total` messages ends at `now`: enough messages,
/// or messages and the time limit reached, or messages and a quiet spell
/// since the last one.
pub open spec fn spec_should_finalize(
    total: int,
    started_at: u64,
    last_seen_at: Option<u64>,
    now: u64,
) -> bool {
    ||| total >= MIN_MESSAGES
    ||| elapsed(now, started_at) >= MAX_LEARN_TIME_NS && total > 0
    ||| (last_seen_at matches Some(l) && elapsed(now, l) >= QUIET_TIME_NS && total > 0)
}

spec fn fits_table(stats: (int, int)) -> bool {
    0 <= stats.0 <= u32::MAX && 0 <= stats.1 <= 255
}

// ---------------------------------------------------------------------------
// Lemmas on the model
// ---------------------------------------------------------------------------
proof fn lemma_total_prefix(entries: Seq<(PairKey, LearnStats)>, i: int)
    requires
        0 <= i <= entries.len(),
    ensures
        0 <= total_count(entries.take(i)) <= total_count(entries),
    decreases entries.len() - i,
{
    if i < entries.len() {
        lemma_total_prefix(entries, i + 1);
        assert(entries.take(i + 1).drop_last() =~= entries.take(i));
        lemma_total_nonnegative(entries.take(i));
    } else {
        assert(entries.take(i) =~= entries);
        lemma_total_nonnegative(entries);
    }
}

proof fn lemma_total_nonnegative(entries: Seq<(PairKey, LearnStats)>)
    ensures
        total_count(entries) >= 0,
    decreases entries.len(),
{
    if entries.len() > 0 {
        lemma_total_nonnegative(entries.drop_last());
    }
}

proof fn lemma_canonical_bounds(entries: Seq<(PairKey, LearnStats)>, key: PairKey)
    ensures
        canonical_stats(entries, key) matches Some((c, s)) ==> 0 <= c <= total_count(entries) && 0
            <= s <= 255,
        canonical_stats(entries, key) is Some <==> exists|i: int|
            0 <= i < entries.len() && #[trigger] canonical_key(entries[i].0) == key,
    decreases entries.len(),
{
    if entries.len() > 0 {
        let rest = entries.drop_last();
        lemma_canonical_bounds(rest, key);
        lemma_total_nonnegative(rest);
        if exists|i: int| 0 <= i < rest.len() && #[trigger] canonical_key(rest[i].0) == key {
            let i = choose|i: int| 0 <= i < rest.len() && #[trigger] canonical_key(rest[i].0) == key;
            assert(entries[i] == rest[i]);
        }
        if canonical_key(entries.last().0) == key {
            assert(canonical_key(entries[entries.len() - 1].0) == key);
        } else {
            assert forall|i: int|
                0 <= i < entries.len() && #[trigger] canonical_key(entries[i].0) == key implies 0 <= i
                < rest.len() && canonical_key(rest[i].0) == key by {
                if i < rest.len() {
                    assert(rest[i] == entries[i]);
                }
            }
        }
    }
}

// ---------------------------------------------------------------------------
// Executable functions
// ---------------------------------------------------------------------------
/// Whether a trigger learnt on `status` must also match data1.
pub fn match_data1_for_status(status: u8) -> (r: bool)
    ensures
        r == spec_match_data1_for_status(status),
{
    let kind = status & 0xF0;
    !(kind == 0xC0 || kind == 0xD0 || kind == 0xE0)
}

fn canonical_key_of(key: PairKey) -> (r: PairKey)
    ensures
        r == canonical_key(key),
{
    if key.0 & 0xF0 == 0xB0 && 32 <= key.1 && key.1 <= 63 {
        (key.0, key.1 - 32)
    } else {
        key
    }
}

/// The number of messages a statistics table counts.
pub fn total_messages(stats: &PairTable<LearnStats>) -> (r: u32)
    requires
        total_count(stats.entry_seq()) <= u32::MAX,
    ensures
        r == total_count(stats.entry_seq()),
{
    let ghost entries = stats.entry_seq();
    let mut total: u32 = 0;
    let mut i: usize = 0;
    while i < stats.len()
        invariant
            entries == stats.entry_seq(),
            total_count(entries) <= u32::MAX,
            i <= entries.len(),
            total == total_count(entries.take(i as int)),
        decreases entries.len() - i,
    {
        let (_, s) = stats.entry_at(i);
        proof {
            assert(entries.take(i as int + 1).drop_last() =~= entries.take(i as int));
            lemma_total_prefix(entries, i as int + 1);
        }
        total = total + s.count;
        i = i + 1;
    }
    proof {
        assert(entries.take(i as int) =~= entries);
    }
    total
}

/// The canonical key the statistics suggest most strongly: the most
/// messages, then the widest value span; `None` when nothing was seen.
/// Among keys with equal scores, any may be chosen.
pub fn best_trigger(stats: &PairTable<LearnStats>) -> (r: Option<PairKey>)
    requires
        stats.well_formed(),
        total_count(stats.entry_seq()) <= u32::MAX,
    ensures
        r is None <==> stats.entry_seq().len() == 0,
        r matches Some(key) ==> is_best_key(stats.entry_seq(), key),
{
    let ghost entries = stats.entry_seq();
    // Aggregate per canonical key.
    let mut canonical: PairTable<(u32, u8)> = PairTable::new();
    let mut i: usize = 0;
    while i < stats.len()
        invariant
            entries == stats.entry_seq(),
            total_count(entries) <= u32::MAX,
            i <= entries.len(),
            canonical.well_formed(),
            forall|k: PairKey| #[trigger]
                canonical.spec_get(k) == match canonical_stats(entries.take(i as int), k) {
                    Some((c, s)) => Some((c as u32, s as u8)),
                    None => None::<(u32, u8)>,
                },
            forall|k: PairKey| #[trigger]
                canonical_stats(entries.take(i as int), k) is Some ==> fits_table(
                    canonical_stats(entries.take(i as int), k)->0,
                ),
        decreases entries.len() - i,
    {
        let (key, s) = stats.entry_at(i);
        let ck = canonical_key_of(key);
        let span: u8 = if s.max_value >= s.min_value { s.max_value - s.min_value } else { 0 };
        let ghost prefix = entries.take(i as int);
        let ghost next = entries.take(i as int + 1);
        proof {
            assert(next.drop_last() =~= prefix);
            assert(next.last() == (key, s));
            lemma_total_prefix(entries, i as int + 1);
            lemma_canonical_bounds(next, ck);
            lemma_canonical_bounds(prefix, ck);
        }
        let merged: (u32, u8) = match canonical.get(ck) {
            Some((c, old_span)) => (c + s.count, if old_span >= span { old_span } else { span }),
            None => (s.count, span),
        };
        let _ = canonical.insert(ck, merged);
        proof {
            assert forall|k: PairKey| #[trigger]
                canonical_stats(next, k) is Some implies fits_table(canonical_stats(next, k)->0) by {
                lemma_canonical_bounds(next, k);
            }
        }
        i = i + 1;
    }
    proof {
        assert(entries.take(i as int) =~= entries);
    }
    // Pick the highest score.
    let n = canonical.len();
    if n == 0 {
        proof {
            if entries.len() > 0 {
                lemma_canonical_bounds(entries, canonical_key(entries[0].0));
                let k = canonical_key(entries[0].0);
                assert(canonical.spec_get(k) is Some);
                lemma_lookup_has_entry(canonical.entry_seq(), k);
            }
        }
        return None;
    }
    let ghost table = canonical.entry_seq();
    let (first_key, first_val) = canonical.entry_at(0);
    proof {
        lemma_lookup_found(table, 0);
        assert(canonical.spec_get(first_key) == Some(first_val));
        assert(canonical_stats(entries, first_key) is Some);
        assert(fits_table(canonical_stats(entries, first_key)->0));
    }
    let mut best_key = first_key;
    let mut best_score: u64 = first_val.0 as u64 * 256 + first_val.1 as u64;
    let mut j: usize = 1;
    while j < n
        invariant
            table == canonical.entry_seq(),
            n == table.len(),
            1 <= j <= n,
            canonical.well_formed(),
            forall|k: PairKey| #[trigger]
                canonical.spec_get(k) == match canonical_stats(entries, k) {
                    Some((c, s)) => Some((c as u32, s as u8)),
                    None => None::<(u32, u8)>,
                },
            forall|k: PairKey| #[trigger]
                canonical_stats(entries, k) is Some ==> fits_table(canonical_stats(entries, k)->0),
            canonical_stats(entries, best_key) is Some,
            best_score == learn_score(canonical_stats(entries, best_key)->0),
            forall|m: int|
                0 <= m < j ==> learn_score(canonical_stats(entries, #[trigger] table[m].0)->0)
                    <= best_score,
        decreases n - j,
    {
        let (k, v) = canonical.entry_at(j);
        let score: u64 = v.0 as u64 * 256 + v.1 as u64;
        proof {
            lemma_lookup_found(table, j as int);
            assert(canonical.spec_get(k) == Some(v));
            assert(canonical_stats(entries, k) is Some);
            assert(fits_table(canonical_stats(entries, k)->0));
        }
        if score > best_score {
            best_key = k;
            best_score = score;
        }
        j = j + 1;
    }
    proof {
        assert forall|other: PairKey| #[trigger]
            canonical_stats(entries, other) is Some implies learn_score(
                canonical_stats(entries, other)->0,
            ) <= learn_score(canonical_stats(entries, best_key)->0) by {
            assert(canonical.spec_get(other) is Some);
            lemma_lookup_has_entry(table, other);
            let m = choose|m: int| 0 <= m < table.len() && #[trigger] table[m] == (other, canonical.spec_get(other)->0);
            assert(table[m].0 == other);
        }
    }
    Some(best_key)
}


/// Whether the session ends at `now_ns`.
pub fn should_finalize(session: &LearnSession, now_ns: u64) -> (r: bool)
    requires
        total_count(session.stats.entry_seq()) <= u32::MAX,
    ensures
        r == spec_should_finalize(
            total_count(session.stats.entry_seq()),
            session.started_at_ns,
            session.last_seen_at_ns,
            now_ns,
        ),
{
    let total = total_messages(&session.stats);
    if total >= MIN_MESSAGES {
        return true;
    }
    if now_ns.saturating_sub(session.started_at_ns) >= MAX_LEARN_TIME_NS && total > 0 {
        return true;
    }
    match session.last_seen_at_ns {
        Some(last_seen_at) => now_ns.saturating_sub(last_seen_at) >= QUIET_TIME_NS && total > 0,
        None => false,
    }
}

/// Whether `capture` is what finishing a session of `request` with these
/// statistics gives: the request's controller and binding, and a trigger
/// on a best canonical key.
pub open spec fn is_capture_of(
    entries: Seq<(PairKey, LearnStats)>,
    request: MidiLearnRequest,
    capture: MidiLearnCapture,
) -> bool {
    &&& capture.controller_id == request.controller_id
    &&& capture.target == request.target
    &&& is_best_key(entries, (capture.trigger.status, capture.trigger.data1))
    &&& capture.trigger.match_data1 == spec_match_data1_for_status(capture.trigger.status)
}

/// The capture a finished session gives; `None` when it saw no message.
pub fn finalize_session(session: LearnSession) -> (r: Option<MidiLearnCapture>)
    requires
        session.stats.well_formed(),
        total_count(session.stats.entry_seq()) <= u32::MAX,
    ensures
        r is None <==> session.stats.entry_seq().len() == 0,
        r matches Some(c) ==> is_capture_of(session.stats.entry_seq(), session.request, c),
{
    match best_trigger(&session.stats) {
        Some((status, data1)) => Some(
            MidiLearnCapture {
                controller_id: session.request.controller_id,
                target: session.request.target,
                trigger: MidiTrigger { status, data1, match_data1: match_data1_for_status(status) },
            },
        ),
        None => None,
    }
}

/// The statistics of a key after one more message with `value`.
pub open spec fn bumped(previous: Option<LearnStats>, value: u8) -> LearnStats {
    match previous {
        None => LearnStats { count: 1, min_value: value, max_value: value },
        Some(s) => LearnStats {
            count: (s.count + 1) as u32,
            min_value: if value < s.min_value {
                value
            } else {
                s.min_value
            },
            max_value: if value > s.max_value {
                value
            } else {
                s.max_value
            },
        },
    }
}

/// Whether `after` is `before` with one more message (key, value) counted.
pub open spec fn counted_message(
    before: PairTable<LearnStats>,
    after: PairTable<LearnStats>,
    key: PairKey,
    value: u8,
) -> bool {
    &&& after.well_formed()
    &&& after.spec_get(key) == Some(bumped(before.spec_get(key), value))
    &&& forall|k: PairKey| k != key ==> #[trigger] after.spec_get(k) == before.spec_get(k)
    &&& total_count(after.entry_seq()) == total_count(before.entry_seq()) + 1
}

proof fn lemma_total_update(entries: Seq<(PairKey, LearnStats)>, i: int, e: (PairKey, LearnStats))
    requires
        0 <= i < entries.len(),
    ensures
        total_count(entries.update(i, e)) == total_count(entries) - entries[i].1.count + e.1.count,
    decreases entries.len(),
{
    let u = entries.update(i, e);
    if i == entries.len() - 1 {
        assert(u.drop_last() =~= entries.drop_last());
    } else {
        assert(u.drop_last() =~= entries.drop_last().update(i, e));
        lemma_total_update(entries.drop_last(), i, e);
    }
}

proof fn lemma_entry_count_bounded(entries: Seq<(PairKey, LearnStats)>, i: int)
    requires
        0 <= i < entries.len(),
    ensures
        entries[i].1.count <= total_count(entries),
    decreases entries.len(),
{
    lemma_total_nonnegative(entries.drop_last());
    if i < entries.len() - 1 {
        assert(entries.drop_last()[i] == entries[i]);
        lemma_entry_count_bounded(entries.drop_last(), i);
    }
}

/// Count one message (key, value) in a statistics table.
pub fn count_message(stats: &mut PairTable<LearnStats>, key: PairKey, value: u8)
    requires
        old(stats).well_formed(),
        total_count(old(stats).entry_seq()) < u32::MAX,
    ensures
        counted_message(*old(stats), *final(stats), key, value),
{
    let ghost before = stats.entry_seq();
    let previous = stats.get(key);
    let next = match previous {
        Some(s) => {
            proof {
                lemma_lookup_has_entry(before, key);
                let i = choose|i: int| 0 <= i < before.len() && #[trigger] before[i] == (key, s);
                lemma_entry_count_bounded(before, i);
            }
            LearnStats {
                count: s.count + 1,
                min_value: if value < s.min_value { value } else { s.min_value },
                max_value: if value > s.max_value { value } else { s.max_value },
            }
        },
        None => LearnStats { count: 1, min_value: value, max_value: value },
    };
    let replaced = stats.insert(key, next);
    proof {
        match replaced {
            Some(s) => {
                let i = choose|i: int|
                    0 <= i < before.len() && #[trigger] before[i].0 == key && stats.entry_seq()
                        == before.update(i, (key, next));
                crate::pair_table::lemma_lookup_found(before, i);
                lemma_total_update(before, i, (key, next));
            },
            None => {
                assert(stats.entry_seq().drop_last() =~= before);
            },
        }
    }
}

// ---------------------------------------------------------------------------
// The learn state machine
// ---------------------------------------------------------------------------
/// The switches the MIDI input side reads: whether messages are streamed to
/// the user interface at all, and whether a learn session waits for them.
#[derive(Clone, Copy, Debug, PartialEq, Eq, Structural)]
pub struct LearnFlags {
    pub stream_enabled: bool,
    pub learn_active: bool,
}

impl LearnFlags {
    /// Both switches off.
    pub fn new() -> (r: Self)
        ensures
            !r.stream_enabled,
            !r.learn_active,
    {
        LearnFlags { stream_enabled: false, learn_active: false }
    }
}

/// Switch streaming on or off; switching it off also stops learning.
pub fn set_streaming_enabled(flags: &mut LearnFlags, enabled: bool)
    ensures
        final(flags).stream_enabled == enabled,
        final(flags).learn_active == (old(flags).learn_active && enabled),
{
    flags.stream_enabled = enabled;
    if !enabled {
        flags.learn_active = false;
    }
}

/// Whether an incoming message goes to the learn session instead of the
/// mappings: a three-byte message while streaming and learning are on.
pub fn capture(flags: &LearnFlags, message: &[u8]) -> (r: bool)
    ensures
        r == (message@.len() == 3 && flags.stream_enabled && flags.learn_active),
{
    message.len() == 3 && flags.stream_enabled && flags.learn_active
}

/// The learn side of the user interface: the session in progress, the
/// captures not yet taken, and the switches shared with the input side.
pub struct LearnState {
    pub request: Option<LearnSession>,
    pub captured: Vec<MidiLearnCapture>,
    pub flags: LearnFlags,
}

impl LearnState {
    /// Every session in progress has a well-formed table that has counted
    /// fewer messages than end a session.
    pub open spec fn inv(&self) -> bool {
        self.request matches Some(s) ==> s.stats.well_formed() && total_count(s.stats.entry_seq())
            < MIN_MESSAGES
    }

    /// No session, no captures, both switches off.
    pub fn new() -> (r: Self)
        ensures
            r.inv(),
            r.request is None,
            r.captured@.len() == 0,
            r.flags == (LearnFlags { stream_enabled: false, learn_active: false }),
    {
        LearnState { request: None, captured: Vec::new(), flags: LearnFlags::new() }
    }

    /// Switch streaming on or off; switching it off drops the session.
    pub fn set_streaming_enabled(&mut self, enabled: bool)
        requires
            old(self).inv(),
        ensures
            final(self).inv(),
            final(self).flags.stream_enabled == enabled,
            final(self).flags.learn_active == (old(self).flags.learn_active && enabled),
            final(self).request == (if enabled {
                old(self).request
            } else {
                None
            }),
            final(self).captured@ == old(self).captured@,
    {
        set_streaming_enabled(&mut self.flags, enabled);
        if !enabled {
            self.request = None;
        }
    }

    /// Start learning for `request` at `now_ns`, replacing any session.
    pub fn arm(&mut self, request: MidiLearnRequest, now_ns: u64)
        requires
            old(self).inv(),
        ensures
            final(self).inv(),
            final(self).request matches Some(s) && s.request == request && s.started_at_ns == now_ns
                && s.last_seen_at_ns is None && s.stats.entry_seq().len() == 0,
            final(self).flags == (LearnFlags { learn_active: true, ..old(self).flags }),
            final(self).captured@ == old(self).captured@,
    {
        self.request = Some(
            LearnSession {
                request,
                started_at_ns: now_ns,
                last_seen_at_ns: None,
                stats: PairTable::new(),
            },
        );
        self.flags.learn_active = true;
    }

    /// The request being learnt, if any.
    pub fn active_request(&self) -> (r: Option<MidiLearnRequest>)
        ensures
            r == match self.request {
                Some(s) => Some(s.request),
                None => None::<MidiLearnRequest>,
            },
    {
        match &self.request {
            Some(session) => Some(session.request),
            None => None,
        }
    }

    /// Take in one captured message at `now_ns`: count it in the session,
    /// and end the session when it is complete, keeping its capture.
    /// Without a session the message is dropped.
    pub fn record_message(&mut self, message: [u8; 3], now_ns: u64)
        requires
            old(self).inv(),
        ensures
            final(self).inv(),
            final(self).flags.stream_enabled == old(self).flags.stream_enabled,
            match old(self).request {
                None => {
                    &&& final(self).request is None
                    &&& final(self).captured@ == old(self).captured@
                    &&& final(self).flags == old(self).flags
                },
                Some(s) => {
                    let key = (message[0], message[1]);
                    let total = total_count(s.stats.entry_seq()) + 1;
                    if spec_should_finalize(total, s.started_at_ns, Some(now_ns), now_ns) {
                        &&& final(self).request is None
                        &&& !final(self).flags.learn_active
                        &&& final(self).captured@.len() == old(self).captured@.len() + 1
                        &&& final(self).captured@.drop_last() == old(self).captured@
                        &&& exists|t: PairTable<LearnStats>|
                            #[trigger] counted_message(s.stats, t, key, message[2]) && is_capture_of(
                                t.entry_seq(),
                                s.request,
                                final(self).captured@.last(),
                            )
                    } else {
                        &&& final(self).request matches Some(n) && n.request == s.request
                            && n.started_at_ns == s.started_at_ns && n.last_seen_at_ns == Some(
                            now_ns,
                        ) && counted_message(s.stats, n.stats, key, message[2])
                        &&& final(self).captured@ == old(self).captured@
                        &&& final(self).flags == old(self).flags
                    }
                },
            },
    {
        let taken = self.request.take();
        match taken {
            None => {},
            Some(mut session) => {
                let ghost before = session.stats;
                count_message(&mut session.stats, (message[0], message[1]), message[2]);
                session.last_seen_at_ns = Some(now_ns);
                if should_finalize(&session, now_ns) {
                    let ghost counted = session.stats;
                    let ghost request = session.request;
                    match finalize_session(session) {
                        Some(capture) => {
                            self.flags.learn_active = false;
                            self.captured.push(capture);
                            proof {
                                assert(self.captured@.drop_last() =~= old(self).captured@);
                                assert(counted_message(before, counted, (message[0], message[1]), message[2]));
                            }
                        },
                        None => {},
                    }
                } else {
                    self.request = Some(session);
                }
            },
        }
    }

    /// End the session when it is complete at `now_ns` (the time limit or a
    /// quiet spell), keeping its capture.
    pub fn flush_timeouts(&mut self, now_ns: u64)
        requires
            old(self).inv(),
        ensures
            final(self).inv(),
            final(self).flags.stream_enabled == old(self).flags.stream_enabled,
            match old(self).request {
                Some(s) => if spec_should_finalize(
                    total_count(s.stats.entry_seq()),
                    s.started_at_ns,
                    s.last_seen_at_ns,
                    now_ns,
                ) {
                    &&& final(self).request is None
                    &&& !final(self).flags.learn_active
                    &&& final(self).captured@.len() == old(self).captured@.len() + 1
                    &&& final(self).captured@.drop_last() == old(self).captured@
                    &&& is_capture_of(s.stats.entry_seq(), s.request, final(self).captured@.last())
                } else {
                    &&& final(self).request == old(self).request
                    &&& final(self).captured@ == old(self).captured@
                    &&& final(self).flags == old(self).flags
                },
                None => {
                    &&& final(self).request is None
                    &&& final(self).captured@ == old(self).captured@
                    &&& final(self).flags == old(self).flags
                },
            },
    {
        let finish = match &self.request {
            Some(session) => should_finalize(session, now_ns),
            None => false,
        };
        if !finish {
            return;
        }
        let taken = self.request.take();
        match taken {
            Some(session) => {
                match finalize_session(session) {
                    Some(capture) => {
                        self.flags.learn_active = false;
                        self.captured.push(capture);
                        proof {
                            assert(self.captured@.drop_last() =~= old(self).captured@);
                        }
                    },
                    None => {},
                }
            },
            None => {},
        }
    }

    /// Take the capture kept last.
    pub fn pop_capture(&mut self) -> (r: Option<MidiLearnCapture>)
        requires
            old(self).inv(),
        ensures
            final(self).inv(),
            final(self).request == old(self).request,
            final(self).flags == old(self).flags,
            if old(self).captured@.len() == 0 {
                r is None && final(self).captured@ == old(self).captured@
            } else {
                r == Some(old(self).captured@.last()) && final(self).captured@
                    == old(self).captured@.drop_last()
            },
    {
        self.captured.pop()
    }
}

} // verus!
