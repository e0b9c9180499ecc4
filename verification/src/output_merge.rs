//! Merging what goes out to each output device: the program's own frames
//! and Art-Net input that is bridged to the same device, with a blinking
//! test pattern for the device under the mouse.
use vstd::prelude::*;

use crate::pair_table::{lemma_lookup_has_entry, KeyTable};

verus! {

/// Channels of one DMX universe.
pub const UNIVERSE_BUFFER_SIZE: usize = 512;

/// How often, in nanoseconds, stale sources are dropped.
pub const EXPIRY_INTERVAL_NS: u64 = 250_000_000;

/// How long, in nanoseconds, a source stays without new data.
pub const SOURCE_TTL_NS: u64 = 1_000_000_000;

/// A recipient of output (an Art-Net node and universe, or a DMX
/// interface), by the number the caller gave it.
pub type RecipientId = u32;

/// One universe of channel values.
pub type Universe = [u8; 512];

/// Art-Net input bridged to a recipient: when it arrived, its channels, and
/// whether it merges highest-takes-precedence.
#[derive(Clone, Copy, Debug)]
pub struct ArtnetInputEntry {
    pub received_at: u64,
    pub data: Universe,
    pub htp: bool,
}

/// The program's own output for a recipient: when it last arrived, when
/// its channels last changed, and the channels.
#[derive(Clone, Copy, Debug)]
pub struct GledEntry {
    pub last_data: u64,
    pub last_update: u64,
    pub data: Universe,
}

/// What arrives for a recipient.
#[derive(Clone, Copy, Debug)]
pub enum OutputPackage {
    ArtnetInput { recipient: RecipientId, data: Universe, htp: bool },
    Gled { recipient: RecipientId, data: Universe },
    Hovered { recipient: RecipientId },
}

/// `now - earlier`, or 0 when `earlier` is later.
pub open spec fn elapsed_ns(now: u64, earlier: u64) -> int {
    if now >= earlier {
        now - earlier
    } else {
        0
    }
}

/// Whether every channel is zero.
pub open spec fn all_zero(data: Seq<u8>) -> bool {
    forall|i: int| 0 <= i < data.len() ==> data[i] == 0
}

/// The channel-wise maximum of two universes.
pub open spec fn htp_merge(a: Seq<u8>, b: Seq<u8>) -> Seq<u8> {
    Seq::new(512, |i: int| if a[i] >= b[i] { a[i] } else { b[i] })
}

/// The blink value of the test pattern at `ms` milliseconds: a triangle
/// between 0 and 255 with a period of 512 ms (256 counts as 0).
pub open spec fn spec_hover_blink_value(ms: u64) -> u8 {
    let d = (ms % 512) as int - 256;
    let a = if d >= 0 {
        d
    } else {
        -d
    };
    (a % 256) as u8
}

/// The blink value of the test pattern at `ms` milliseconds.
pub fn hover_blink_value(ms: u64) -> (r: u8)
    ensures
        r == spec_hover_blink_value(ms),
{
    let m = ms % 512;
    let a: u64 = if m >= 256 { m - 256 } else { 256 - m };
    (a % 256) as u8
}

/// The universe to send when both sources are present: merged channel by
/// channel when the input asks for it, else the newer of the two.
pub open spec fn spec_merged(a: ArtnetInputEntry, g: GledEntry) -> Seq<u8> {
    if a.htp {
        htp_merge(g.data@, a.data@)
    } else if a.received_at > g.last_update {
        a.data@
    } else {
        g.data@
    }
}

/// What goes out for a recipient, given its sources: the test pattern
/// when hovered, else the one source there is, else the merge; nothing
/// without a source.
pub open spec fn spec_output(
    artnet: Option<ArtnetInputEntry>,
    gled: Option<GledEntry>,
    hovered: bool,
    blink: u8,
) -> Option<Seq<u8>> {
    if hovered {
        Some(Seq::new(512, |i: int| blink))
    } else {
        match (artnet, gled) {
            (None, None) => None,
            (None, Some(g)) => Some(g.data@),
            (Some(a), None) => Some(a.data@),
            (Some(a), Some(g)) => Some(spec_merged(a, g)),
        }
    }
}

/// The program's entry after a new frame `data` at `now`: an all-zero
/// frame after an all-zero frame only refreshes the arrival time.
pub open spec fn gled_after(previous: Option<GledEntry>, data: Universe, now: u64) -> GledEntry {
    match previous {
        Some(p) => if all_zero(p.data@) && all_zero(data@) {
            GledEntry { last_data: now, ..p }
        } else {
            GledEntry { last_data: now, last_update: now, data }
        },
        None => GledEntry { last_data: now, last_update: now, data },
    }
}

/// A source entry kept by an expiry run at `now`: heard of within a second.
pub open spec fn fresh(arrived: u64, now: u64) -> bool {
    elapsed_ns(now, arrived) < SOURCE_TTL_NS
}

fn is_all_zero(data: &Universe) -> (r: bool)
    ensures
        r == all_zero(data@),
{
    let mut i: usize = 0;
    while i < 512
        invariant
            i <= 512,
            data@.len() == 512,
            forall|j: int| 0 <= j < i ==> data@[j] == 0,
        decreases 512 - i,
    {
        if data[i] != 0 {
            return false;
        }
        i = i + 1;
    }
    true
}

fn merge_htp(g: &Universe, a: &Universe) -> (r: Universe)
    ensures
        r@ == htp_merge(g@, a@),
{
    let mut out: Universe = [0u8; 512];
    let mut i: usize = 0;
    while i < 512
        invariant
            i <= 512,
            out@.len() == 512,
            forall|j: int| 0 <= j < i ==> out@[j] == (if g@[j] >= a@[j] { g@[j] } else { a@[j] }),
        decreases 512 - i,
    {
        let v = if g[i] >= a[i] { g[i] } else { a[i] };
        out.set(i, v);
        i = i + 1;
    }
    assert(out@ =~= htp_merge(g@, a@));
    out
}

/// The merge state: the sources of each recipient, and when stale sources
/// were last dropped.
pub struct OutputMerger {
    pub artnet_input: KeyTable<RecipientId, ArtnetInputEntry>,
    pub gled: KeyTable<RecipientId, GledEntry>,
    pub last_expiry: u64,
}

/// What expiring leaves of a table looked at up to `visited`.
pub open spec fn kept_artnet(
    before: Option<ArtnetInputEntry>,
    r: RecipientId,
    now: u64,
    visited: Seq<RecipientId>,
) -> Option<ArtnetInputEntry> {
    match before {
        Some(e) => if visited.contains(r) && !fresh(e.received_at, now) {
            None
        } else {
            Some(e)
        },
        None => None,
    }
}

/// What expiring leaves of the program's entries looked at up to `visited`.
pub open spec fn kept_gled(
    before: Option<GledEntry>,
    r: RecipientId,
    now: u64,
    visited: Seq<RecipientId>,
) -> Option<GledEntry> {
    match before {
        Some(e) => if visited.contains(r) && !fresh(e.last_data, now) {
            None
        } else {
            Some(e)
        },
        None => None,
    }
}

proof fn lemma_take_push<T>(s: Seq<T>, i: int)
    requires
        0 <= i < s.len(),
    ensures
        forall|x: T| #[trigger] s.take(i + 1).contains(x) == (s.take(i).contains(x) || x == s[i]),
{
    let t0 = s.take(i);
    let t1 = s.take(i + 1);
    assert forall|x: T| #[trigger] t1.contains(x) == (t0.contains(x) || x == s[i]) by {
        if t1.contains(x) && x != s[i] {
            let m = choose|m: int| 0 <= m < t1.len() && t1[m] == x;
            assert(t0[m] == x);
        }
        if t0.contains(x) {
            let m = choose|m: int| 0 <= m < t0.len() && t0[m] == x;
            assert(t1[m] == x);
        }
        if x == s[i] {
            assert(t1[i] == x);
        }
    }
}

fn keys_of<V: Copy>(table: &KeyTable<RecipientId, V>) -> (r: Vec<RecipientId>)
    ensures
        r@.len() == table.entry_seq().len(),
        forall|q: int| 0 <= q < r@.len() ==> #[trigger] r@[q] == table.entry_seq()[q].0,
{
    let n = table.len();
    let mut out: Vec<RecipientId> = Vec::new();
    let mut j: usize = 0;
    while j < n
        invariant
            n == table.entry_seq().len(),
            j <= n,
            out@.len() == j,
            forall|q: int| 0 <= q < j ==> #[trigger] out@[q] == table.entry_seq()[q].0,
        decreases n - j,
    {
        let (k, _) = table.entry_at(j);
        out.push(k);
        j = j + 1;
    }
    out
}

impl OutputMerger {
    /// Both tables have no recipient twice.
    pub open spec fn inv(&self) -> bool {
        self.artnet_input.well_formed() && self.gled.well_formed()
    }

    /// No sources; the expiry clock starts at `now_ns`.
    pub fn new(now_ns: u64) -> (r: Self)
        ensures
            r.inv(),
            r.last_expiry == now_ns,
            forall|k: RecipientId| r.artnet_input.spec_get(k) is None && r.gled.spec_get(k) is None,
    {
        OutputMerger { artnet_input: KeyTable::new(), gled: KeyTable::new(), last_expiry: now_ns }
    }

    fn expire_artnet(&mut self, now_ns: u64)
        requires
            old(self).inv(),
        ensures
            final(self).inv(),
            final(self).gled == old(self).gled,
            final(self).last_expiry == old(self).last_expiry,
            forall|k: RecipientId| #[trigger]
                final(self).artnet_input.spec_get(k) == match old(self).artnet_input.spec_get(k) {
                    Some(e) => if fresh(e.received_at, now_ns) {
                        Some(e)
                    } else {
                        None
                    },
                    None => None,
                },
    {
        let ghost before = self.artnet_input;
        let keys = keys_of(&self.artnet_input);
        let mut m: usize = 0;
        while m < keys.len()
            invariant
                self.inv(),
                self.gled == old(self).gled,
                self.last_expiry == old(self).last_expiry,
                before == old(self).artnet_input,
                m <= keys@.len(),
                keys@.len() == before.entry_seq().len(),
                forall|q: int| 0 <= q < keys@.len() ==> #[trigger] keys@[q] == before.entry_seq()[q].0,
                forall|k: RecipientId| #[trigger]
                    self.artnet_input.spec_get(k) == kept_artnet(before.spec_get(k), k, now_ns, keys@.take(m as int)),
            decreases keys@.len() - m,
        {
            let k = keys[m];
            let ghost head = self.artnet_input;
            proof {
                lemma_take_push(keys@, m as int);
            }
            match self.artnet_input.get(k) {
                Some(e) => {
                    if now_ns.saturating_sub(e.received_at) >= SOURCE_TTL_NS {
                        let _ = self.artnet_input.remove(k);
                    }
                },
                None => {},
            }
            proof {
                assert forall|x: RecipientId| #[trigger]
                    self.artnet_input.spec_get(x) == kept_artnet(before.spec_get(x), x, now_ns, keys@.take(m as int + 1)) by {
                    assert(head.spec_get(x) == kept_artnet(before.spec_get(x), x, now_ns, keys@.take(m as int)));
                }
            }
            m = m + 1;
        }
        proof {
            assert(keys@.take(keys@.len() as int) =~= keys@);
            assert forall|k: RecipientId| #[trigger]
                self.artnet_input.spec_get(k) == match before.spec_get(k) {
                    Some(e) => if fresh(e.received_at, now_ns) {
                        Some(e)
                    } else {
                        None
                    },
                    None => None,
                } by {
                assert(self.artnet_input.spec_get(k) == kept_artnet(before.spec_get(k), k, now_ns, keys@));
                lemma_lookup_has_entry(before.entry_seq(), k);
                if before.spec_get(k) is Some {
                    let q = choose|q: int|
                        0 <= q < before.entry_seq().len() && #[trigger] before.entry_seq()[q] == (k, before.spec_get(k)->0);
                    assert(keys@[q] == k);
                }
            }
        }
    }

    fn expire_gled(&mut self, now_ns: u64)
        requires
            old(self).inv(),
        ensures
            final(self).inv(),
            final(self).artnet_input == old(self).artnet_input,
            final(self).last_expiry == old(self).last_expiry,
            forall|k: RecipientId| #[trigger]
                final(self).gled.spec_get(k) == match old(self).gled.spec_get(k) {
                    Some(e) => if fresh(e.last_data, now_ns) {
                        Some(e)
                    } else {
                        None
                    },
                    None => None,
                },
    {
        let ghost before = self.gled;
        let keys = keys_of(&self.gled);
        let mut m: usize = 0;
        while m < keys.len()
            invariant
                self.inv(),
                self.artnet_input == old(self).artnet_input,
                self.last_expiry == old(self).last_expiry,
                before == old(self).gled,
                m <= keys@.len(),
                keys@.len() == before.entry_seq().len(),
                forall|q: int| 0 <= q < keys@.len() ==> #[trigger] keys@[q] == before.entry_seq()[q].0,
                forall|k: RecipientId| #[trigger]
                    self.gled.spec_get(k) == kept_gled(before.spec_get(k), k, now_ns, keys@.take(m as int)),
            decreases keys@.len() - m,
        {
            let k = keys[m];
            let ghost head = self.gled;
            proof {
                lemma_take_push(keys@, m as int);
            }
            match self.gled.get(k) {
                Some(e) => {
                    if now_ns.saturating_sub(e.last_data) >= SOURCE_TTL_NS {
                        let _ = self.gled.remove(k);
                    }
                },
                None => {},
            }
            proof {
                assert forall|x: RecipientId| #[trigger]
                    self.gled.spec_get(x) == kept_gled(before.spec_get(x), x, now_ns, keys@.take(m as int + 1)) by {
                    assert(head.spec_get(x) == kept_gled(before.spec_get(x), x, now_ns, keys@.take(m as int)));
                }
            }
            m = m + 1;
        }
        proof {
            assert(keys@.take(keys@.len() as int) =~= keys@);
            assert forall|k: RecipientId| #[trigger]
                self.gled.spec_get(k) == match before.spec_get(k) {
                    Some(e) => if fresh(e.last_data, now_ns) {
                        Some(e)
                    } else {
                        None
                    },
                    None => None,
                } by {
                assert(self.gled.spec_get(k) == kept_gled(before.spec_get(k), k, now_ns, keys@));
                lemma_lookup_has_entry(before.entry_seq(), k);
                if before.spec_get(k) is Some {
                    let q = choose|q: int|
                        0 <= q < before.entry_seq().len() && #[trigger] before.entry_seq()[q] == (k, before.spec_get(k)->0);
                    assert(keys@[q] == k);
                }
            }
        }
    }

    /// The universe to send for `recipient` with the current sources.
    pub fn output_for(&self, recipient: RecipientId, hovered: bool, blink: u8) -> (r: Option<Universe>)
        requires
            self.inv(),
        ensures
            match r {
                Some(u) => spec_output(self.artnet_input.spec_get(recipient), self.gled.spec_get(recipient), hovered, blink) == Some(u@),
                None => spec_output(self.artnet_input.spec_get(recipient), self.gled.spec_get(recipient), hovered, blink) is None,
            },
    {
        if hovered {
            let pattern: Universe = [blink; 512];
            assert(pattern@ =~= Seq::new(512, |i: int| blink));
            return Some(pattern);
        }
        match (self.artnet_input.get(recipient), self.gled.get(recipient)) {
            (None, None) => None,
            (None, Some(g)) => Some(g.data),
            (Some(a), None) => Some(a.data),
            (Some(a), Some(g)) => {
                if a.htp {
                    Some(merge_htp(&g.data, &a.data))
                } else if a.received_at > g.last_update {
                    Some(a.data)
                } else {
                    Some(g.data)
                }
            },
        }
    }

    /// Take in one package at `now_ns`: store its data as the source it
    /// comes from, drop stale sources when the interval has passed, and say
    /// what to send to its recipient (`blink` is the test-pattern value at
    /// this moment).
    pub fn receive(&mut self, package: OutputPackage, now_ns: u64, blink: u8) -> (r: Option<(RecipientId, Universe)>)
        requires
            old(self).inv(),
        ensures
            final(self).inv(),
            ({
                let recipient = match package {
                    OutputPackage::ArtnetInput { recipient, .. } => recipient,
                    OutputPackage::Gled { recipient, .. } => recipient,
                    OutputPackage::Hovered { recipient } => recipient,
                };
                let expire = elapsed_ns(now_ns, old(self).last_expiry) >= EXPIRY_INTERVAL_NS;
                &&& final(self).last_expiry == (if expire { now_ns } else { old(self).last_expiry })
                &&& forall|k: RecipientId| #[trigger] final(self).artnet_input.spec_get(k) == {
                    let stored = match package {
                        OutputPackage::ArtnetInput { recipient, data, htp } => if k == recipient {
                            Some(ArtnetInputEntry { received_at: now_ns, data, htp })
                        } else {
                            old(self).artnet_input.spec_get(k)
                        },
                        _ => old(self).artnet_input.spec_get(k),
                    };
                    match stored {
                        Some(e) => if expire && !fresh(e.received_at, now_ns) {
                            None
                        } else {
                            Some(e)
                        },
                        None => None,
                    }
                }
                &&& forall|k: RecipientId| #[trigger] final(self).gled.spec_get(k) == {
                    let stored = match package {
                        OutputPackage::Gled { recipient, data } => if k == recipient {
                            Some(gled_after(old(self).gled.spec_get(k), data, now_ns))
                        } else {
                            old(self).gled.spec_get(k)
                        },
                        _ => old(self).gled.spec_get(k),
                    };
                    match stored {
                        Some(e) => if expire && !fresh(e.last_data, now_ns) {
                            None
                        } else {
                            Some(e)
                        },
                        None => None,
                    }
                }
                &&& match r {
                    Some((to, u)) => to == recipient && spec_output(
                        final(self).artnet_input.spec_get(recipient),
                        final(self).gled.spec_get(recipient),
                        package is Hovered,
                        blink,
                    ) == Some(u@),
                    None => spec_output(
                        final(self).artnet_input.spec_get(recipient),
                        final(self).gled.spec_get(recipient),
                        package is Hovered,
                        blink,
                    ) is None,
                }
            }),
    {
        let (recipient, hovered) = match package {
            OutputPackage::ArtnetInput { recipient, data, htp } => {
                let _ = self.artnet_input.insert(recipient, ArtnetInputEntry { received_at: now_ns, data, htp });
                (recipient, false)
            },
            OutputPackage::Gled { recipient, data } => {
                let entry = match self.gled.get(recipient) {
                    Some(p) => {
                        if is_all_zero(&p.data) && is_all_zero(&data) {
                            GledEntry { last_data: now_ns, ..p }
                        } else {
                            GledEntry { last_data: now_ns, last_update: now_ns, data }
                        }
                    },
                    None => GledEntry { last_data: now_ns, last_update: now_ns, data },
                };
                let _ = self.gled.insert(recipient, entry);
                (recipient, false)
            },
            OutputPackage::Hovered { recipient } => (recipient, true),
        };
        if now_ns.saturating_sub(self.last_expiry) >= EXPIRY_INTERVAL_NS {
            self.last_expiry = now_ns;
            self.expire_artnet(now_ns);
            self.expire_gled(now_ns);
        }
        match self.output_for(recipient, hovered, blink) {
            Some(u) => Some((recipient, u)),
            None => None,
        }
    }
}

} // verus!
