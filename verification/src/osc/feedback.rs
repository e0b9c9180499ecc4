//! The clients that asked for state feedback: who subscribed, when each
//! was last heard of, and how the subscription commands change that.
use vstd::prelude::*;

use super::ClientInterestCommand;
use crate::pair_table::{lemma_lookup_has_entry, KeyTable};

verus! {

/// How long, in nanoseconds, a subscriber stays without a heartbeat.
pub const SUBSCRIBER_TTL_NS: u64 = 30_000_000_000;

/// A client's network address: the IP address as a 128-bit number (IPv4
/// addresses mapped into IPv6) and the port.
pub type ClientAddress = (u128, u16);

/// `now - earlier`, or 0 when `earlier` is later.
pub open spec fn elapsed_since(now: u64, earlier: u64) -> int {
    if now >= earlier {
        now - earlier
    } else {
        0
    }
}

/// The subscribed clients, each with the time it was last heard of
/// (nanoseconds on one monotonic clock).
pub struct Subscribers {
    pub table: KeyTable<ClientAddress, u64>,
}

impl Subscribers {
    /// No client is listed twice.
    pub open spec fn inv(&self) -> bool {
        self.table.well_formed()
    }

    /// When a client was last heard of, if it is subscribed.
    pub open spec fn last_seen(&self, addr: ClientAddress) -> Option<u64> {
        self.table.spec_get(addr)
    }

    /// Nobody subscribed.
    pub fn new() -> (r: Self)
        ensures
            r.inv(),
            forall|a: ClientAddress| r.last_seen(a) is None,
    {
        Subscribers { table: KeyTable::new() }
    }

    /// Drop the clients not heard of for the time to live.
    pub fn expire(&mut self, now_ns: u64)
        requires
            old(self).inv(),
        ensures
            final(self).inv(),
            forall|a: ClientAddress| #[trigger]
                final(self).last_seen(a) == after_expiry(old(self).last_seen(a), now_ns),
    {
        let ghost before = self.table;
        let n = self.table.len();
        let mut addrs: Vec<ClientAddress> = Vec::new();
        let mut j: usize = 0;
        while j < n
            invariant
                self.table == before,
                n == before.entry_seq().len(),
                j <= n,
                addrs@.len() == j,
                forall|q: int| 0 <= q < j ==> #[trigger] addrs@[q] == before.entry_seq()[q].0,
            decreases n - j,
        {
            let (a, _) = self.table.entry_at(j);
            addrs.push(a);
            j = j + 1;
        }
        let mut m: usize = 0;
        while m < addrs.len()
            invariant
                self.inv(),
                m <= addrs@.len(),
                addrs@.len() == before.entry_seq().len(),
                forall|q: int| 0 <= q < addrs@.len() ==> #[trigger] addrs@[q] == before.entry_seq()[q].0,
                forall|a: ClientAddress| #[trigger]
                    self.last_seen(a) == expired_upto(before.spec_get(a), a, now_ns, addrs@.take(m as int)),
            decreases addrs@.len() - m,
        {
            let a = addrs[m];
            let ghost head = *self;
            proof {
                lemma_take_push(addrs@, m as int);
            }
            match self.table.get(a) {
                Some(t) => {
                    if now_ns.saturating_sub(t) >= SUBSCRIBER_TTL_NS {
                        let _ = self.table.remove(a);
                    }
                },
                None => {},
            }
            proof {
                assert forall|x: ClientAddress| #[trigger]
                    self.last_seen(x) == expired_upto(before.spec_get(x), x, now_ns, addrs@.take(m as int + 1)) by {
                    assert(head.last_seen(x) == expired_upto(before.spec_get(x), x, now_ns, addrs@.take(m as int)));
                }
            }
            m = m + 1;
        }
        proof {
            assert(addrs@.take(addrs@.len() as int) =~= addrs@);
            assert forall|a: ClientAddress| #[trigger]
                self.last_seen(a) == match before.spec_get(a) {
                    Some(t) => if elapsed_since(now_ns, t) < SUBSCRIBER_TTL_NS {
                        Some(t)
                    } else {
                        None
                    },
                    None => None,
                } by {
                assert(self.last_seen(a) == expired_upto(before.spec_get(a), a, now_ns, addrs@));
                lemma_lookup_has_entry(before.entry_seq(), a);
                if before.spec_get(a) is Some {
                    let q = choose|q: int|
                        0 <= q < before.entry_seq().len() && #[trigger] before.entry_seq()[q] == (a, before.spec_get(a)->0);
                    assert(addrs@[q] == a);
                }
            }
        }
    }

    /// Apply a subscription command from `addr` at `now_ns`: subscribing
    /// (re)starts the time to live, unsubscribing drops the client, and a
    /// heartbeat restarts the time to live of a subscribed client only.
    pub fn apply_command(&mut self, command: ClientInterestCommand, addr: ClientAddress, now_ns: u64)
        requires
            old(self).inv(),
        ensures
            final(self).inv(),
            forall|a: ClientAddress| a != addr ==> #[trigger] final(self).last_seen(a) == old(self).last_seen(a),
            final(self).last_seen(addr) == after_command(old(self).last_seen(addr), command, now_ns),
    {
        match command {
            ClientInterestCommand::Subscribe => {
                let _ = self.table.insert(addr, now_ns);
            },
            ClientInterestCommand::Unsubscribe => {
                let _ = self.table.remove(addr);
            },
            ClientInterestCommand::Heartbeat => {
                if self.table.get(addr).is_some() {
                    let _ = self.table.insert(addr, now_ns);
                }
            },
        }
    }

    /// Whether any client is subscribed.
    pub fn has_subscribers(&self) -> (r: bool)
        requires
            self.inv(),
        ensures
            r == exists|a: ClientAddress| #[trigger] self.last_seen(a) is Some,
    {
        let empty = self.table.is_empty();
        proof {
            if !empty {
                let e = self.table.entry_seq()[0];
                crate::pair_table::lemma_lookup_found(self.table.entry_seq(), 0);
                assert(self.last_seen(e.0) is Some);
            }
        }
        !empty
    }
}

/// What `expire` has left of a client's entry once it looked at the
/// clients `visited`.
pub open spec fn expired_upto(
    before: Option<u64>,
    a: ClientAddress,
    now: u64,
    visited: Seq<ClientAddress>,
) -> Option<u64> {
    match before {
        Some(t) => if visited.contains(a) && elapsed_since(now, t) >= SUBSCRIBER_TTL_NS {
            None
        } else {
            Some(t)
        },
        None => None,
    }
}

proof fn lemma_take_push<T>(s: Seq<T>, i: int)
    requires
        0 <= i < s.len(),
    ensures
        forall|x: T| #[trigger] s.take(i + 1).contains(x) == (s.take(i).contains(x) || x == s[i]),
{
    let t0 = s.take(i);
    let t1 = s.take(i + 1);
    assert forall|x: T| #[trigger] t1.contains(x) == (t0.contains(x) || x == s[i]) by {
        if t1.contains(x) && x != s[i] {
            let m = choose|m: int| 0 <= m < t1.len() && t1[m] == x;
            assert(t0[m] == x);
        }
        if t0.contains(x) {
            let m = choose|m: int| 0 <= m < t0.len() && t0[m] == x;
            assert(t1[m] == x);
        }
        if x == s[i] {
            assert(t1[i] == x);
        }
    }
}

/// When a client was last heard of, after it sent `command` at `now`,
/// given when it was last heard of before (`None`: not subscribed).
pub open spec fn after_command(previous: Option<u64>, command: ClientInterestCommand, now: u64) -> Option<u64> {
    match command {
        ClientInterestCommand::Subscribe => Some(now),
        ClientInterestCommand::Unsubscribe => None,
        ClientInterestCommand::Heartbeat => match previous {
            Some(_) => Some(now),
            None => None,
        },
    }
}

/// A subscription command, the address it came from and when.
pub type InterestEvent = (ClientInterestCommand, ClientAddress, u64);

/// When `a` was last heard of after the commands `events`, applied in
/// order by `Subscribers::apply_command` to a table that did not list it.
pub open spec fn seen_after(events: Seq<InterestEvent>, a: ClientAddress) -> Option<u64>
    decreases events.len(),
{
    if events.len() == 0 {
        None
    } else {
        let prev = seen_after(events.drop_last(), a);
        let e = events.last();
        if e.1 == a {
            after_command(prev, e.0, e.2)
        } else {
            prev
        }
    }
}

/// `a` subscribed at position `i` of `events` and did not unsubscribe
/// after it.
pub open spec fn subscribed_since(events: Seq<InterestEvent>, a: ClientAddress, i: int) -> bool {
    &&& 0 <= i < events.len()
    &&& events[i].0 == ClientInterestCommand::Subscribe
    &&& events[i].1 == a
    &&& forall|j: int|
        i < j < events.len() && #[trigger] events[j].1 == a ==> events[j].0
            != ClientInterestCommand::Unsubscribe
}

/// Position `k` holds the last command from `a`.
pub open spec fn last_from(events: Seq<InterestEvent>, a: ClientAddress, k: int) -> bool {
    &&& 0 <= k < events.len()
    &&& events[k].1 == a
    &&& forall|j: int| k < j < events.len() ==> #[trigger] events[j].1 != a
}

/// Over any sequence of subscription commands: a client is subscribed
/// exactly when it subscribed and did not unsubscribe since (a heartbeat
/// never subscribes anyone, and commands from other addresses change
/// nothing for it), and it is then last heard of at the time of its last
/// command.
pub proof fn law_subscription_history(events: Seq<InterestEvent>, a: ClientAddress)
    ensures
        seen_after(events, a) is Some <==> exists|i: int| subscribed_since(events, a, i),
        seen_after(events, a) is Some ==> exists|k: int|
            last_from(events, a, k) && seen_after(events, a) == Some(events[k].2),
    decreases events.len(),
{
    if events.len() > 0 {
        let rest = events.drop_last();
        let n = events.len() - 1;
        let e = events.last();
        law_subscription_history(rest, a);
        if seen_after(rest, a) is Some {
            let i = choose|i: int| subscribed_since(rest, a, i);
            let k = choose|k: int| last_from(rest, a, k) && seen_after(rest, a) == Some(rest[k].2);
            assert(rest[i] == events[i]);
            assert(rest[k] == events[k]);
        }
        if e.1 == a {
            if e.0 == ClientInterestCommand::Subscribe {
                assert(subscribed_since(events, a, n));
            } else if e.0 == ClientInterestCommand::Unsubscribe {
                assert forall|i: int| !subscribed_since(events, a, i) by {
                    if 0 <= i < n {
                        assert(events[n].1 == a);
                    }
                }
            } else {
                if seen_after(rest, a) is Some {
                    let i = choose|i: int| subscribed_since(rest, a, i);
                    assert(rest[i] == events[i]);
                    assert forall|j: int| i < j < events.len() && #[trigger] events[j].1 == a implies events[j].0
                        != ClientInterestCommand::Unsubscribe by {
                        if j < n {
                            assert(rest[j] == events[j]);
                        }
                    }
                    assert(subscribed_since(events, a, i));
                } else {
                    assert forall|i: int| !subscribed_since(events, a, i) by {
                        if subscribed_since(events, a, i) {
                            assert(i < n);
                            assert forall|j: int| i < j < rest.len() && #[trigger] rest[j].1 == a implies rest[j].0
                                != ClientInterestCommand::Unsubscribe by {
                                assert(rest[j] == events[j]);
                            }
                            assert(subscribed_since(rest, a, i));
                        }
                    }
                }
            }
            if seen_after(events, a) is Some {
                assert(last_from(events, a, n));
            }
        } else {
            if seen_after(rest, a) is Some {
                let i = choose|i: int| subscribed_since(rest, a, i);
                assert(rest[i] == events[i]);
                assert forall|j: int| i < j < events.len() && #[trigger] events[j].1 == a implies events[j].0
                    != ClientInterestCommand::Unsubscribe by {
                    if j < n {
                        assert(rest[j] == events[j]);
                    }
                }
                assert(subscribed_since(events, a, i));
                let k = choose|k: int| last_from(rest, a, k) && seen_after(rest, a) == Some(rest[k].2);
                assert(rest[k] == events[k]);
                assert forall|j: int| k < j < events.len() implies #[trigger] events[j].1 != a by {
                    if j < n {
                        assert(rest[j] == events[j]);
                    }
                }
                assert(last_from(events, a, k));
            } else {
                assert forall|i: int| !subscribed_since(events, a, i) by {
                    if subscribed_since(events, a, i) {
                        assert(i < n);
                        assert forall|j: int| i < j < rest.len() && #[trigger] rest[j].1 == a implies rest[j].0
                            != ClientInterestCommand::Unsubscribe by {
                            assert(rest[j] == events[j]);
                        }
                        assert(subscribed_since(rest, a, i));
                    }
                }
            }
        }
    }
}

/// When a client was last heard of after an expiry run at `now`: kept
/// while heard of within the time to live.
pub open spec fn after_expiry(previous: Option<u64>, now: u64) -> Option<u64> {
    match previous {
        Some(t) => if elapsed_since(now, t) < SUBSCRIBER_TTL_NS {
            Some(t)
        } else {
            None
        },
        None => None,
    }
}

/// One step of the receive loop on the subscriptions: an expiry run at a
/// time, or a subscription command from an address at a time.
#[derive(Clone, Copy, Debug)]
pub enum SubscriptionStep {
    Expire(u64),
    Command(ClientInterestCommand, ClientAddress, u64),
}

/// When `a` was last heard of after the steps `steps`, applied in order by
/// `Subscribers::expire` and `Subscribers::apply_command` to a table that
/// did not list it.
pub open spec fn seen_after_steps(steps: Seq<SubscriptionStep>, a: ClientAddress) -> Option<u64>
    decreases steps.len(),
{
    if steps.len() == 0 {
        None
    } else {
        let prev = seen_after_steps(steps.drop_last(), a);
        match steps.last() {
            SubscriptionStep::Expire(now) => after_expiry(prev, now),
            SubscriptionStep::Command(c, from, now) => if from == a {
                after_command(prev, c, now)
            } else {
                prev
            },
        }
    }
}

/// The time of the last command from `a` among `steps`, if any.
pub open spec fn last_command_time(steps: Seq<SubscriptionStep>, a: ClientAddress) -> Option<u64>
    decreases steps.len(),
{
    if steps.len() == 0 {
        None
    } else {
        match steps.last() {
            SubscriptionStep::Command(_, from, now) if from == a => Some(now),
            _ => last_command_time(steps.drop_last(), a),
        }
    }
}

/// Step `j` does not end a subscription of `a`: it is no unsubscribe
/// from `a`, and an expiry run finds `a` heard of within the time to live.
pub open spec fn keeps(steps: Seq<SubscriptionStep>, a: ClientAddress, j: int) -> bool {
    match steps[j] {
        SubscriptionStep::Command(c, from, _) => !(from == a && c == ClientInterestCommand::Unsubscribe),
        SubscriptionStep::Expire(now) => match last_command_time(steps.take(j), a) {
            Some(t) => elapsed_since(now, t) < SUBSCRIBER_TTL_NS,
            None => false,
        },
    }
}

/// `a` subscribed at step `i` and no later step ended it.
pub open spec fn kept_since(steps: Seq<SubscriptionStep>, a: ClientAddress, i: int) -> bool {
    &&& 0 <= i < steps.len()
    &&& steps[i] matches SubscriptionStep::Command(c, from, _) && c == ClientInterestCommand::Subscribe && from == a
    &&& forall|j: int| i < j < steps.len() ==> #[trigger] keeps(steps, a, j)
}

proof fn lemma_last_command_prefix(steps: Seq<SubscriptionStep>, a: ClientAddress, j: int)
    requires
        0 <= j < steps.len(),
    ensures
        steps.take(j) == steps.drop_last().take(j),
{
    assert(steps.take(j) =~= steps.drop_last().take(j));
}

/// The receive loop's subscriptions: after any sequence of expiry runs and
/// subscription commands, a client gets feedback exactly when it
/// subscribed and since then neither unsubscribed nor was found silent for
/// the time to live by an expiry run (a heartbeat never subscribes
/// anyone); it is then last heard of at the time of its last command.
pub proof fn law_feedback_recipients(steps: Seq<SubscriptionStep>, a: ClientAddress)
    ensures
        seen_after_steps(steps, a) is Some <==> exists|i: int| kept_since(steps, a, i),
        seen_after_steps(steps, a) is Some ==> seen_after_steps(steps, a) == last_command_time(steps, a),
    decreases steps.len(),
{
    if steps.len() > 0 {
        let rest = steps.drop_last();
        let n = steps.len() - 1;
        law_feedback_recipients(rest, a);
        assert(steps.take(n) =~= rest);
        assert forall|j: int| 0 <= j < n implies #[trigger] keeps(steps, a, j) == keeps(rest, a, j) by {
            lemma_last_command_prefix(steps, a, j);
        }
        // A subscription kept over `rest` and over `steps` start at the same steps.
        assert forall|i: int| 0 <= i < n implies (kept_since(steps, a, i) <==> (kept_since(rest, a, i) && keeps(steps, a, n))) by {
            if kept_since(steps, a, i) {
                assert(keeps(steps, a, n));
                assert forall|j: int| i < j < rest.len() implies #[trigger] keeps(rest, a, j) by {
                    assert(keeps(steps, a, j));
                }
            }
            if kept_since(rest, a, i) && keeps(steps, a, n) {
                assert forall|j: int| i < j < steps.len() implies #[trigger] keeps(steps, a, j) by {
                    if j < n {
                        assert(keeps(rest, a, j));
                    }
                }
            }
        }
        let last = steps.last();
        match last {
            SubscriptionStep::Expire(now) => {
                assert(!kept_since(steps, a, n));
                if exists|i: int| kept_since(steps, a, i) {
                    let i = choose|i: int| kept_since(steps, a, i);
                    assert(kept_since(rest, a, i));
                }
                if exists|i: int| kept_since(rest, a, i) {
                    let i = choose|i: int| kept_since(rest, a, i);
                    if keeps(steps, a, n) {
                        assert(kept_since(steps, a, i));
                    }
                }
            },
            SubscriptionStep::Command(c, from, now) => {
                assert(keeps(steps, a, n) == !(from == a && c == ClientInterestCommand::Unsubscribe));
                if from == a && c == ClientInterestCommand::Subscribe {
                    assert(kept_since(steps, a, n));
                } else {
                    assert(!kept_since(steps, a, n));
                    if exists|i: int| kept_since(steps, a, i) {
                        let i = choose|i: int| kept_since(steps, a, i);
                        assert(kept_since(rest, a, i));
                    }
                    if exists|i: int| kept_since(rest, a, i) {
                        let i = choose|i: int| kept_since(rest, a, i);
                        if keeps(steps, a, n) {
                            assert(kept_since(steps, a, i));
                        }
                    }
                }
            },
        }
    }
}

} // verus!
