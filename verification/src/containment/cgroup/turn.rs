//! Turns on a leaf's one held drain watch.
//!
//! A leaf holds a single inotify instance for its life, and two waiters cannot share one: each would
//! consume events the other needs. So waits take turns, first come, first served. A waiter that
//! finishes, or gives up while queued, hands the watch to the next.

use vstd::prelude::*;

verus! {

/// Whose turn it is on a leaf's watch, and who is queued for it.
#[derive(Debug)]
pub struct WatchTurns {
    /// Whether someone holds the turn.
    busy: bool,
    /// The tickets of the queued, first come first.
    queue: Vec<u64>,
    /// The next ticket.
    next: u64,
}

/// What asking for a turn gave.
#[derive(Debug, Clone, Copy, PartialEq, Eq, Structural)]
pub enum Asked {
    /// The turn.
    Turn,
    /// A place in the queue.
    Queued(u64),
}

/// The tickets of `queued` but `ticket`, in their order.
pub open spec fn without(queued: Seq<u64>, ticket: u64) -> Seq<u64>
    decreases queued.len(),
{
    if queued.len() == 0 {
        queued
    } else if queued.last() == ticket {
        without(queued.drop_last(), ticket)
    } else {
        without(queued.drop_last(), ticket).push(queued.last())
    }
}

impl WatchTurns {
    /// Tickets are handed out in order, so the queue ascends and holds none twice.
    #[verifier::type_invariant]
    spec fn ordered(self) -> bool {
        &&& forall|i: int, j: int| 0 <= i < j < self.queue@.len() ==> self.queue@[i] < self.queue@[j]
        &&& forall|i: int| 0 <= i < self.queue@.len() ==> self.queue@[i] < self.next
    }

    /// Whether someone holds the turn.
    pub closed spec fn held(&self) -> bool {
        self.busy
    }

    /// The tickets of the queued, first come first.
    pub closed spec fn queued(&self) -> Seq<u64> {
        self.queue@
    }

    /// How many tickets have been handed out.
    pub closed spec fn issued(&self) -> u64 {
        self.next
    }

    /// Whether the turn is `ticket`'s to take: it is free, and the ticket is first in the queue.
    pub open spec fn serves(&self, ticket: u64) -> bool {
        !self.held() && self.queued().len() > 0 && self.queued()[0] == ticket
    }

    /// Whether the turn is there for whoever asks: it is free, and nobody is queued.
    pub open spec fn serves_newcomer(&self) -> bool {
        !self.held() && self.queued().len() == 0
    }

    /// The turn is free and nobody is queued.
    pub fn new() -> (t: WatchTurns)
        ensures
            !t.held(),
            t.queued() == Seq::<u64>::empty(),
            t.issued() == 0,
    {
        WatchTurns { busy: false, queue: Vec::new(), next: 0 }
    }

    /// Whether a further ticket can be handed out.
    pub fn has_tickets(&self) -> (r: bool)
        ensures
            r == (self.issued() < u64::MAX),
    {
        self.next < u64::MAX
    }

    /// Ask for a turn. It is given only where it is free and nobody came before.
    pub fn ask(&mut self) -> (a: Asked)
        requires
            old(self).issued() < u64::MAX,
        ensures
            final(self).held() == (old(self).held() || a == Asked::Turn),
            a == (if old(self).serves_newcomer() {
                Asked::Turn
            } else {
                Asked::Queued(old(self).issued())
            }),
            final(self).queued() == (if a == Asked::Turn {
                old(self).queued()
            } else {
                old(self).queued().push(old(self).issued())
            }),
            final(self).issued() == old(self).issued() + (if a == Asked::Turn {
                0int
            } else {
                1
            }),
    {
        proof {
            use_type_invariant(&*self);
        }
        if !self.busy && self.queue.len() == 0 {
            self.busy = true;
            return Asked::Turn;
        }
        let ticket: u64 = self.next;
        let mut queue: Vec<u64> = Vec::new();
        std::mem::swap(&mut queue, &mut self.queue);
        queue.push(ticket);
        self.next = ticket + 1;
        self.queue = queue;
        Asked::Queued(ticket)
    }

    /// Take the turn with the ticket `ticket`. It is given only where it is free and the ticket is
    /// first in the queue.
    pub fn try_take(&mut self, ticket: u64) -> (taken: bool)
        ensures
            taken == old(self).serves(ticket),
            taken ==> final(self).held() && final(self).queued() == old(self).queued().skip(1),
            !taken ==> final(self).held() == old(self).held() && final(self).queued() == old(
                self,
            ).queued(),
            final(self).issued() == old(self).issued(),
    {
        proof {
            use_type_invariant(&*self);
        }
        if self.busy || self.queue.len() == 0 || self.queue[0] != ticket {
            return false;
        }
        let mut queue: Vec<u64> = Vec::new();
        std::mem::swap(&mut queue, &mut self.queue);
        let ghost before = queue@;
        queue.remove(0);
        assert(queue@ =~= before.skip(1));
        self.queue = queue;
        self.busy = true;
        true
    }

    /// Leave the queue with the ticket `ticket`. The others keep their order.
    pub fn give_up(&mut self, ticket: u64)
        ensures
            final(self).queued() == without(old(self).queued(), ticket),
            final(self).held() == old(self).held(),
            final(self).issued() == old(self).issued(),
    {
        proof {
            use_type_invariant(&*self);
        }
        let mut old_queue: Vec<u64> = Vec::new();
        std::mem::swap(&mut old_queue, &mut self.queue);
        let mut queue: Vec<u64> = Vec::new();
        let mut i: usize = 0;
        let ghost next = self.next;
        assert(old_queue@.take(0) =~= Seq::<u64>::empty());
        while i < old_queue.len()
            invariant
                i <= old_queue@.len(),
                next == self.next,
                queue@ == without(old_queue@.take(i as int), ticket),
                forall|a: int, b: int|
                    0 <= a < b < old_queue@.len() ==> old_queue@[a] < old_queue@[b],
                forall|a: int| 0 <= a < old_queue@.len() ==> old_queue@[a] < next,
                forall|a: int, b: int| 0 <= a < b < queue@.len() ==> queue@[a] < queue@[b],
                forall|a: int| 0 <= a < queue@.len() ==> queue@[a] < next,
                forall|a: int, b: int|
                    #![trigger queue@[a], old_queue@[b]]
                    0 <= a < queue@.len() && i <= b < old_queue@.len() ==> queue@[a] < old_queue@[b],
            decreases old_queue@.len() - i,
        {
            proof {
                let grown = old_queue@.take(i + 1);
                assert(grown.drop_last() =~= old_queue@.take(i as int));
                assert(grown.last() == old_queue@[i as int]);
            }
            if old_queue[i] != ticket {
                queue.push(old_queue[i]);
            }
            i += 1;
        }
        assert(old_queue@.take(i as int) =~= old_queue@);
        self.queue = queue;
    }

    /// Give the turn back.
    pub fn release(&mut self)
        ensures
            !final(self).held(),
            final(self).queued() == old(self).queued(),
            final(self).issued() == old(self).issued(),
    {
        proof {
            use_type_invariant(&*self);
        }
        self.busy = false;
    }
}

/// The watch is used by one waiter at a time: while someone holds the turn, it is nobody else's to
/// take, neither with a ticket nor by asking.
pub proof fn law_one_waiter_at_a_time(turns: WatchTurns, ticket: u64)
    requires
        turns.held(),
    ensures
        !turns.serves(ticket),
        !turns.serves_newcomer(),
{
}

/// Turns go to whoever came first. A free turn that someone is queued for is the first in the
/// queue's to take and nobody else's: not a later ticket's, and not one's who asks only now.
pub proof fn law_first_come_first_served(turns: WatchTurns, other: u64)
    requires
        !turns.held(),
        turns.queued().len() > 0,
    ensures
        turns.serves(turns.queued()[0]),
        turns.serves(other) ==> other == turns.queued()[0],
        !turns.serves_newcomer(),
{
}

/// A waiter that gives up leaves no gap: everyone else stays queued in the same order, and where it
/// was the only one, the turn is free for whoever asks.
pub proof fn law_giving_up_leaves_no_gap(queued: Seq<u64>, ticket: u64)
    ensures
        without(queued, ticket) == queued.filter(|other: u64| other != ticket),
        !without(queued, ticket).contains(ticket),
        forall|other: u64|
            other != ticket ==> (queued.contains(other) <==> #[trigger] without(
                queued,
                ticket,
            ).contains(other)),
        queued == seq![ticket] ==> without(queued, ticket).len() == 0,
        without(queued, ticket).len() <= queued.len(),
    decreases queued.len(),
{
    reveal(Seq::filter);
    if queued.len() > 0 {
        let rest = queued.drop_last();
        let last = queued.last();
        let kept = without(rest, ticket);
        law_giving_up_leaves_no_gap(rest, ticket);
        assert(queued =~= rest.push(last));
        assert forall|other: u64| #[trigger] queued.contains(other) <==> rest.contains(other)
            || other == last by {
            if rest.contains(other) {
                let i = choose|i: int| 0 <= i < rest.len() && rest[i] == other;
                assert(queued[i] == other);
            }
            assert(queued[queued.len() - 1] == last);
        }
        assert forall|other: u64| #[trigger] kept.push(last).contains(other) <==> kept.contains(
            other,
        ) || other == last by {
            if kept.contains(other) {
                let i = choose|i: int| 0 <= i < kept.len() && kept[i] == other;
                assert(kept.push(last)[i] == other);
            }
            assert(kept.push(last)[kept.len() as int] == last);
        }
        if queued == seq![ticket] {
            assert(last == ticket);
        }
    }
}

/// A free turn that nobody is queued for is there for whoever asks, and for nobody's ticket; and the
/// turn is always somebody's to take unless somebody holds it.
pub proof fn law_a_free_turn_is_somebodys(turns: WatchTurns, ticket: u64)
    requires
        !turns.held(),
    ensures
        turns.queued().len() == 0 ==> turns.serves_newcomer() && !turns.serves(ticket),
        turns.serves_newcomer() || turns.serves(turns.queued()[0]),
{
}

} // verus!
