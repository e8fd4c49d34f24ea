use vstd::multiset::Multiset;
use vstd::prelude::*;

use crate::seqs::{first_index, lemma_first_index, lemma_first_index_is, lemma_first_index_none};

verus! {

broadcast use vstd::seq_lib::group_seq_properties;

/// Where an effect runs: on the Telegram connection, on the ordered local store, or anywhere.
#[derive(Clone, Copy, Debug, PartialEq, Eq, Structural)]
pub enum EffectRoute {
    Telegram,
    LocalOrdered,
    LocalIndependent,
}

/// The lanes that run one effect at a time, and whether each is taken.
#[derive(Clone, Copy, Debug, PartialEq, Eq, Structural)]
pub struct EffectLanes {
    pub telegram_active: bool,
    pub storage_active: bool,
}

impl EffectLanes {
    /// The lane of `route` is free.
    pub open spec fn admits(self, route: EffectRoute) -> bool {
        match route {
            EffectRoute::Telegram => !self.telegram_active,
            EffectRoute::LocalOrdered => !self.storage_active,
            EffectRoute::LocalIndependent => true,
        }
    }

    pub open spec fn admitted<T>(self) -> spec_fn((EffectRoute, T)) -> bool {
        |e: (EffectRoute, T)| self.admits(e.0)
    }

    /// The lanes once an effect of `route` runs.
    pub open spec fn occupied(self, route: EffectRoute) -> EffectLanes {
        match route {
            EffectRoute::Telegram => EffectLanes { telegram_active: true, ..self },
            EffectRoute::LocalOrdered => EffectLanes { storage_active: true, ..self },
            EffectRoute::LocalIndependent => self,
        }
    }

    /// The lanes once an effect of `route` is done.
    pub open spec fn released(self, route: EffectRoute) -> EffectLanes {
        match route {
            EffectRoute::Telegram => EffectLanes { telegram_active: false, ..self },
            EffectRoute::LocalOrdered => EffectLanes { storage_active: false, ..self },
            EffectRoute::LocalIndependent => self,
        }
    }

    pub fn occupy(&mut self, route: EffectRoute)
        ensures
            *final(self) == old(self).occupied(route),
    {
        match route {
            EffectRoute::Telegram => self.telegram_active = true,
            EffectRoute::LocalOrdered => self.storage_active = true,
            EffectRoute::LocalIndependent => {},
        }
    }

    pub fn release(&mut self, route: EffectRoute)
        ensures
            *final(self) == old(self).released(route),
    {
        match route {
            EffectRoute::Telegram => self.telegram_active = false,
            EffectRoute::LocalOrdered => self.storage_active = false,
            EffectRoute::LocalIndependent => {},
        }
    }
}

/// Starting effects: while slots are left, the first waiting effect whose lane is free starts
/// and takes its lane. The result is what still waits, what started (in order) and the lanes.
pub open spec fn drained<T>(pending: Seq<(EffectRoute, T)>, lanes: EffectLanes, slots: nat) -> (
    Seq<(EffectRoute, T)>,
    Seq<(EffectRoute, T)>,
    EffectLanes,
)
    decreases slots,
{
    if slots == 0 {
        (pending, Seq::empty(), lanes)
    } else {
        match first_index(pending, lanes.admitted()) {
            None => (pending, Seq::empty(), lanes),
            Some(i) => {
                let e = pending[i];
                let (rest, started, last) = drained(pending.remove(i), lanes.occupied(e.0), (slots - 1) as nat);
                (rest, seq![e] + started, last)
            },
        }
    }
}

/// Whether the lane of `route` is taken; the independent route has no lane.
pub open spec fn lane_taken(lanes: EffectLanes, route: EffectRoute) -> bool {
    match route {
        EffectRoute::Telegram => lanes.telegram_active,
        EffectRoute::LocalOrdered => lanes.storage_active,
        EffectRoute::LocalIndependent => false,
    }
}

/// Effects of a lane run one at a time: of the effects started together at most one uses a
/// lane, none when the lane was taken, and afterwards the lane is taken exactly when it was
/// before or a started effect uses it. Every started effect came from the queue, and nothing
/// is lost: what waits and what started make up the queue.
pub proof fn law_lanes_run_one_at_a_time<T>(
    pending: Seq<(EffectRoute, T)>,
    lanes: EffectLanes,
    slots: nat,
    route: EffectRoute,
)
    requires
        route != EffectRoute::LocalIndependent,
    ensures
        ({
            let (rest, started, last) = drained(pending, lanes, slots);
            &&& started.len() <= slots
            &&& forall|i: int, j: int|
                0 <= i < j < started.len() ==> !(started[i].0 == route && started[j].0 == route)
            &&& lane_taken(lanes, route) ==> forall|i: int|
                0 <= i < started.len() ==> started[i].0 != route
            &&& lane_taken(last, route) == (lane_taken(lanes, route) || exists|i: int|
                0 <= i < started.len() && started[i].0 == route)
            &&& rest.to_multiset().add(started.to_multiset()) == pending.to_multiset()
        }),
    decreases slots,
{
    let (rest, started, last) = drained(pending, lanes, slots);
    if slots == 0 || first_index(pending, lanes.admitted::<T>()) is None {
        assert(started =~= Seq::<(EffectRoute, T)>::empty());
        assert(started.to_multiset() =~= Multiset::empty());
    } else {
        lemma_first_index(pending, lanes.admitted::<T>());
        let i = first_index(pending, lanes.admitted::<T>()).unwrap();
        let e = pending[i];
        let smaller = pending.remove(i);
        let next = lanes.occupied(e.0);
        law_lanes_run_one_at_a_time(smaller, next, (slots - 1) as nat, route);
        let (rest2, started2, last2) = drained(smaller, next, (slots - 1) as nat);
        assert(rest == rest2 && started == seq![e] + started2 && last == last2);
        assert(lane_taken(next, route) == (lane_taken(lanes, route) || e.0 == route));
        assert forall|a: int, b: int| 0 <= a < b < started.len() implies !(started[a].0 == route
            && started[b].0 == route) by {
            if a == 0 {
                assert(started[b] == started2[b - 1]);
            } else {
                assert(started[a] == started2[a - 1] && started[b] == started2[b - 1]);
            }
        }
        assert forall|a: int| lane_taken(lanes, route) && 0 <= a < started.len() implies started[a].0 != route by {
            if a > 0 {
                assert(started[a] == started2[a - 1]);
            }
        }
        assert((exists|a: int| 0 <= a < started.len() && started[a].0 == route) == (e.0 == route
            || exists|a: int| 0 <= a < started2.len() && started2[a].0 == route)) by {
            if exists|a: int| 0 <= a < started.len() && started[a].0 == route {
                let a = choose|a: int| 0 <= a < started.len() && started[a].0 == route;
                if a > 0 {
                    assert(started2[a - 1].0 == route);
                }
            }
            if exists|a: int| 0 <= a < started2.len() && started2[a].0 == route {
                let a = choose|a: int| 0 <= a < started2.len() && started2[a].0 == route;
                assert(started[a + 1] == started2[a]);
            }
            if e.0 == route {
                assert(started[0] == e);
            }
        }
        assert(started.to_multiset() =~= started2.to_multiset().insert(e)) by {
            assert(started =~= seq![e] + started2);
            vstd::seq_lib::lemma_multiset_commutative(seq![e], started2);
            assert(seq![e].to_multiset() =~= Multiset::singleton(e)) by {
                assert(seq![e] =~= Seq::<(EffectRoute, T)>::empty().push(e));
                Seq::<(EffectRoute, T)>::empty().to_multiset_ensures();
            }
        }
        pending.to_multiset_ensures();
        smaller.to_multiset_ensures();
        assert(pending.to_multiset() =~= smaller.to_multiset().insert(e)) by {
            vstd::seq_lib::lemma_seq_union_to_multiset_commutative(pending.take(i), pending.skip(i + 1));
            assert(smaller =~= pending.take(i) + pending.skip(i + 1));
            assert(pending =~= pending.take(i) + (seq![e] + pending.skip(i + 1)));
            vstd::seq_lib::lemma_multiset_commutative(pending.take(i), seq![e] + pending.skip(i + 1));
            vstd::seq_lib::lemma_multiset_commutative(seq![e], pending.skip(i + 1));
            vstd::seq_lib::lemma_multiset_commutative(pending.take(i), pending.skip(i + 1));
            assert(seq![e] =~= Seq::<(EffectRoute, T)>::empty().push(e));
            Seq::<(EffectRoute, T)>::empty().to_multiset_ensures();
        }
    }
}

/// Position of the first waiting effect whose lane is free.
pub fn next_startable<T>(pending: &Vec<(EffectRoute, T)>, lanes: &EffectLanes) -> (r: Option<usize>)
    ensures
        match r {
            Some(i) => i < pending.len() && first_index(pending@, lanes.admitted()) == Some(i as int),
            None => first_index(pending@, lanes.admitted()) is None,
        },
{
    let ghost p = lanes.admitted::<T>();
    let mut i: usize = 0;
    while i < pending.len()
        invariant
            p == lanes.admitted::<T>(),
            i <= pending.len(),
            forall|j: int| 0 <= j < i ==> !p(#[trigger] pending@[j]),
        decreases pending.len() - i,
    {
        let free = match pending[i].0 {
            EffectRoute::Telegram => !lanes.telegram_active,
            EffectRoute::LocalOrdered => !lanes.storage_active,
            EffectRoute::LocalIndependent => true,
        };
        if free {
            proof {
                lemma_first_index_is(pending@, p, i as int);
            }
            return Some(i);
        }
        i = i + 1;
    }
    proof {
        lemma_first_index_none(pending@, p);
    }
    None
}

/// Starts what can start: at most `slots` effects, each the first waiting one whose lane is
/// free, taking its lane.
pub fn start_ready<T>(pending: &mut Vec<(EffectRoute, T)>, lanes: &mut EffectLanes, slots: usize) -> (started:
    Vec<(EffectRoute, T)>)
    ensures
        (final(pending)@, started@, *final(lanes)) == drained(old(pending)@, *old(lanes), slots as nat),
{
    let ghost target = drained(old(pending)@, *old(lanes), slots as nat);
    let mut started: Vec<(EffectRoute, T)> = Vec::new();
    let mut left = slots;
    let mut done = false;
    while left > 0 && !done
        invariant
            target == ({
                let (rest, later, last) = drained(pending@, *lanes, left as nat);
                (rest, started@ + later, last)
            }),
            done ==> drained(pending@, *lanes, left as nat) == (pending@, Seq::<(EffectRoute, T)>::empty(), *lanes),
        decreases left + if done {
            0int
        } else {
            1int
        },
    {
        match next_startable(pending, lanes) {
            None => {
                done = true;
            },
            Some(i) => {
                proof {
                    lemma_first_index(pending@, lanes.admitted::<T>());
                }
                let ghost before = pending@;
                let ghost before_lanes = *lanes;
                let e = pending.remove(i);
                lanes.occupy(e.0);
                let ghost s0 = started@;
                started.push(e);
                proof {
                    let (rest, later, last) = drained(pending@, *lanes, (left - 1) as nat);
                    assert(drained(before, before_lanes, left as nat) == (rest, seq![e] + later, last));
                    assert(s0 + (seq![e] + later) =~= started@ + later);
                }
                left = left - 1;
            },
        }
    }
    proof {
        if !done {
            assert(left == 0);
        }
        let (rest, later, last) = drained(pending@, *lanes, left as nat);
        assert(later =~= Seq::<(EffectRoute, T)>::empty());
        assert(started@ + later =~= started@);
    }
    started
}

} // verus!
