//! The sessions that are watched for changes.
use crate::platform::session_state_expired;
use vstd::prelude::*;

verus! {

/// The state of a session that has expired.
pub const EXPIRED: i32 = 2;

/// The session is alive: it tells its state, and that is not that it has expired.
pub open spec fn is_live(state: Option<i32>) -> bool {
    state matches Some(state) && state != EXPIRED
}

/// Tells whether a session with this state is alive.
pub fn live(state: Option<i32>) -> (live: bool)
    ensures
        live == is_live(state),
{
    match state {
        Some(state) => state != session_state_expired(),
        None => false,
    }
}

/// The items whose sessions are alive (or are not), in the order in which they came.
pub open spec fn selected<T>(items: Seq<T>, states: Seq<Option<i32>>, alive: bool) -> Seq<T>
    decreases items.len(),
{
    if items.len() == 0 {
        Seq::empty()
    } else {
        let earlier = selected(items.drop_last(), states.drop_last(), alive);
        if is_live(states.last()) == alive {
            earlier.push(items.last())
        } else {
            earlier
        }
    }
}

/// The watched sessions once a newcomer has been added.
pub open spec fn joined<T>(watched: Seq<T>, states: Seq<Option<i32>>, newcomer: T) -> Seq<T> {
    selected(watched, states, true).push(newcomer)
}

/// Adds a newcomer to the watched sessions and dismisses those that have expired;
/// `states` tells the state of each, where it is known.
pub fn welcome<T>(watched: &mut Vec<T>, states: &Vec<Option<i32>>, newcomer: T) -> (dismissed: Vec<
    T,
>)
    requires
        old(watched)@.len() == states@.len(),
    ensures
        final(watched)@ == selected(old(watched)@, states@, true).push(newcomer),
        dismissed@ == selected(old(watched)@, states@, false),
        final(watched)@ == joined(old(watched)@, states@, newcomer),
        final(watched)@.len() + dismissed@.len() == old(watched)@.len() + 1,
{
    let ghost before = watched@;
    let mut dismissed: Vec<T> = Vec::new();
    let mut kept: usize = 0;
    let mut seen: usize = 0;
    assert(watched@ =~= before.skip(0));
    while seen < states.len()
        invariant
            seen <= states@.len(),
            before.len() == states@.len(),
            kept <= seen,
            selected(before.take(seen as int), states@.take(seen as int), true).len() == kept,
            watched@ == selected(before.take(seen as int), states@.take(seen as int), true)
                + before.skip(seen as int),
            dismissed@ == selected(before.take(seen as int), states@.take(seen as int), false),
        decreases states@.len() - seen,
    {
        proof {
            let n = seen as int;
            assert(before.take(n + 1).drop_last() =~= before.take(n));
            assert(states@.take(n + 1).drop_last() =~= states@.take(n));
            assert(watched@[kept as int] == before[n]);
        }
        let ghost current = watched@;
        if live(states[seen]) {
            kept = kept + 1;
            proof {
                let n = seen as int;
                assert(current =~= selected(before.take(n + 1), states@.take(n + 1), true)
                    + before.skip(n + 1));
            }
        } else {
            let gone = watched.remove(kept);
            dismissed.push(gone);
            proof {
                let n = seen as int;
                assert(watched@ =~= selected(before.take(n + 1), states@.take(n + 1), true)
                    + before.skip(n + 1));
            }
        }
        seen = seen + 1;
    }
    proof {
        assert(before.take(before.len() as int) =~= before);
        assert(states@.take(states@.len() as int) =~= states@);
        assert(watched@ =~= selected(before, states@, true));
        lemma_how_many_are_kept(before, states@);
    }
    watched.push(newcomer);
    dismissed
}

/// A session is alive exactly where its state is known and is not 2.
pub proof fn lemma_who_is_alive(state: Option<i32>)
    ensures
        is_live(state) == (state is Some && state != Some(2i32)),
{
}

/// The places, in the list, of the sessions that are selected.
spec fn places(states: Seq<Option<i32>>, alive: bool) -> Seq<int>
    decreases states.len(),
{
    if states.len() == 0 {
        Seq::empty()
    } else {
        let earlier = places(states.drop_last(), alive);
        let last = states.last();
        if (last is Some && last != Some(2i32)) == alive {
            earlier.push(states.len() - 1)
        } else {
            earlier
        }
    }
}

/// The sessions kept are exactly those whose state is known and is not 2, and those
/// dismissed are exactly the others, both in the order of the list: each selected item
/// stands at a place of the list, the places ascend, and no place that fits is left out.
pub proof fn lemma_who_is_selected<T>(items: Seq<T>, states: Seq<Option<i32>>, alive: bool) -> (at:
    Seq<int>)
    requires
        items.len() == states.len(),
    ensures
        at.len() == selected(items, states, alive).len(),
        forall|k: int|
            0 <= k < at.len() ==> 0 <= #[trigger] at[k] < items.len() && selected(
                items,
                states,
                alive,
            )[k] == items[at[k]],
        forall|k: int, l: int| 0 <= k < l < at.len() ==> at[k] < at[l],
        forall|i: int|
            0 <= i < items.len() ==> #[trigger] at.contains(i) == ((states[i] is Some && states[i]
                != Some(2i32)) == alive),
{
    let at = places(states, alive);
    lemma_places(states, alive);
    lemma_places_fit(items, states, alive);
    at
}

proof fn lemma_places(states: Seq<Option<i32>>, alive: bool)
    ensures
        forall|k: int|
            0 <= k < places(states, alive).len() ==> 0 <= #[trigger] places(states, alive)[k]
                < states.len(),
        forall|k: int, l: int|
            0 <= k < l < places(states, alive).len() ==> places(states, alive)[k] < places(
                states,
                alive,
            )[l],
        forall|i: int|
            0 <= i < states.len() ==> #[trigger] places(states, alive).contains(i) == ((
            states[i] is Some && states[i] != Some(2i32)) == alive),
    decreases states.len(),
{
    if states.len() > 0 {
        let before = states.drop_last();
        lemma_places(before, alive);
        let earlier = places(before, alive);
        let at = places(states, alive);
        let last = states.len() - 1;
        assert forall|i: int| 0 <= i < states.len() implies #[trigger] at.contains(i) == ((
        states[i] is Some && states[i] != Some(2i32)) == alive) by {
            if i < last {
                assert(states[i] == before[i]);
                assert(earlier.contains(i) == ((before[i] is Some && before[i] != Some(2i32))
                    == alive));
                if earlier.contains(i) {
                    let k = choose|k: int| 0 <= k < earlier.len() && earlier[k] == i;
                    assert(at[k] == i);
                }
                if at.contains(i) {
                    let k = choose|k: int| 0 <= k < at.len() && at[k] == i;
                    assert(k < earlier.len());
                    assert(earlier[k] == i);
                }
            } else {
                if at.len() > earlier.len() {
                    assert(at[at.len() - 1] == i);
                }
            }
        }
    }
}

proof fn lemma_places_fit<T>(items: Seq<T>, states: Seq<Option<i32>>, alive: bool)
    requires
        items.len() == states.len(),
    ensures
        selected(items, states, alive).len() == places(states, alive).len(),
        forall|k: int|
            0 <= k < places(states, alive).len() ==> #[trigger] selected(items, states, alive)[k]
                == items[places(states, alive)[k]],
    decreases items.len(),
{
    if items.len() > 0 {
        lemma_places_fit(items.drop_last(), states.drop_last(), alive);
        lemma_places(states.drop_last(), alive);
    }
}

/// As many sessions are kept and dismissed as were watched.
pub proof fn lemma_how_many_are_kept<T>(items: Seq<T>, states: Seq<Option<i32>>)
    requires
        items.len() == states.len(),
    ensures
        selected(items, states, true).len() + selected(items, states, false).len() == items.len(),
    decreases items.len(),
{
    if items.len() > 0 {
        lemma_how_many_are_kept(items.drop_last(), states.drop_last());
    }
}

/// Every watched session is either kept or dismissed, never both.
pub proof fn lemma_nothing_is_lost<T>(items: Seq<T>, states: Seq<Option<i32>>)
    requires
        items.len() == states.len(),
    ensures
        selected(items, states, true).to_multiset().add(
            selected(items, states, false).to_multiset(),
        ) == items.to_multiset(),
    decreases items.len(),
{
    broadcast use vstd::seq_lib::group_to_multiset_ensures;

    if items.len() > 0 {
        lemma_nothing_is_lost(items.drop_last(), states.drop_last());
        assert(items.drop_last().push(items.last()) =~= items);
        assert(selected(items, states, true).to_multiset().add(
            selected(items, states, false).to_multiset(),
        ) =~= items.to_multiset());
    } else {
        assert(items =~= Seq::empty());
    }
}

/// Where no session has expired, all of them are kept, in order.
pub proof fn lemma_the_living_stay<T>(items: Seq<T>, states: Seq<Option<i32>>)
    requires
        items.len() == states.len(),
        forall|k: int| 0 <= k < states.len() ==> is_live(#[trigger] states[k]),
    ensures
        selected(items, states, true) == items,
        selected(items, states, false) == Seq::<T>::empty(),
    decreases items.len(),
{
    if items.len() > 0 {
        lemma_the_living_stay(items.drop_last(), states.drop_last());
        assert(items.drop_last().push(items.last()) =~= items);
    } else {
        assert(items =~= Seq::empty());
    }
}

/// Where the handling of a new session stands.
#[derive(Clone, Copy, Debug, PartialEq, Eq, Structural)]
pub enum Arrival {
    /// The extended control of the session is obtained.
    Control,
    /// The session is asked to report its changes.
    Register,
    /// The session is added to the watched ones, if these are kept at the moment.
    Admit,
    End,
}

impl Arrival {
    /// The handling of a new session, before its first call.
    pub open spec fn of(present: bool) -> Arrival {
        if present {
            Arrival::Control
        } else {
            Arrival::End
        }
    }

    /// Where the handling goes once the step at hand has succeeded or failed.
    pub open spec fn after(self, succeeded: bool) -> Arrival {
        match self {
            Arrival::Control if succeeded => Arrival::Register,
            Arrival::Register if succeeded => Arrival::Admit,
            _ => Arrival::End,
        }
    }

    /// Begins to handle a new session; `present` tells whether the report names one.
    pub fn start(present: bool) -> (arrival: Arrival)
        ensures
            arrival == Arrival::of(present),
    {
        if present {
            Arrival::Control
        } else {
            Arrival::End
        }
    }

    /// Goes on after the step at hand.
    pub fn advance(self, succeeded: bool) -> (next: Arrival)
        ensures
            next == self.after(succeeded),
    {
        match (self, succeeded) {
            (Arrival::Control, true) => Arrival::Register,
            (Arrival::Register, true) => Arrival::Admit,
            _ => Arrival::End,
        }
    }
}

/// A newcomer is watched from then on, behind those that are kept: every session whose state
/// is known and is not 2 is still watched, and nothing is watched that was not watched
/// before.
pub proof fn lemma_newcomer_is_watched<T>(watched: Seq<T>, states: Seq<Option<i32>>, newcomer: T)
    requires
        watched.len() == states.len(),
    ensures
        ({
            let now = joined(watched, states, newcomer);
            &&& 0 < now.len() <= watched.len() + 1
            &&& now.last() == newcomer
            &&& forall|i: int|
                0 <= i < watched.len() && (#[trigger] states[i]) is Some && states[i] != Some(2i32)
                    ==> now.drop_last().contains(watched[i])
            &&& forall|k: int|
                0 <= k < now.len() - 1 ==> watched.contains(#[trigger] now[k])
        }),
{
    let now = joined(watched, states, newcomer);
    let kept = selected(watched, states, true);
    let at = lemma_who_is_selected(watched, states, true);
    lemma_how_many_are_kept(watched, states);
    assert(now.drop_last() =~= kept);
    assert forall|i: int|
        0 <= i < watched.len() && (#[trigger] states[i]) is Some && states[i] != Some(
            2i32,
        ) implies now.drop_last().contains(watched[i]) by {
        assert(at.contains(i));
        let k = choose|k: int| 0 <= k < at.len() && at[k] == i;
        assert(kept[k] == watched[i]);
    }
    assert forall|k: int| 0 <= k < now.len() - 1 implies watched.contains(#[trigger] now[k]) by {
        assert(now[k] == watched[at[k]]);
    }
}

/// A new session is asked for its extended control, then to report its changes, and is then
/// admitted. The first step that fails is the last, and nothing follows the admission.
pub proof fn lemma_steps_of_an_arrival(succeeded: bool)
    ensures
        Arrival::of(true) == Arrival::Control,
        Arrival::of(false) == Arrival::End,
        Arrival::Control.after(true) == Arrival::Register,
        Arrival::Register.after(true) == Arrival::Admit,
        Arrival::Control.after(false) == Arrival::End,
        Arrival::Register.after(false) == Arrival::End,
        Arrival::Admit.after(succeeded) == Arrival::End,
        Arrival::End.after(succeeded) == Arrival::End,
{
}

/// A new session is watched exactly where the report names it, it offers the extended
/// control, and it agrees to report its changes.
pub proof fn lemma_who_is_admitted(present: bool, controllable: bool, registered: bool)
    ensures
        (Arrival::of(present).after(controllable).after(registered) == Arrival::Admit) == (present
            && controllable && registered),
{
}

} // verus!
