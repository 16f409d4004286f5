//! The dispatch engine: one ordered listener list per category ordinal.

use vstd::prelude::*;

verus! {

/// The call named an ordinal that the engine has no listener list for.
#[derive(Debug, Clone, Copy, PartialEq, Eq, Structural)]
pub struct CapacityExceeded {
    /// The ordinal that the caller asked for.
    pub ordinal: usize,
    /// The number of listener lists that the engine owns.
    pub capacity: usize,
}

/// What one `fire` did.
#[derive(Debug, Clone, Copy, PartialEq, Eq, Structural)]
pub struct FireOutcome {
    /// How many callbacks ran, counted from the head of the listener list.
    pub invoked: usize,
    /// Whether the last callback that ran returned `true`.
    pub handled: bool,
}

/// `outcome` is a run of `listeners` on `payload`: the first `invoked`
/// callbacks ran in list order, each returned `false` except that the last one
/// returned `true` when the event was handled, and an unhandled event reached
/// the end of the list.
pub open spec fn dispatched<P, F: Fn(&P) -> bool>(
    listeners: Seq<F>,
    payload: &P,
    outcome: FireOutcome,
) -> bool {
    &&& outcome.invoked <= listeners.len()
    &&& outcome.handled ==> outcome.invoked >= 1
    &&& !outcome.handled ==> outcome.invoked == listeners.len()
    &&& forall|i: int|
        0 <= i < outcome.invoked ==> call_ensures(
            #[trigger] listeners[i],
            (payload,),
            outcome.handled && i == outcome.invoked - 1,
        )
}

/// Every callback of `listeners` may be called on `payload`.
pub open spec fn accepts<P, F: Fn(&P) -> bool>(listeners: Seq<F>, payload: &P) -> bool {
    forall|i: int| 0 <= i < listeners.len() ==> call_requires(#[trigger] listeners[i], (payload,))
}

/// `callback` cannot return `true` on `payload`.
pub open spec fn declines<P, F: Fn(&P) -> bool>(callback: F, payload: &P) -> bool {
    !call_ensures(callback, (payload,), true)
}

/// `callback` cannot return `false` on `payload`.
pub open spec fn handles<P, F: Fn(&P) -> bool>(callback: F, payload: &P) -> bool {
    !call_ensures(callback, (payload,), false)
}

/// The listener table of an engine with `capacity` categories and no
/// listeners.
pub open spec fn empty_table<F>(capacity: nat) -> Seq<Seq<F>> {
    Seq::new(capacity, |k: int| Seq::<F>::empty())
}

/// `table` after `callback` was appended to the listener list of `ordinal`.
pub open spec fn registered<F>(table: Seq<Seq<F>>, ordinal: int, callback: F) -> Seq<Seq<F>> {
    table.update(ordinal, table[ordinal].push(callback))
}

/// Calls `listeners` on `payload` in order, up to and including the first that
/// returns `true`.
pub fn run_listeners<P, F: Fn(&P) -> bool>(listeners: &Vec<F>, payload: &P) -> (outcome:
    FireOutcome)
    requires
        accepts(listeners@, payload),
    ensures
        dispatched(listeners@, payload, outcome),
{
    let mut i: usize = 0;
    while i < listeners.len()
        invariant
            i <= listeners.len(),
            accepts(listeners@, payload),
            forall|j: int| 0 <= j < i ==> call_ensures(#[trigger] listeners@[j], (payload,), false),
        decreases listeners.len() - i,
    {
        let handled = (listeners[i])(payload);
        i = i + 1;
        if handled {
            return FireOutcome { invoked: i, handled: true };
        }
    }
    FireOutcome { invoked: i, handled: false }
}

/// A dispatch engine with a fixed number of categories, each with its own
/// list of callbacks of type `F`.
pub struct Events<F> {
    listeners: Vec<Vec<F>>,
}

impl<F> View for Events<F> {
    type V = Seq<Seq<F>>;

    /// The listener table: entry `k` is the listener list of ordinal `k`, in
    /// registration order.
    closed spec fn view(&self) -> Seq<Seq<F>> {
        Seq::new(self.listeners@.len(), |k: int| self.listeners@[k]@)
    }
}

impl<F> Events<F> {
    /// An engine with `capacity` categories and no listeners.
    pub fn new(capacity: usize) -> (events: Self)
        ensures
            events@ == empty_table::<F>(capacity as nat),
    {
        let mut listeners: Vec<Vec<F>> = Vec::with_capacity(capacity);
        let mut k: usize = 0;
        while k < capacity
            invariant
                k <= capacity,
                listeners@.len() == k,
                forall|j: int| 0 <= j < k ==> (#[trigger] listeners@[j])@ == Seq::<F>::empty(),
            decreases capacity - k,
        {
            listeners.push(Vec::new());
            k = k + 1;
        }
        let events = Events { listeners };
        assert(events@ =~= empty_table::<F>(capacity as nat));
        events
    }

    /// The number of categories.
    pub fn capacity(&self) -> (capacity: usize)
        ensures
            capacity == self@.len(),
    {
        self.listeners.len()
    }

    /// Appends `callback` to the listener list of `ordinal`. An ordinal that is
    /// not below the capacity is refused and leaves the engine as it was.
    pub fn register(&mut self, ordinal: usize, callback: F) -> (result: Result<
        (),
        CapacityExceeded,
    >)
        ensures
            match result {
                Ok(()) => {
                    &&& ordinal < old(self)@.len()
                    &&& final(self)@ == registered(old(self)@, ordinal as int, callback)
                },
                Err(e) => {
                    &&& ordinal >= old(self)@.len()
                    &&& e == (CapacityExceeded { ordinal, capacity: old(self)@.len() as usize })
                    &&& final(self)@ == old(self)@
                },
            },
    {
        let capacity = self.listeners.len();
        if ordinal >= capacity {
            return Err(CapacityExceeded { ordinal, capacity });
        }
        self.listeners[ordinal].push(callback);
        assert(self@ =~= registered(old(self)@, ordinal as int, callback));
        Ok(())
    }

    /// Fires the category `ordinal` with `payload`: the callbacks of its list
    /// are called on `payload` in registration order, up to and including the
    /// first that returns `true`. An ordinal that is not below the capacity is
    /// refused before any callback is called. The engine is borrowed shared,
    /// so no listener list changes while a fire is under way.
    pub fn fire<P>(&self, ordinal: usize, payload: &P) -> (result: Result<
        FireOutcome,
        CapacityExceeded,
    >) where F: Fn(&P) -> bool
        requires
            ordinal < self@.len() ==> accepts(self@[ordinal as int], payload),
        ensures
            match result {
                Ok(outcome) => {
                    &&& ordinal < self@.len()
                    &&& dispatched(self@[ordinal as int], payload, outcome)
                },
                Err(e) => {
                    &&& ordinal >= self@.len()
                    &&& e == (CapacityExceeded { ordinal, capacity: self@.len() as usize })
                },
            },
    {
        let capacity = self.listeners.len();
        if ordinal >= capacity {
            return Err(CapacityExceeded { ordinal, capacity });
        }
        Ok(run_listeners(&self.listeners[ordinal], payload))
    }
}

/// Registration appends: the new callback stands last in the list of its
/// category, behind the callbacks registered before it and in their order, and
/// every other category keeps its list.
pub proof fn law_registration_appends<F>(table: Seq<Seq<F>>, ordinal: int, callback: F)
    requires
        0 <= ordinal < table.len(),
    ensures
        registered(table, ordinal, callback).len() == table.len(),
        registered(table, ordinal, callback)[ordinal].len() == table[ordinal].len() + 1,
        registered(table, ordinal, callback)[ordinal].last() == callback,
        forall|i: int|
            0 <= i < table[ordinal].len() ==> registered(table, ordinal, callback)[ordinal][i]
                == table[ordinal][i],
        forall|k: int|
            0 <= k < table.len() && k != ordinal ==> registered(table, ordinal, callback)[k]
                == table[k],
{
}

/// A callback registered on a category that has no other listener runs exactly
/// once, on the payload that was fired, when that category is fired, and the
/// event is handled if and only if the callback said so.
pub proof fn law_single_listener_runs_once<P, F: Fn(&P) -> bool>(
    table: Seq<Seq<F>>,
    ordinal: int,
    callback: F,
    payload: &P,
    outcome: FireOutcome,
)
    requires
        0 <= ordinal < table.len(),
        table[ordinal].len() == 0,
        dispatched(registered(table, ordinal, callback)[ordinal], payload, outcome),
    ensures
        outcome.invoked == 1,
        call_ensures(callback, (payload,), outcome.handled),
{
    let listeners = registered(table, ordinal, callback)[ordinal];
    assert(listeners[0] == callback);
    if outcome.invoked == 1 {
        assert(call_ensures(listeners[0], (payload,), outcome.handled));
    }
}

/// Firing stops at the first callback that handles the event: when every
/// callback before position `handler` declines `payload` and the one at
/// `handler` handles it, exactly the callbacks up to and including `handler`
/// run, and none behind it.
pub proof fn law_first_handler_stops<P, F: Fn(&P) -> bool>(
    listeners: Seq<F>,
    payload: &P,
    handler: int,
    outcome: FireOutcome,
)
    requires
        0 <= handler < listeners.len(),
        forall|i: int| 0 <= i < handler ==> declines(#[trigger] listeners[i], payload),
        handles(listeners[handler], payload),
        dispatched(listeners, payload, outcome),
    ensures
        outcome.handled,
        outcome.invoked == handler + 1,
{
    if outcome.invoked > handler + 1 {
        assert(call_ensures(listeners[handler], (payload,), false));
    } else if outcome.invoked <= handler {
        assert(call_ensures(listeners[outcome.invoked - 1], (payload,), true));
    } else {
        assert(call_ensures(listeners[handler], (payload,), outcome.handled));
    }
}

/// When every callback of the list declines `payload`, all of them run and
/// the event stays unhandled.
pub proof fn law_unhandled_runs_all<P, F: Fn(&P) -> bool>(
    listeners: Seq<F>,
    payload: &P,
    outcome: FireOutcome,
)
    requires
        forall|i: int| 0 <= i < listeners.len() ==> declines(#[trigger] listeners[i], payload),
        dispatched(listeners, payload, outcome),
    ensures
        !outcome.handled,
        outcome.invoked == listeners.len(),
{
    if outcome.handled {
        assert(call_ensures(listeners[outcome.invoked - 1], (payload,), true));
    }
}

/// Firing a category that has no listeners runs nothing and handles nothing.
pub proof fn law_empty_category_is_noop<P, F: Fn(&P) -> bool>(
    listeners: Seq<F>,
    payload: &P,
    outcome: FireOutcome,
)
    requires
        listeners.len() == 0,
        dispatched(listeners, payload, outcome),
    ensures
        outcome == (FireOutcome { invoked: 0, handled: false }),
{
}

} // verus!
