//! An event system built from a schema: one listener list per declared
//! category, addressed by the category's name.

use crate::compiler::{compile, refuses};
use crate::limits::{nested_within, WEIGHT_LIMIT};
use crate::engine::{accepts, dispatched, empty_table, registered, run_listeners, FireOutcome};
use crate::schema::{law_names_resolve_to_declaration_order, SchemaSpec};
use crate::schema::{
    compiled, declared_names_distinct, is_ordinal_of, is_unknown, Schema, SchemaError, Surface,
    SurfaceSpec,
};
use vstd::prelude::*;

verus! {

/// The ordinal that `name` resolves to in `surface`, if it resolves.
pub open spec fn resolved(surface: SurfaceSpec, name: Seq<char>) -> Option<int> {
    if exists|ordinal: int| is_ordinal_of(surface, name, ordinal) {
        Some(choose|ordinal: int| is_ordinal_of(surface, name, ordinal))
    } else {
        None
    }
}

/// `table` after `callback` was registered under `name` on a system of
/// `surface`: appended to the list that the name resolves to, or dropped
/// where the name resolves to none.
pub open spec fn registered_by_name<F>(
    surface: SurfaceSpec,
    table: Seq<Seq<F>>,
    name: Seq<char>,
    callback: F,
) -> Seq<Seq<F>> {
    match resolved(surface, name) {
        Some(ordinal) => registered(table, ordinal, callback),
        None => table,
    }
}

/// One registration: the position of the category's declaration and the
/// callback.
pub struct Registration<F> {
    pub category: int,
    pub callback: F,
}

/// The listener table of an engine after `calls` were made on it in order,
/// each on the ordinal of its category.
pub open spec fn engine_after<F>(table: Seq<Seq<F>>, calls: Seq<Registration<F>>) -> Seq<Seq<F>>
    decreases calls.len(),
{
    if calls.len() == 0 {
        table
    } else {
        registered(
            engine_after(table, calls.drop_last()),
            calls.last().category,
            calls.last().callback,
        )
    }
}

/// The listener table of a system of `surface` after `calls` were made on it
/// in order, each under the name that `schema` declares for its category.
pub open spec fn system_after<F>(
    schema: SchemaSpec,
    surface: SurfaceSpec,
    table: Seq<Seq<F>>,
    calls: Seq<Registration<F>>,
) -> Seq<Seq<F>>
    decreases calls.len(),
{
    if calls.len() == 0 {
        table
    } else {
        registered_by_name(
            surface,
            system_after(schema, surface, table, calls.drop_last()),
            schema.defs[calls.last().category].name,
            calls.last().callback,
        )
    }
}

/// The dispatch type of one schema.
pub struct EventSystem<F> {
    surface: Surface,
    listeners: Vec<Vec<F>>,
}

impl<F> View for EventSystem<F> {
    type V = Seq<Seq<F>>;

    /// The listener table: entry `k` is the listener list of the category
    /// declared at position `k`, in registration order.
    closed spec fn view(&self) -> Seq<Seq<F>> {
        Seq::new(self.listeners@.len(), |k: int| self.listeners@[k]@)
    }
}

impl<F> EventSystem<F> {
    /// The surface that the system was built from.
    pub closed spec fn surface_spec(&self) -> SurfaceSpec {
        self.surface@
    }

    /// The system holds one listener list per category of its surface.
    pub open spec fn is_consistent(&self) -> bool {
        self@.len() == self.surface_spec().categories.len()
    }

    /// Compiles `schema` and builds its event system, with no listeners.
    pub fn new(schema: &Schema) -> (result: Result<Self, SchemaError>)
        ensures
            (result matches Err(SchemaError::DuplicateCategory { .. }))
                <==> !declared_names_distinct(schema@),
            declared_names_distinct(schema@) && !nested_within(
                schema@.system_name,
                WEIGHT_LIMIT as nat,
            ) ==> result matches Err(SchemaError::InvalidSystemName),
            match result {
                Ok(system) => {
                    &&& system.is_consistent()
                    &&& compiled(schema@, system.surface_spec())
                    &&& system@ == empty_table::<F>(schema@.defs.len())
                },
                Err(error) => refuses(schema@, error),
            },
    {
        let surface = match compile(schema) {
            Ok(surface) => surface,
            Err(error) => {
                return Err(error);
            },
        };
        let count = surface.category_count();
        let mut listeners: Vec<Vec<F>> = Vec::new();
        let mut k: usize = 0;
        while k < count
            invariant
                k <= count,
                listeners@.len() == k,
                forall|j: int| 0 <= j < k ==> (#[trigger] listeners@[j])@ == Seq::<F>::empty(),
            decreases count - k,
        {
            listeners.push(Vec::new());
            k = k + 1;
        }
        let system = EventSystem { surface, listeners };
        assert(system@ =~= empty_table::<F>(schema@.defs.len()));
        Ok(system)
    }

    /// The surface that the system was built from.
    pub fn surface(&self) -> (surface: &Surface)
        ensures
            surface@ == self.surface_spec(),
    {
        &self.surface
    }

    /// Appends `callback` to the listener list of the category named
    /// `category` and returns the ordinal of that category. A name that the
    /// schema does not declare changes nothing.
    pub fn register(&mut self, category: &str, callback: F) -> (ordinal: Option<usize>)
        requires
            old(self).is_consistent(),
        ensures
            final(self).is_consistent(),
            final(self).surface_spec() == old(self).surface_spec(),
            final(self)@ == registered_by_name(
                old(self).surface_spec(),
                old(self)@,
                category@,
                callback,
            ),
            match ordinal {
                Some(ordinal) => {
                    &&& is_ordinal_of(old(self).surface_spec(), category@, ordinal as int)
                    &&& final(self)@ == registered(old(self)@, ordinal as int, callback)
                },
                None => {
                    &&& is_unknown(old(self).surface_spec(), category@)
                    &&& final(self)@ == old(self)@
                },
            },
    {
        match self.surface.index_of(category) {
            Some(ordinal) => {
                self.listeners[ordinal].push(callback);
                assert(self@ =~= registered(old(self)@, ordinal as int, callback));
                Some(ordinal)
            },
            None => None,
        }
    }

    /// Fires the category named `category` with `payload`. A name that the
    /// schema does not declare runs nothing.
    pub fn fire<P>(&self, category: &str, payload: &P) -> (outcome: Option<FireOutcome>) where
        F: Fn(&P) -> bool,

        requires
            self.is_consistent(),
            forall|ordinal: int|
                is_ordinal_of(self.surface_spec(), category@, ordinal) ==> accepts(
                    #[trigger] self@[ordinal],
                    payload,
                ),
        ensures
            match outcome {
                Some(outcome) => exists|ordinal: int|
                    {
                        &&& is_ordinal_of(self.surface_spec(), category@, ordinal)
                        &&& dispatched(#[trigger] self@[ordinal], payload, outcome)
                    },
                None => is_unknown(self.surface_spec(), category@),
            },
    {
        match self.surface.index_of(category) {
            Some(ordinal) => {
                assert(self@[ordinal as int] == self.listeners@[ordinal as int]@);
                let outcome = run_listeners(&self.listeners[ordinal], payload);
                assert(dispatched(self@[ordinal as int], payload, outcome));
                Some(outcome)
            },
            None => None,
        }
    }
}

/// A declared name resolves to the position of its declaration.
pub proof fn lemma_declared_name_resolves(schema: SchemaSpec, surface: SurfaceSpec, k: int)
    requires
        compiled(schema, surface),
        0 <= k < schema.defs.len(),
    ensures
        resolved(surface, schema.defs[k].name) == Some(k),
{
    let name = schema.defs[k].name;
    assert(is_ordinal_of(surface, name, k)) by {
        assert(surface.categories[k].name == name);
        assert forall|j: int| 0 <= j < k implies (#[trigger] surface.categories[j]).name
            != name by {
            assert(surface.categories[j].name != surface.categories[k].name);
        }
    }
    let ordinal = choose|ordinal: int| is_ordinal_of(surface, name, ordinal);
    law_names_resolve_to_declaration_order(schema, surface, k, ordinal);
}

/// A callback registered under a declared name whose category has no other
/// listener runs exactly once, on the payload that was fired, when that name
/// is fired, and the event is handled if and only if the callback said so.
pub proof fn law_single_listener_on_system<P, F: Fn(&P) -> bool>(
    schema: SchemaSpec,
    surface: SurfaceSpec,
    table: Seq<Seq<F>>,
    k: int,
    callback: F,
    payload: &P,
    fired_at: int,
    outcome: FireOutcome,
)
    requires
        compiled(schema, surface),
        0 <= k < schema.defs.len(),
        table.len() == schema.defs.len(),
        table[k].len() == 0,
        is_ordinal_of(surface, schema.defs[k].name, fired_at),
        dispatched(
            registered_by_name(surface, table, schema.defs[k].name, callback)[fired_at],
            payload,
            outcome,
        ),
    ensures
        fired_at == k,
        outcome.invoked == 1,
        call_ensures(callback, (payload,), outcome.handled),
{
    lemma_declared_name_resolves(schema, surface, k);
    law_names_resolve_to_declaration_order(schema, surface, k, fired_at);
    let listeners = registered(table, k, callback)[k];
    assert(listeners[0] == callback);
    if outcome.invoked == 1 {
        assert(call_ensures(listeners[0], (payload,), outcome.handled));
    }
}

/// A system built from a schema and an engine with one category per
/// declaration stay equal over equal call sequences: after the same
/// registrations, made by declared name on the one and by declaration
/// position on the other, both hold the same listener table, and a fire
/// under a declared name runs the list that the engine runs for its
/// position. So every fire has the same outcomes on both.
pub proof fn law_system_matches_engine<F>(
    schema: SchemaSpec,
    surface: SurfaceSpec,
    calls: Seq<Registration<F>>,
)
    requires
        compiled(schema, surface),
        forall|i: int|
            0 <= i < calls.len() ==> 0 <= (#[trigger] calls[i]).category < schema.defs.len(),
    ensures
        system_after(schema, surface, empty_table::<F>(schema.defs.len()), calls) == engine_after(
            empty_table::<F>(schema.defs.len()),
            calls,
        ),
        forall|k: int, ordinal: int|
            0 <= k < schema.defs.len() && #[trigger] is_ordinal_of(
                surface,
                schema.defs[k].name,
                ordinal,
            ) ==> ordinal == k,
    decreases calls.len(),
{
    assert forall|k: int, ordinal: int|
        0 <= k < schema.defs.len() && #[trigger] is_ordinal_of(
            surface,
            schema.defs[k].name,
            ordinal,
        ) implies ordinal == k by {
        law_names_resolve_to_declaration_order(schema, surface, k, ordinal);
    }
    if calls.len() > 0 {
        let earlier = calls.drop_last();
        assert forall|i: int| 0 <= i < earlier.len() implies 0 <= (
        #[trigger] earlier[i]).category < schema.defs.len() by {
            assert(earlier[i] == calls[i]);
        }
        law_system_matches_engine(schema, surface, earlier);
        lemma_declared_name_resolves(schema, surface, calls.last().category);
    }
}

} // verus!
