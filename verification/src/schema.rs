//! Schemas and the surface they compile to.
//!
//! A schema is an ordered list of category declarations. Its surface gives
//! every category its ordinal and the identifiers of the items that stand for
//! it: a payload type, a listener list, a register function and a fire
//! function.

use crate::limits::{nested_within, WEIGHT_LIMIT};
use crate::names::{fire_fn_text, listeners_field_text, payload_type_text, register_fn_text};
use crate::syntax::reads_as;
use vstd::prelude::*;

verus! {

/// One payload field: its name and its type.
#[derive(Debug, Clone, PartialEq, Eq)]
pub struct FieldDef {
    pub name: String,
    pub ty: String,
}

/// One category declaration: its name and its payload fields, possibly none.
#[derive(Debug, Clone, PartialEq, Eq)]
pub struct EventDef {
    pub name: String,
    pub fields: Vec<FieldDef>,
}

/// The declaration of an event system: the name of its dispatch type and its
/// categories in order.
#[derive(Debug, Clone, PartialEq, Eq)]
pub struct Schema {
    pub system_name: String,
    pub defs: Vec<EventDef>,
}

/// The model of a `FieldDef`.
pub struct FieldSpec {
    pub name: Seq<char>,
    pub ty: Seq<char>,
}

/// The model of an `EventDef`.
pub struct EventSpec {
    pub name: Seq<char>,
    pub fields: Seq<FieldSpec>,
}

/// The model of a `Schema`.
pub struct SchemaSpec {
    pub system_name: Seq<char>,
    pub defs: Seq<EventSpec>,
}

/// The models of `fields`, in order.
pub open spec fn field_specs(fields: Seq<FieldDef>) -> Seq<FieldSpec> {
    fields.map_values(|f: FieldDef| f@)
}

/// The models of `defs`, in order.
pub open spec fn event_specs(defs: Seq<EventDef>) -> Seq<EventSpec> {
    defs.map_values(|d: EventDef| d@)
}

impl View for FieldDef {
    type V = FieldSpec;

    open spec fn view(&self) -> FieldSpec {
        FieldSpec { name: self.name@, ty: self.ty@ }
    }
}

impl View for EventDef {
    type V = EventSpec;

    open spec fn view(&self) -> EventSpec {
        EventSpec { name: self.name@, fields: field_specs(self.fields@) }
    }
}

impl View for Schema {
    type V = SchemaSpec;

    open spec fn view(&self) -> SchemaSpec {
        SchemaSpec {
            system_name: self.system_name@,
            defs: event_specs(self.defs@),
        }
    }
}

/// What the surface holds for one category.
#[derive(Debug, Clone, PartialEq, Eq)]
pub struct Category {
    /// The name as declared.
    pub name: String,
    /// The position of the declaration in the schema.
    pub ordinal: usize,
    /// The payload type, for a category that has fields.
    pub payload_type: Option<String>,
    /// The payload fields, name and type as they were read.
    pub fields: Vec<FieldDef>,
    /// The field of the dispatch type that holds the listener list.
    pub listeners_field: String,
    /// The function that registers a callback.
    pub register_fn: String,
    /// The function that fires the category.
    pub fire_fn: String,
}

/// The surface of a schema: the dispatch type and one entry per category, in
/// declaration order.
#[derive(Debug, Clone, PartialEq, Eq)]
pub struct Surface {
    pub system_name: String,
    pub categories: Vec<Category>,
}

/// The model of a `Category`.
pub struct CategorySpec {
    pub name: Seq<char>,
    pub ordinal: nat,
    pub payload_type: Option<Seq<char>>,
    pub fields: Seq<FieldSpec>,
    pub listeners_field: Seq<char>,
    pub register_fn: Seq<char>,
    pub fire_fn: Seq<char>,
}

/// The model of a `Surface`.
pub struct SurfaceSpec {
    pub system_name: Seq<char>,
    pub categories: Seq<CategorySpec>,
}

/// The models of `categories`, in order.
pub open spec fn category_specs(categories: Seq<Category>) -> Seq<CategorySpec> {
    categories.map_values(|c: Category| c@)
}

impl View for Category {
    type V = CategorySpec;

    open spec fn view(&self) -> CategorySpec {
        CategorySpec {
            name: self.name@,
            ordinal: self.ordinal as nat,
            payload_type: match self.payload_type {
                Some(text) => Some(text@),
                None => None,
            },
            fields: field_specs(self.fields@),
            listeners_field: self.listeners_field@,
            register_fn: self.register_fn@,
            fire_fn: self.fire_fn@,
        }
    }
}

impl View for Surface {
    type V = SurfaceSpec;

    open spec fn view(&self) -> SurfaceSpec {
        SurfaceSpec {
            system_name: self.system_name@,
            categories: category_specs(self.categories@),
        }
    }
}

/// Why a schema was refused.
#[derive(Debug, Clone, Copy, PartialEq, Eq, Structural)]
pub enum SchemaError {
    /// The name of the dispatch type was not read as an identifier.
    InvalidSystemName,
    /// A text generated from the name of category `category` was not read as
    /// an identifier.
    InvalidCategoryName { category: usize },
    /// The name of field `field` of category `category` was not read as an
    /// identifier.
    InvalidFieldName { category: usize, field: usize },
    /// The type of field `field` of category `category` was not read as a
    /// type.
    UnparseableFieldType { category: usize, field: usize },
    /// Categories `first` and `second` have the same name.
    DuplicateCategory { first: usize, second: usize },
    /// Categories `first` and `second` have different names and share a
    /// generated identifier.
    IdentifierCollision { first: usize, second: usize },
    /// Fields `first` and `second` of category `category` have the same name.
    DuplicateField { category: usize, first: usize, second: usize },
}

/// No two declarations of `schema` have the same name.
pub open spec fn declared_names_distinct(schema: SchemaSpec) -> bool {
    forall|i: int, j: int|
        0 <= i < j < schema.defs.len() ==> (#[trigger] schema.defs[i]).name != (
        #[trigger] schema.defs[j]).name
}

/// Two surface entries share a generated identifier.
pub open spec fn collide(a: CategorySpec, b: CategorySpec) -> bool {
    ||| a.payload_type.is_some() && a.payload_type == b.payload_type
    ||| a.listeners_field == b.listeners_field
    ||| a.register_fn == b.register_fn
    ||| a.fire_fn == b.fire_fn
}

/// No two categories of `surface` have the same name.
pub open spec fn names_distinct(surface: SurfaceSpec) -> bool {
    forall|i: int, j: int|
        0 <= i < j < surface.categories.len() ==> (#[trigger] surface.categories[i]).name != (
        #[trigger] surface.categories[j]).name
}

/// No two categories of `surface` share a generated identifier.
pub open spec fn idents_distinct(surface: SurfaceSpec) -> bool {
    forall|i: int, j: int|
        0 <= i < j < surface.categories.len() ==> !collide(
            #[trigger] surface.categories[i],
            #[trigger] surface.categories[j],
        )
}

/// No two fields of `category` have the same name.
pub open spec fn fields_distinct(category: CategorySpec) -> bool {
    forall|g: int, f: int|
        0 <= g < f < category.fields.len() ==> (#[trigger] category.fields[g]).name != (
        #[trigger] category.fields[f]).name
}

/// `surface` is well formed: no two of its categories share a name or a
/// generated identifier, and none has two fields of one name.
pub open spec fn well_formed(surface: SurfaceSpec) -> bool {
    &&& names_distinct(surface)
    &&& idents_distinct(surface)
    &&& forall|k: int|
        0 <= k < surface.categories.len() ==> fields_distinct(#[trigger] surface.categories[k])
}

/// `read` can be what the declared field `declared` was read as.
pub open spec fn field_reads_as(declared: FieldSpec, read: FieldSpec) -> bool {
    reads_as(declared.name, read.name) && nested_within(declared.ty, WEIGHT_LIMIT as nat)
}

/// `category` stands for `def`, declared at position `ordinal`: it has the
/// declared name and that ordinal, a payload type exactly if `def` has fields,
/// and one field per declared field, in order. Every identifier can be what
/// the text of its role was read as, and every field what the declared field
/// was read as.
pub open spec fn stands_for(category: CategorySpec, def: EventSpec, ordinal: int) -> bool {
    &&& category.name == def.name
    &&& category.ordinal == ordinal
    &&& category.payload_type.is_some() <==> def.fields.len() > 0
    &&& category.payload_type matches Some(payload) ==> reads_as(
        payload_type_text(def.name),
        payload,
    )
    &&& reads_as(listeners_field_text(def.name), category.listeners_field)
    &&& reads_as(register_fn_text(def.name), category.register_fn)
    &&& reads_as(fire_fn_text(def.name), category.fire_fn)
    &&& category.fields.len() == def.fields.len()
    &&& forall|f: int|
        0 <= f < def.fields.len() ==> field_reads_as(def.fields[f], #[trigger] category.fields[f])
}

/// `surface` has the shape of `schema`: the name of the dispatch type can be
/// what the declared one was read as, and there is one category per
/// declaration, in declaration order.
pub open spec fn shaped(surface: SurfaceSpec, schema: SchemaSpec) -> bool {
    &&& reads_as(schema.system_name, surface.system_name)
    &&& surface.categories.len() == schema.defs.len()
    &&& forall|k: int|
        0 <= k < schema.defs.len() ==> stands_for(
            #[trigger] surface.categories[k],
            schema.defs[k],
            k,
        )
}

/// `surface` is a surface of `schema`: it has the shape of the schema and is
/// well formed.
pub open spec fn compiled(schema: SchemaSpec, surface: SurfaceSpec) -> bool {
    shaped(surface, schema) && well_formed(surface)
}

/// `ordinal` is the position of the first category of `surface` named `name`.
pub open spec fn is_ordinal_of(surface: SurfaceSpec, name: Seq<char>, ordinal: int) -> bool {
    &&& 0 <= ordinal < surface.categories.len()
    &&& surface.categories[ordinal].name == name
    &&& forall|k: int| 0 <= k < ordinal ==> (#[trigger] surface.categories[k]).name != name
}

/// No category of `surface` is named `name`.
pub open spec fn is_unknown(surface: SurfaceSpec, name: Seq<char>) -> bool {
    forall|k: int|
        0 <= k < surface.categories.len() ==> (#[trigger] surface.categories[k]).name != name
}

impl Surface {
    /// The number of categories.
    pub fn category_count(&self) -> (count: usize)
        ensures
            count == self@.categories.len(),
    {
        self.categories.len()
    }

    /// The ordinal of the category named `name`, if there is one.
    pub fn index_of(&self, name: &str) -> (ordinal: Option<usize>)
        ensures
            match ordinal {
                Some(ordinal) => is_ordinal_of(self@, name@, ordinal as int),
                None => is_unknown(self@, name@),
            },
    {
        let wanted = name.to_owned();
        let mut k: usize = 0;
        while k < self.categories.len()
            invariant
                k <= self.categories@.len(),
                wanted@ == name@,
                forall|j: int| 0 <= j < k ==> (#[trigger] self@.categories[j]).name != name@,
            decreases self.categories.len() - k,
        {
            if self.categories[k].name == wanted {
                return Some(k);
            }
            k = k + 1;
        }
        None
    }
}

/// The ordinals of a schema are dense and unique: in a surface of the schema
/// the category declared at position `k` has the ordinal `k`, which is below
/// the number of categories, no two categories have the same ordinal, and
/// looking a declared name up gives the ordinal of its declaration.
pub proof fn law_ordinals_dense_and_unique(schema: SchemaSpec, surface: SurfaceSpec)
    requires
        compiled(schema, surface),
    ensures
        surface.categories.len() == schema.defs.len(),
        forall|k: int|
            0 <= k < schema.defs.len() ==> (#[trigger] surface.categories[k]).ordinal == k,
        forall|i: int, j: int|
            0 <= i < schema.defs.len() && 0 <= j < schema.defs.len() && i != j ==> (
            #[trigger] surface.categories[i]).ordinal != (#[trigger] surface.categories[j]).ordinal,
        forall|k: int|
            0 <= k < schema.defs.len() ==> is_ordinal_of(
                surface,
                (#[trigger] schema.defs[k]).name,
                k,
            ),
{
    assert forall|k: int| 0 <= k < schema.defs.len() implies is_ordinal_of(
        surface,
        (#[trigger] schema.defs[k]).name,
        k,
    ) by {
        assert(surface.categories[k].name == schema.defs[k].name);
        assert forall|j: int| 0 <= j < k implies (#[trigger] surface.categories[j]).name
            != schema.defs[k].name by {
            assert(surface.categories[j].name != surface.categories[k].name);
        }
    }
}

/// A declared name resolves to the position of its declaration and to no
/// other ordinal, so addressing a category by name is addressing it by the
/// ordinal it was declared at.
pub proof fn law_names_resolve_to_declaration_order(
    schema: SchemaSpec,
    surface: SurfaceSpec,
    k: int,
    ordinal: int,
)
    requires
        compiled(schema, surface),
        0 <= k < schema.defs.len(),
        is_ordinal_of(surface, schema.defs[k].name, ordinal),
    ensures
        ordinal == k,
{
    assert(surface.categories[k].name == schema.defs[k].name);
    if ordinal < k {
        assert(surface.categories[ordinal].name != surface.categories[k].name);
    }
}

/// The identifiers of two categories of a well formed surface are different
/// in every role: no two categories share a payload type, a listener list, a
/// register function or a fire function.
pub proof fn law_generated_identifiers_are_distinct(surface: SurfaceSpec, i: int, j: int)
    requires
        well_formed(surface),
        0 <= i < surface.categories.len(),
        0 <= j < surface.categories.len(),
        i != j,
    ensures
        surface.categories[i].listeners_field != surface.categories[j].listeners_field,
        surface.categories[i].register_fn != surface.categories[j].register_fn,
        surface.categories[i].fire_fn != surface.categories[j].fire_fn,
        surface.categories[i].payload_type.is_some() ==> surface.categories[i].payload_type
            != surface.categories[j].payload_type,
{
    if i < j {
        assert(!collide(surface.categories[i], surface.categories[j]));
    } else {
        assert(!collide(surface.categories[j], surface.categories[i]));
    }
}

} // verus!
