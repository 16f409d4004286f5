//! The schema compiler: from a schema to a surface of it, or to the reason
//! why it was refused.

use crate::names::identifier_texts;
use crate::schema::{
    collide, compiled, declared_names_distinct, field_reads_as, field_specs, fields_distinct,
    idents_distinct, names_distinct, shaped, stands_for, well_formed, Category, CategorySpec,
    EventDef, FieldDef, Schema, SchemaError, SchemaSpec, Surface, SurfaceSpec,
};
use crate::limits::{nested_within, WEIGHT_LIMIT};
use crate::syntax::{read_ident, read_type};
use vstd::prelude::*;

verus! {

/// `first` and `second` are the first two declarations of `schema` with one
/// name: no declaration before `second` repeats a name, and `first` is the
/// first that `second` repeats.
pub open spec fn first_same_declared_name(schema: SchemaSpec, first: int, second: int) -> bool {
    &&& 0 <= first < second < schema.defs.len()
    &&& schema.defs[first].name == schema.defs[second].name
    &&& forall|i: int| 0 <= i < first ==> (#[trigger] schema.defs[i]).name != schema.defs[second].name
    &&& forall|i: int, j: int|
        0 <= i < j < second ==> (#[trigger] schema.defs[i]).name != (#[trigger] schema.defs[j]).name
}

/// `first` and `second` are the first two categories of `surface` with one
/// name: no category before `second` repeats a name, and `first` is the first
/// that `second` repeats.
pub open spec fn first_same_name(surface: SurfaceSpec, first: int, second: int) -> bool {
    &&& 0 <= first < second < surface.categories.len()
    &&& surface.categories[first].name == surface.categories[second].name
    &&& forall|i: int|
        0 <= i < first ==> (#[trigger] surface.categories[i]).name
            != surface.categories[second].name
    &&& forall|i: int, j: int|
        0 <= i < j < second ==> (#[trigger] surface.categories[i]).name != (
        #[trigger] surface.categories[j]).name
}

/// `first` and `second` are the first two categories of `surface` that share
/// a generated identifier.
pub open spec fn first_collision(surface: SurfaceSpec, first: int, second: int) -> bool {
    &&& 0 <= first < second < surface.categories.len()
    &&& collide(surface.categories[first], surface.categories[second])
    &&& forall|i: int|
        0 <= i < first ==> !collide(#[trigger] surface.categories[i], surface.categories[second])
    &&& forall|i: int, j: int|
        0 <= i < j < second ==> !collide(
            #[trigger] surface.categories[i],
            #[trigger] surface.categories[j],
        )
}

/// `first` and `second` are the first two fields of `category` with one name.
pub open spec fn first_same_field(category: CategorySpec, first: int, second: int) -> bool {
    &&& 0 <= first < second < category.fields.len()
    &&& category.fields[first].name == category.fields[second].name
    &&& forall|g: int|
        0 <= g < first ==> (#[trigger] category.fields[g]).name != category.fields[second].name
    &&& forall|g: int, f: int|
        0 <= g < f < second ==> (#[trigger] category.fields[g]).name != (
        #[trigger] category.fields[f]).name
}

/// `error` is the reason why `surface` is not well formed: the first two
/// categories with one name; where there are none, the first two categories
/// that share a generated identifier; where there are none either, the first
/// two fields with one name in the first category that has such a pair.
pub open spec fn surface_rejects(surface: SurfaceSpec, error: SchemaError) -> bool {
    match error {
        SchemaError::DuplicateCategory { first, second } => first_same_name(
            surface,
            first as int,
            second as int,
        ),
        SchemaError::IdentifierCollision { first, second } => {
            &&& names_distinct(surface)
            &&& first_collision(surface, first as int, second as int)
        },
        SchemaError::DuplicateField { category, first, second } => {
            &&& names_distinct(surface)
            &&& idents_distinct(surface)
            &&& category < surface.categories.len()
            &&& forall|k: int|
                0 <= k < category ==> fields_distinct(#[trigger] surface.categories[k])
            &&& first_same_field(surface.categories[category as int], first as int, second as int)
        },
        _ => false,
    }
}

/// `error` names field `field` of category `category`, one of `count`
/// fields, as a field whose name or type was not accepted.
pub open spec fn is_field_error(error: SchemaError, category: usize, count: nat) -> bool {
    match error {
        SchemaError::InvalidFieldName { category: c, field } => c == category && field < count,
        SchemaError::UnparseableFieldType { category: c, field } => c == category && field < count,
        _ => false,
    }
}

/// The categories and fields that `error` names are categories and fields of
/// `schema`, and where it names two of a kind, the first stands before the
/// second.
pub open spec fn located(schema: SchemaSpec, error: SchemaError) -> bool {
    match error {
        SchemaError::InvalidSystemName => true,
        SchemaError::InvalidCategoryName { category } => category < schema.defs.len(),
        SchemaError::InvalidFieldName { category, field } => {
            &&& category < schema.defs.len()
            &&& field < schema.defs[category as int].fields.len()
        },
        SchemaError::UnparseableFieldType { category, field } => {
            &&& category < schema.defs.len()
            &&& field < schema.defs[category as int].fields.len()
        },
        SchemaError::DuplicateCategory { first, second } => first < second < schema.defs.len(),
        SchemaError::IdentifierCollision { first, second } => first < second < schema.defs.len(),
        SchemaError::DuplicateField { category, first, second } => {
            &&& category < schema.defs.len()
            &&& first < second < schema.defs[category as int].fields.len()
        },
    }
}

/// `error` reports a name or a type that was not accepted when it was read.
pub open spec fn is_read_error(error: SchemaError) -> bool {
    !(error is DuplicateCategory || error is IdentifierCollision || error is DuplicateField)
}

/// `error` is a reason for which `schema` can be refused. Two declarations
/// with one name are reported before anything else, and as the first such
/// pair. Every other reason depends on how the names and types of the schema
/// were read; it is reported only where the declared names are distinct, and
/// it names categories and fields of the schema.
pub open spec fn refuses(schema: SchemaSpec, error: SchemaError) -> bool {
    match error {
        SchemaError::DuplicateCategory { first, second } => first_same_declared_name(
            schema,
            first as int,
            second as int,
        ),
        _ => declared_names_distinct(schema) && located(schema, error),
    }
}

/// The first declaration of `defs` before position `second` that has the name
/// of the declaration at `second`.
fn earlier_same_declared_name(defs: &Vec<EventDef>, second: usize) -> (first: Option<usize>)
    requires
        second < defs@.len(),
    ensures
        match first {
            Some(first) => {
                &&& first < second
                &&& defs@[first as int].name@ == defs@[second as int].name@
                &&& forall|i: int|
                    0 <= i < first ==> (#[trigger] defs@[i]).name@ != defs@[second as int].name@
            },
            None => forall|i: int|
                0 <= i < second ==> (#[trigger] defs@[i]).name@ != defs@[second as int].name@,
        },
{
    let mut i: usize = 0;
    while i < second
        invariant
            i <= second < defs@.len(),
            forall|j: int| 0 <= j < i ==> (#[trigger] defs@[j]).name@ != defs@[second as int].name@,
        decreases second - i,
    {
        if defs[i].name == defs[second].name {
            return Some(i);
        }
        i = i + 1;
    }
    None
}

/// The first two declarations of `schema` with one name, if there are any.
pub fn find_same_declared_name(schema: &Schema) -> (found: Option<(usize, usize)>)
    ensures
        match found {
            Some((first, second)) => first_same_declared_name(
                schema@,
                first as int,
                second as int,
            ),
            None => declared_names_distinct(schema@),
        },
{
    let mut second: usize = 0;
    while second < schema.defs.len()
        invariant
            second <= schema.defs@.len(),
            forall|i: int, j: int|
                0 <= i < j < second ==> (#[trigger] schema@.defs[i]).name != (
                #[trigger] schema@.defs[j]).name,
        decreases schema.defs.len() - second,
    {
        match earlier_same_declared_name(&schema.defs, second) {
            Some(first) => {
                return Some((first, second));
            },
            None => {},
        }
        second = second + 1;
    }
    None
}

/// Reads field `index` of category `category`: its name first, then its type.
fn compile_field(field: &FieldDef, category: usize, index: usize) -> (result: Result<
    FieldDef,
    SchemaError,
>)
    ensures
        match result {
            Ok(read) => field_reads_as(field@, read@),
            Err(error) => {
                ||| error == (SchemaError::InvalidFieldName { category, field: index })
                ||| error == (SchemaError::UnparseableFieldType { category, field: index })
            },
        },
{
    let name = match read_ident(field.name.as_str()) {
        Some(name) => name,
        None => {
            return Err(SchemaError::InvalidFieldName { category, field: index });
        },
    };
    let ty = match read_type(field.ty.as_str()) {
        Some(ty) => ty,
        None => {
            return Err(SchemaError::UnparseableFieldType { category, field: index });
        },
    };
    Ok(FieldDef { name, ty })
}

/// Reads the fields of category `category` in order and stops at the first
/// that is not accepted.
fn compile_fields(fields: &Vec<FieldDef>, category: usize) -> (result: Result<
    Vec<FieldDef>,
    SchemaError,
>)
    ensures
        match result {
            Ok(read) => {
                &&& read@.len() == fields@.len()
                &&& forall|f: int|
                    0 <= f < fields@.len() ==> field_reads_as(
                        fields@[f]@,
                        (#[trigger] read@[f])@,
                    )
            },
            Err(error) => is_field_error(error, category, fields@.len()),
        },
{
    let mut read: Vec<FieldDef> = Vec::new();
    let mut f: usize = 0;
    while f < fields.len()
        invariant
            f <= fields.len(),
            read@.len() == f,
            forall|g: int| 0 <= g < f ==> field_reads_as(fields@[g]@, (#[trigger] read@[g])@),
        decreases fields.len() - f,
    {
        match compile_field(&fields[f], category, f) {
            Ok(field) => {
                read.push(field);
            },
            Err(error) => {
                return Err(error);
            },
        }
        f = f + 1;
    }
    Ok(read)
}

/// Builds the surface entry of `def`, declared at position `ordinal`: its
/// generated identifiers first, then its fields.
fn compile_category(def: &EventDef, ordinal: usize) -> (result: Result<Category, SchemaError>)
    ensures
        match result {
            Ok(category) => stands_for(category@, def@, ordinal as int),
            Err(error) => {
                ||| error == (SchemaError::InvalidCategoryName { category: ordinal })
                ||| is_field_error(error, ordinal, def@.fields.len())
            },
        },
{
    let texts = identifier_texts(def.name.as_str());
    let rejected = SchemaError::InvalidCategoryName { category: ordinal };
    let payload_type = if def.fields.len() > 0 {
        match read_ident(texts.payload_type.as_str()) {
            Some(ident) => Some(ident),
            None => {
                return Err(rejected);
            },
        }
    } else {
        None
    };
    let listeners_field = match read_ident(texts.listeners_field.as_str()) {
        Some(ident) => ident,
        None => {
            return Err(rejected);
        },
    };
    let register_fn = match read_ident(texts.register_fn.as_str()) {
        Some(ident) => ident,
        None => {
            return Err(rejected);
        },
    };
    let fire_fn = match read_ident(texts.fire_fn.as_str()) {
        Some(ident) => ident,
        None => {
            return Err(rejected);
        },
    };
    let fields = match compile_fields(&def.fields, ordinal) {
        Ok(fields) => fields,
        Err(error) => {
            return Err(error);
        },
    };
    Ok(
        Category {
            name: def.name.clone(),
            ordinal,
            payload_type,
            fields,
            listeners_field,
            register_fn,
            fire_fn,
        },
    )
}

/// Reads `schema` into a surface of its shape: the name of the dispatch type
/// first, then the declarations in order, and stops at the first name or
/// type that is not accepted.
fn read_surface(schema: &Schema) -> (result: Result<Surface, SchemaError>)
    ensures
        !nested_within(schema@.system_name, WEIGHT_LIMIT as nat) ==> result == Err::<
            Surface,
            SchemaError,
        >(SchemaError::InvalidSystemName),
        match result {
            Ok(surface) => shaped(surface@, schema@),
            Err(error) => is_read_error(error) && located(schema@, error),
        },
{
    let system_name = match read_ident(schema.system_name.as_str()) {
        Some(ident) => ident,
        None => {
            return Err(SchemaError::InvalidSystemName);
        },
    };
    let mut categories: Vec<Category> = Vec::new();
    let mut k: usize = 0;
    while k < schema.defs.len()
        invariant
            k <= schema.defs.len(),
            nested_within(schema@.system_name, WEIGHT_LIMIT as nat),
            categories@.len() == k,
            forall|j: int|
                0 <= j < k ==> stands_for((#[trigger] categories@[j])@, schema@.defs[j], j),
        decreases schema.defs.len() - k,
    {
        assert(schema@.defs[k as int] == schema.defs@[k as int]@);
        match compile_category(&schema.defs[k], k) {
            Ok(category) => {
                categories.push(category);
            },
            Err(error) => {
                return Err(error);
            },
        }
        k = k + 1;
    }
    Ok(Surface { system_name, categories })
}

/// The first category of `categories` before position `second` that has the
/// name of the category at `second`.
fn earlier_same_name(categories: &Vec<Category>, second: usize) -> (first: Option<usize>)
    requires
        second < categories@.len(),
    ensures
        match first {
            Some(first) => {
                &&& first < second
                &&& categories@[first as int].name@ == categories@[second as int].name@
                &&& forall|i: int|
                    0 <= i < first ==> (#[trigger] categories@[i]).name@
                        != categories@[second as int].name@
            },
            None => forall|i: int|
                0 <= i < second ==> (#[trigger] categories@[i]).name@
                    != categories@[second as int].name@,
        },
{
    let mut i: usize = 0;
    while i < second
        invariant
            i <= second < categories@.len(),
            forall|j: int|
                0 <= j < i ==> (#[trigger] categories@[j]).name@
                    != categories@[second as int].name@,
        decreases second - i,
    {
        if categories[i].name == categories[second].name {
            return Some(i);
        }
        i = i + 1;
    }
    None
}

/// The first two categories of `surface` with one name, if there are any.
fn find_same_name(surface: &Surface) -> (found: Option<(usize, usize)>)
    ensures
        match found {
            Some((first, second)) => first_same_name(surface@, first as int, second as int),
            None => names_distinct(surface@),
        },
{
    let mut second: usize = 0;
    while second < surface.categories.len()
        invariant
            second <= surface.categories@.len(),
            forall|i: int, j: int|
                0 <= i < j < second ==> (#[trigger] surface@.categories[i]).name != (
                #[trigger] surface@.categories[j]).name,
        decreases surface.categories.len() - second,
    {
        match earlier_same_name(&surface.categories, second) {
            Some(first) => {
                return Some((first, second));
            },
            None => {},
        }
        second = second + 1;
    }
    None
}

/// Whether two surface entries share a generated identifier.
fn categories_collide(a: &Category, b: &Category) -> (shared: bool)
    ensures
        shared == collide(a@, b@),
{
    let types = match (&a.payload_type, &b.payload_type) {
        (Some(x), Some(y)) => *x == *y,
        _ => false,
    };
    types || a.listeners_field == b.listeners_field || a.register_fn == b.register_fn || a.fire_fn
        == b.fire_fn
}

/// The first category of `categories` before position `second` that shares a
/// generated identifier with the category at `second`.
fn earlier_collision(categories: &Vec<Category>, second: usize) -> (first: Option<usize>)
    requires
        second < categories@.len(),
    ensures
        match first {
            Some(first) => {
                &&& first < second
                &&& collide(categories@[first as int]@, categories@[second as int]@)
                &&& forall|i: int|
                    0 <= i < first ==> !collide(
                        (#[trigger] categories@[i])@,
                        categories@[second as int]@,
                    )
            },
            None => forall|i: int|
                0 <= i < second ==> !collide(
                    (#[trigger] categories@[i])@,
                    categories@[second as int]@,
                ),
        },
{
    let mut i: usize = 0;
    while i < second
        invariant
            i <= second < categories@.len(),
            forall|j: int|
                0 <= j < i ==> !collide((#[trigger] categories@[j])@, categories@[second as int]@),
        decreases second - i,
    {
        if categories_collide(&categories[i], &categories[second]) {
            return Some(i);
        }
        i = i + 1;
    }
    None
}

/// The first two categories of `surface` that share a generated identifier,
/// if there are any.
fn find_collision(surface: &Surface) -> (found: Option<(usize, usize)>)
    ensures
        match found {
            Some((first, second)) => first_collision(surface@, first as int, second as int),
            None => idents_distinct(surface@),
        },
{
    let mut second: usize = 0;
    while second < surface.categories.len()
        invariant
            second <= surface.categories@.len(),
            forall|i: int, j: int|
                0 <= i < j < second ==> !collide(
                    #[trigger] surface@.categories[i],
                    #[trigger] surface@.categories[j],
                ),
        decreases surface.categories.len() - second,
    {
        match earlier_collision(&surface.categories, second) {
            Some(first) => {
                return Some((first, second));
            },
            None => {},
        }
        second = second + 1;
    }
    None
}

/// The first field of `fields` before position `second` that has the name of
/// the field at `second`.
fn earlier_same_field(fields: &Vec<FieldDef>, second: usize) -> (first: Option<usize>)
    requires
        second < fields@.len(),
    ensures
        match first {
            Some(first) => {
                &&& first < second
                &&& fields@[first as int].name@ == fields@[second as int].name@
                &&& forall|g: int|
                    0 <= g < first ==> (#[trigger] fields@[g]).name@ != fields@[second as int].name@
            },
            None => forall|g: int|
                0 <= g < second ==> (#[trigger] fields@[g]).name@ != fields@[second as int].name@,
        },
{
    let mut g: usize = 0;
    while g < second
        invariant
            g <= second < fields@.len(),
            forall|h: int|
                0 <= h < g ==> (#[trigger] fields@[h]).name@ != fields@[second as int].name@,
        decreases second - g,
    {
        if fields[g].name == fields[second].name {
            return Some(g);
        }
        g = g + 1;
    }
    None
}

/// The first two fields of `category` with one name, if there are any.
fn find_same_field(category: &Category) -> (found: Option<(usize, usize)>)
    ensures
        match found {
            Some((first, second)) => first_same_field(category@, first as int, second as int),
            None => fields_distinct(category@),
        },
{
    let mut second: usize = 0;
    while second < category.fields.len()
        invariant
            second <= category.fields@.len(),
            forall|g: int, f: int|
                0 <= g < f < second ==> (#[trigger] category@.fields[g]).name != (
                #[trigger] category@.fields[f]).name,
        decreases category.fields.len() - second,
    {
        match earlier_same_field(&category.fields, second) {
            Some(first) => {
                return Some((first, second));
            },
            None => {},
        }
        second = second + 1;
    }
    None
}

/// The first category of `surface` that has two fields with one name, and the
/// first such pair in it, if there is any.
fn find_duplicate_field(surface: &Surface) -> (found: Option<(usize, usize, usize)>)
    ensures
        match found {
            Some((category, first, second)) => {
                &&& category < surface@.categories.len()
                &&& forall|k: int|
                    0 <= k < category ==> fields_distinct(#[trigger] surface@.categories[k])
                &&& first_same_field(
                    surface@.categories[category as int],
                    first as int,
                    second as int,
                )
            },
            None => forall|k: int|
                0 <= k < surface@.categories.len() ==> fields_distinct(
                    #[trigger] surface@.categories[k],
                ),
        },
{
    let mut k: usize = 0;
    while k < surface.categories.len()
        invariant
            k <= surface.categories@.len(),
            forall|j: int| 0 <= j < k ==> fields_distinct(#[trigger] surface@.categories[j]),
        decreases surface.categories.len() - k,
    {
        match find_same_field(&surface.categories[k]) {
            Some((first, second)) => {
                return Some((k, first, second));
            },
            None => {},
        }
        k = k + 1;
    }
    None
}

/// A surface that is rejected is not well formed.
pub proof fn lemma_rejected_is_ill_formed(surface: SurfaceSpec, error: SchemaError)
    requires
        surface_rejects(surface, error),
    ensures
        !well_formed(surface),
{
    match error {
        SchemaError::DuplicateCategory { first, second } => {
            assert(surface.categories[first as int].name == surface.categories[second as int].name);
        },
        SchemaError::IdentifierCollision { first, second } => {
            assert(collide(surface.categories[first as int], surface.categories[second as int]));
        },
        SchemaError::DuplicateField { category, first, second } => {
            let fields = surface.categories[category as int].fields;
            assert(fields[first as int].name == fields[second as int].name);
        },
        _ => {},
    }
}

/// A surface is rejected for one reason only: the error that `check_surface`
/// returns is determined by the surface.
pub proof fn law_rejection_is_unique(surface: SurfaceSpec, a: SchemaError, b: SchemaError)
    requires
        surface_rejects(surface, a),
        surface_rejects(surface, b),
    ensures
        a == b,
{
    match (a, b) {
        (
            SchemaError::DuplicateCategory { first: fa, second: sa },
            SchemaError::DuplicateCategory { first: fb, second: sb },
        ) => {
            assert(surface.categories[fa as int].name == surface.categories[sa as int].name);
            assert(surface.categories[fb as int].name == surface.categories[sb as int].name);
        },
        (
            SchemaError::IdentifierCollision { first: fa, second: sa },
            SchemaError::IdentifierCollision { first: fb, second: sb },
        ) => {
            assert(collide(surface.categories[fa as int], surface.categories[sa as int]));
            assert(collide(surface.categories[fb as int], surface.categories[sb as int]));
        },
        (
            SchemaError::DuplicateField { category: ca, first: fa, second: sa },
            SchemaError::DuplicateField { category: cb, first: fb, second: sb },
        ) => {
            let fields_a = surface.categories[ca as int].fields;
            let fields_b = surface.categories[cb as int].fields;
            assert(fields_a[fa as int].name == fields_a[sa as int].name);
            assert(fields_b[fb as int].name == fields_b[sb as int].name);
        },
        (SchemaError::DuplicateCategory { first, second }, _) => {
            assert(surface.categories[first as int].name == surface.categories[second as int].name);
        },
        (_, SchemaError::DuplicateCategory { first, second }) => {
            assert(surface.categories[first as int].name == surface.categories[second as int].name);
        },
        (SchemaError::IdentifierCollision { first, second }, _) => {
            assert(collide(surface.categories[first as int], surface.categories[second as int]));
        },
        (_, SchemaError::IdentifierCollision { first, second }) => {
            assert(collide(surface.categories[first as int], surface.categories[second as int]));
        },
        _ => {},
    }
}

/// Checks that `surface` is well formed and hands it back if it is; if not,
/// says why: two categories with one name are looked for first, then two
/// categories that share a generated identifier, then two fields with one
/// name.
pub fn check_surface(surface: Surface) -> (result: Result<Surface, SchemaError>)
    ensures
        result.is_ok() <==> well_formed(surface@),
        match result {
            Ok(checked) => checked == surface,
            Err(error) => surface_rejects(surface@, error),
        },
{
    match find_same_name(&surface) {
        Some((first, second)) => {
            let error = SchemaError::DuplicateCategory { first, second };
            proof {
                lemma_rejected_is_ill_formed(surface@, error);
            }
            return Err(error);
        },
        None => {},
    }
    match find_collision(&surface) {
        Some((first, second)) => {
            let error = SchemaError::IdentifierCollision { first, second };
            proof {
                lemma_rejected_is_ill_formed(surface@, error);
            }
            return Err(error);
        },
        None => {},
    }
    match find_duplicate_field(&surface) {
        Some((category, first, second)) => {
            let error = SchemaError::DuplicateField { category, first, second };
            proof {
                lemma_rejected_is_ill_formed(surface@, error);
            }
            return Err(error);
        },
        None => {},
    }
    Ok(surface)
}

/// Compiles `schema`. Two declarations with one name are refused before
/// anything is read. Then the names and types are read, none of them beyond
/// the limit on weight, and the surface that they give is checked: the
/// result is a surface of the schema, or the first reason found why there is
/// none.
pub fn compile(schema: &Schema) -> (result: Result<Surface, SchemaError>)
    ensures
        (result matches Err(SchemaError::DuplicateCategory { .. })) <==> !declared_names_distinct(
            schema@,
        ),
        declared_names_distinct(schema@) && !nested_within(
            schema@.system_name,
            WEIGHT_LIMIT as nat,
        ) ==> result == Err::<Surface, SchemaError>(SchemaError::InvalidSystemName),
        match result {
            Ok(surface) => compiled(schema@, surface@),
            Err(error) => refuses(schema@, error),
        },
{
    match find_same_declared_name(schema) {
        Some((first, second)) => {
            assert(schema@.defs[first as int].name == schema@.defs[second as int].name);
            return Err(SchemaError::DuplicateCategory { first, second });
        },
        None => {},
    }
    let surface = match read_surface(schema) {
        Ok(surface) => surface,
        Err(error) => {
            return Err(error);
        },
    };
    proof {
        assert forall|i: int, j: int| 0 <= i < j < surface@.categories.len() implies (
        #[trigger] surface@.categories[i]).name != (#[trigger] surface@.categories[j]).name by {
            assert(schema@.defs[i].name != schema@.defs[j].name);
        }
    }
    match check_surface(surface) {
        Ok(surface) => Ok(surface),
        Err(error) => {
            proof {
                match error {
                    SchemaError::DuplicateField { category, first, second } => {
                        assert(stands_for(
                            surface@.categories[category as int],
                            schema@.defs[category as int],
                            category as int,
                        ));
                    },
                    _ => {},
                }
            }
            Err(error)
        },
    }
}

} // verus!
