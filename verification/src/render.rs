//! The source text of a surface: the payload types, the dispatch type, its
//! constructor and one register and one fire function per category.

use crate::compiler::{compile, refuses};
use crate::limits::{nested_within, WEIGHT_LIMIT};
use crate::schema::{
    category_specs, compiled, declared_names_distinct, field_specs, Category, CategorySpec,
    FieldDef, FieldSpec, Schema, SchemaError, Surface, SurfaceSpec,
};
use vstd::prelude::*;
use vstd::string::*;

verus! {

/// The texts of `parts`, one after another.
pub open spec fn concat_all(parts: Seq<Seq<char>>) -> Seq<char>
    decreases parts.len(),
{
    if parts.len() == 0 {
        Seq::empty()
    } else {
        concat_all(parts.drop_last()) + parts.last()
    }
}

/// The part of the source text that holds one item per category.
#[derive(Debug, Clone, Copy, PartialEq, Eq, Structural)]
pub enum Section {
    /// The payload types of the categories that have fields.
    PayloadTypes,
    /// The fields of the dispatch type.
    ListenerFields,
    /// The initialisers of those fields in the constructor.
    Constructors,
    /// The register functions.
    RegisterFns,
    /// The fire functions.
    FireFns,
}

/// The type of the callbacks of `category`: they take the payload, if the
/// category has one, and return whether they handled the event.
pub open spec fn callback_type(category: CategorySpec) -> Seq<char> {
    match category.payload_type {
        Some(payload) => "fn("@ + payload + ") -> bool"@,
        None => "fn() -> bool"@,
    }
}

/// The declaration of one payload field.
pub open spec fn field_line(field: FieldSpec) -> Seq<char> {
    "    "@ + field.name + ": "@ + field.ty + ",\n"@
}

/// The declarations of `fields`, in order.
pub open spec fn field_lines(fields: Seq<FieldSpec>) -> Seq<char> {
    concat_all(fields.map_values(|f: FieldSpec| field_line(f)))
}

/// The payload type of `category`; nothing for a category without one.
pub open spec fn payload_type_item(category: CategorySpec) -> Seq<char> {
    match category.payload_type {
        Some(payload) => "#[derive(Clone)]\npub struct "@ + payload + " {\n"@ + field_lines(
            category.fields,
        ) + "}\n\n"@,
        None => Seq::empty(),
    }
}

/// The field of the dispatch type that holds the listeners of `category`.
pub open spec fn listeners_field_item(category: CategorySpec) -> Seq<char> {
    "    "@ + category.listeners_field + ": Vec<"@ + callback_type(category) + ">,\n"@
}

/// The initialiser of that field: an empty list.
pub open spec fn constructor_item(category: CategorySpec) -> Seq<char> {
    "            "@ + category.listeners_field + ": Vec::new(),\n"@
}

/// The register function of `category`: it appends the callback to the
/// category's list.
pub open spec fn register_fn_item(category: CategorySpec) -> Seq<char> {
    "\n    pub fn "@ + category.register_fn + "(&mut self, callback: "@ + callback_type(category)
        + ") {\n        self."@ + category.listeners_field + ".push(callback);\n    }\n"@
}

/// The fire function of `category`: it calls the callbacks of the category's
/// list in order, each on a copy of the payload if there is one, and returns
/// after the first that returns `true`.
pub open spec fn fire_fn_item(category: CategorySpec) -> Seq<char> {
    match category.payload_type {
        Some(payload) => "\n    pub fn "@ + category.fire_fn + "(&self, packet: "@ + payload
            + ") {\n        for callback in &self."@ + category.listeners_field
            + " {\n            if callback(packet.clone()) {\n                return;\n            }\n        }\n    }\n"@,
        None => "\n    pub fn "@ + category.fire_fn + "(&self) {\n        for callback in &self."@
            + category.listeners_field
            + " {\n            if callback() {\n                return;\n            }\n        }\n    }\n"@,
    }
}

/// The item that `section` holds for `category`.
pub open spec fn item(section: Section, category: CategorySpec) -> Seq<char> {
    match section {
        Section::PayloadTypes => payload_type_item(category),
        Section::ListenerFields => listeners_field_item(category),
        Section::Constructors => constructor_item(category),
        Section::RegisterFns => register_fn_item(category),
        Section::FireFns => fire_fn_item(category),
    }
}

/// The items that `section` holds for `categories`, in declaration order.
pub open spec fn section_text(section: Section, categories: Seq<CategorySpec>) -> Seq<char> {
    concat_all(categories.map_values(|c: CategorySpec| item(section, c)))
}

/// The source text of `surface`.
pub open spec fn rendered(surface: SurfaceSpec) -> Seq<char> {
    section_text(Section::PayloadTypes, surface.categories) + "pub struct "@ + surface.system_name
        + " {\n"@ + section_text(Section::ListenerFields, surface.categories) + "}\n\nimpl "@
        + surface.system_name + " {\n    pub fn new() -> Self {\n        Self {\n"@ + section_text(
        Section::Constructors,
        surface.categories,
    ) + "        }\n    }\n"@ + section_text(Section::RegisterFns, surface.categories)
        + section_text(Section::FireFns, surface.categories) + "}\n"@
}

/// Adding one part at the end adds its text at the end.
proof fn lemma_concat_all_push(parts: Seq<Seq<char>>, part: Seq<char>)
    ensures
        concat_all(parts.push(part)) == concat_all(parts) + part,
{
    assert(parts.push(part).drop_last() =~= parts);
}

/// Writes the type of the callbacks of `category`.
pub fn render_callback_type(category: &Category) -> (text: String)
    ensures
        text@ == callback_type(category@),
{
    match &category.payload_type {
        Some(payload) => {
            let mut text = String::from_str("fn(");
            text.append(payload.as_str());
            text.append(") -> bool");
            text
        },
        None => String::from_str("fn() -> bool"),
    }
}

/// Writes the declarations of `fields`, in order.
pub fn render_fields(fields: &Vec<FieldDef>) -> (text: String)
    ensures
        text@ == field_lines(field_specs(fields@)),
{
    let ghost lines = field_specs(fields@).map_values(|f: FieldSpec| field_line(f));
    let mut text = String::new();
    let mut f: usize = 0;
    while f < fields.len()
        invariant
            f <= fields.len(),
            lines == field_specs(fields@).map_values(|f: FieldSpec| field_line(f)),
            text@ == concat_all(lines.take(f as int)),
        decreases fields.len() - f,
    {
        let field = &fields[f];
        let mut line = String::from_str("    ");
        line.append(field.name.as_str());
        line.append(": ");
        line.append(field.ty.as_str());
        line.append(",\n");
        proof {
            assert(line@ == lines[f as int]);
            assert(lines.take(f + 1) =~= lines.take(f as int).push(lines[f as int]));
            lemma_concat_all_push(lines.take(f as int), lines[f as int]);
        }
        text.append(line.as_str());
        f = f + 1;
    }
    assert(lines.take(fields.len() as int) =~= lines);
    text
}

/// Writes the item that `section` holds for `category`.
pub fn render_item(section: Section, category: &Category) -> (text: String)
    ensures
        text@ == item(section, category@),
{
    match section {
        Section::PayloadTypes => match &category.payload_type {
            Some(payload) => {
                let mut text = String::from_str("#[derive(Clone)]\npub struct ");
                text.append(payload.as_str());
                text.append(" {\n");
                text.append(render_fields(&category.fields).as_str());
                text.append("}\n\n");
                text
            },
            None => String::new(),
        },
        Section::ListenerFields => {
            let mut text = String::from_str("    ");
            text.append(category.listeners_field.as_str());
            text.append(": Vec<");
            text.append(render_callback_type(category).as_str());
            text.append(">,\n");
            text
        },
        Section::Constructors => {
            let mut text = String::from_str("            ");
            text.append(category.listeners_field.as_str());
            text.append(": Vec::new(),\n");
            text
        },
        Section::RegisterFns => {
            let mut text = String::from_str("\n    pub fn ");
            text.append(category.register_fn.as_str());
            text.append("(&mut self, callback: ");
            text.append(render_callback_type(category).as_str());
            text.append(") {\n        self.");
            text.append(category.listeners_field.as_str());
            text.append(".push(callback);\n    }\n");
            text
        },
        Section::FireFns => {
            let mut text = String::from_str("\n    pub fn ");
            text.append(category.fire_fn.as_str());
            match &category.payload_type {
                Some(payload) => {
                    text.append("(&self, packet: ");
                    text.append(payload.as_str());
                    text.append(") {\n        for callback in &self.");
                    text.append(category.listeners_field.as_str());
                    text.append(
                        " {\n            if callback(packet.clone()) {\n                return;\n            }\n        }\n    }\n",
                    );
                },
                None => {
                    text.append("(&self) {\n        for callback in &self.");
                    text.append(category.listeners_field.as_str());
                    text.append(
                        " {\n            if callback() {\n                return;\n            }\n        }\n    }\n",
                    );
                },
            }
            text
        },
    }
}

/// Writes the items that `section` holds for `categories`, in declaration
/// order.
pub fn render_section(section: Section, categories: &Vec<Category>) -> (text: String)
    ensures
        text@ == section_text(section, category_specs(categories@)),
{
    let ghost items = category_specs(categories@).map_values(|c: CategorySpec| item(section, c));
    let mut text = String::new();
    let mut k: usize = 0;
    while k < categories.len()
        invariant
            k <= categories.len(),
            items == category_specs(categories@).map_values(|c: CategorySpec| item(section, c)),
            text@ == concat_all(items.take(k as int)),
        decreases categories.len() - k,
    {
        let part = render_item(section, &categories[k]);
        proof {
            assert(part@ == items[k as int]);
            assert(items.take(k + 1) =~= items.take(k as int).push(items[k as int]));
            lemma_concat_all_push(items.take(k as int), items[k as int]);
        }
        text.append(part.as_str());
        k = k + 1;
    }
    assert(items.take(categories.len() as int) =~= items);
    text
}

/// Writes the source text of `surface`.
pub fn render(surface: &Surface) -> (text: String)
    ensures
        text@ == rendered(surface@),
{
    let name = surface.system_name.as_str();
    let mut text = render_section(Section::PayloadTypes, &surface.categories);
    text.append("pub struct ");
    text.append(name);
    text.append(" {\n");
    text.append(render_section(Section::ListenerFields, &surface.categories).as_str());
    text.append("}\n\nimpl ");
    text.append(name);
    text.append(" {\n    pub fn new() -> Self {\n        Self {\n");
    text.append(render_section(Section::Constructors, &surface.categories).as_str());
    text.append("        }\n    }\n");
    text.append(render_section(Section::RegisterFns, &surface.categories).as_str());
    text.append(render_section(Section::FireFns, &surface.categories).as_str());
    text.append("}\n");
    text
}

/// Compiles `schema` and writes the source text of the surface: the text of
/// a surface of the schema, or the reason why the schema was refused.
pub fn create_event_system(schema: &Schema) -> (result: Result<String, SchemaError>)
    ensures
        (result matches Err(SchemaError::DuplicateCategory { .. })) <==> !declared_names_distinct(
            schema@,
        ),
        declared_names_distinct(schema@) && !nested_within(
            schema@.system_name,
            WEIGHT_LIMIT as nat,
        ) ==> result == Err::<String, SchemaError>(SchemaError::InvalidSystemName),
        match result {
            Ok(text) => exists|surface: SurfaceSpec|
                compiled(schema@, surface) && text@ == #[trigger] rendered(surface),
            Err(error) => refuses(schema@, error),
        },
{
    match compile(schema) {
        Ok(surface) => Ok(render(&surface)),
        Err(error) => Err(error),
    }
}

} // verus!
