//! Schemas: the declared shape of a value. A schema is modelled as a labelled
//! tree: a head that says what kind of schema it is, and the child schemas it
//! nests, each of which may still be a reference.

use vstd::prelude::*;
use crate::reference::{RefOr, RefOrView};

verus! {

/// The declared format of a string.
#[derive(Debug)]
pub enum StringFormat {
    /// No format was declared.
    Empty,
    Date,
    DateTime,
    Byte,
    /// Any other format token, `uuid` among them.
    Other(String),
}

pub enum StringFormatView {
    Empty,
    Date,
    DateTime,
    Byte,
    Other(Seq<char>),
}

impl View for StringFormat {
    type V = StringFormatView;

    open spec fn view(&self) -> StringFormatView {
        match *self {
            StringFormat::Empty => StringFormatView::Empty,
            StringFormat::Date => StringFormatView::Date,
            StringFormat::DateTime => StringFormatView::DateTime,
            StringFormat::Byte => StringFormatView::Byte,
            StringFormat::Other(token) => StringFormatView::Other(token@),
        }
    }
}

/// The declared format of an integer.
#[derive(Debug, Clone, Copy, PartialEq, Eq, Structural)]
pub enum IntegerFormat {
    Empty,
    Int32,
    Int64,
    /// A format token that is neither `int32` nor `int64`.
    Unknown,
}

/// The declared format of a number.
#[derive(Debug, Clone, Copy, PartialEq, Eq, Structural)]
pub enum NumberFormat {
    Empty,
    Float,
    Double,
    /// A format token that is neither `float` nor `double`.
    Unknown,
}

#[derive(Debug)]
pub struct StringType {
    pub format: StringFormat,
}

#[derive(Debug)]
pub struct NumberType {
    pub format: NumberFormat,
}

#[derive(Debug)]
pub struct IntegerType {
    pub format: IntegerFormat,
    pub minimum: Option<i64>,
    pub maximum: Option<i64>,
    pub exclusive_minimum: bool,
    pub exclusive_maximum: bool,
    pub enumeration: Vec<i64>,
}

pub struct IntegerTypeView {
    pub format: IntegerFormat,
    pub minimum: Option<i64>,
    pub maximum: Option<i64>,
    pub exclusive_minimum: bool,
    pub exclusive_maximum: bool,
    pub enumeration: Seq<i64>,
}

impl View for IntegerType {
    type V = IntegerTypeView;

    open spec fn view(&self) -> IntegerTypeView {
        IntegerTypeView {
            format: self.format,
            minimum: self.minimum,
            maximum: self.maximum,
            exclusive_minimum: self.exclusive_minimum,
            exclusive_maximum: self.exclusive_maximum,
            enumeration: self.enumeration@,
        }
    }
}

/// A named property of an object schema. Properties stand in a list in the
/// order of the description; nothing looks one up by its name, so a name
/// that occurs more than once is resolved at each occurrence.
#[derive(Debug)]
pub struct Property {
    pub name: String,
    pub schema: RefOr<Schema>,
}

#[derive(Debug)]
pub struct ObjectType {
    pub properties: Vec<Property>,
}

#[derive(Debug)]
pub struct ArrayType {
    pub items: Option<Box<RefOr<Schema>>>,
}

/// A typed schema.
#[derive(Debug)]
pub enum Type {
    String(StringType),
    Number(NumberType),
    Integer(IntegerType),
    Object(ObjectType),
    Array(ArrayType),
    Boolean,
}

/// A schema without a declared type, which may still carry the parts of one.
#[derive(Debug)]
pub struct AnySchema {
    pub properties: Vec<Property>,
    pub items: Option<Box<RefOr<Schema>>>,
    pub one_of: Vec<RefOr<Schema>>,
    pub any_of: Vec<RefOr<Schema>>,
    pub all_of: Vec<RefOr<Schema>>,
}

#[derive(Debug)]
pub enum SchemaKind {
    Type(Type),
    OneOf { one_of: Vec<RefOr<Schema>> },
    AnyOf { any_of: Vec<RefOr<Schema>> },
    AllOf { all_of: Vec<RefOr<Schema>> },
    Not { not: Box<RefOr<Schema>> },
    Any(AnySchema),
}

#[derive(Debug)]
pub struct Schema {
    pub schema_kind: SchemaKind,
}

/// What a schema says of itself, its child schemas left out. Where the schema
/// nests children, the head records how they are grouped.
pub enum Head {
    String(StringFormatView),
    Number(NumberFormat),
    Integer(IntegerTypeView),
    Boolean,
    /// An object, with the names of its properties in order.
    Object(Seq<Seq<char>>),
    /// An array, and whether it declares its items.
    Array(bool),
    OneOf,
    AnyOf,
    AllOf,
    Not,
    /// An untyped schema: the names of its properties, whether it declares
    /// items, and how many alternatives stand under `oneOf` and `anyOf`; the
    /// remaining children stand under `allOf`.
    Any { properties: Seq<Seq<char>>, items: bool, one_of: nat, any_of: nat },
}

/// The model of a schema: its head and its children in document order
/// (properties, items, then the alternatives of `oneOf`, `anyOf`, `allOf`).
pub struct SchemaView {
    pub head: Head,
    pub children: Seq<RefOrView<SchemaView>>,
}

pub open spec fn slot_tree(slot: RefOr<Schema>) -> RefOrView<SchemaView>
    decreases slot,
{
    match slot {
        RefOr::Reference { reference } => RefOrView::Reference(reference@),
        RefOr::Item(schema) => RefOrView::Item(schema_tree(schema)),
    }
}

pub open spec fn slots_tree(slots: Seq<RefOr<Schema>>) -> Seq<RefOrView<SchemaView>>
    decreases slots,
{
    Seq::new(
        slots.len(),
        |i: int|
            if 0 <= i < slots.len() {
                slot_tree(slots[i])
            } else {
                arbitrary()
            },
    )
}

pub open spec fn boxed_tree(items: Option<Box<RefOr<Schema>>>) -> Seq<RefOrView<SchemaView>>
    decreases items,
{
    match items {
        Some(slot) => seq![slot_tree(*slot)],
        None => Seq::empty(),
    }
}

pub open spec fn property_names(properties: Seq<Property>) -> Seq<Seq<char>> {
    Seq::new(properties.len(), |i: int| properties[i].name@)
}

pub open spec fn property_trees(properties: Seq<Property>) -> Seq<RefOrView<SchemaView>>
    decreases properties,
{
    Seq::new(
        properties.len(),
        |i: int|
            if 0 <= i < properties.len() {
                slot_tree(properties[i].schema)
            } else {
                arbitrary()
            },
    )
}

pub open spec fn type_head(the_type: Type) -> Head {
    match the_type {
        Type::String(t) => Head::String(t.format@),
        Type::Number(t) => Head::Number(t.format),
        Type::Integer(t) => Head::Integer(t@),
        Type::Boolean => Head::Boolean,
        Type::Object(t) => Head::Object(property_names(t.properties@)),
        Type::Array(t) => Head::Array(t.items is Some),
    }
}

pub open spec fn schema_head(schema: Schema) -> Head {
    match schema.schema_kind {
        SchemaKind::Type(t) => type_head(t),
        SchemaKind::OneOf { .. } => Head::OneOf,
        SchemaKind::AnyOf { .. } => Head::AnyOf,
        SchemaKind::AllOf { .. } => Head::AllOf,
        SchemaKind::Not { .. } => Head::Not,
        SchemaKind::Any(a) => Head::Any {
            properties: property_names(a.properties@),
            items: a.items is Some,
            one_of: a.one_of@.len(),
            any_of: a.any_of@.len(),
        },
    }
}

pub open spec fn schema_children(schema: Schema) -> Seq<RefOrView<SchemaView>>
    decreases schema, 0nat,
{
    match schema.schema_kind {
        SchemaKind::Type(Type::Object(t)) => property_trees(t.properties@),
        SchemaKind::Type(Type::Array(t)) => boxed_tree(t.items),
        SchemaKind::Type(_) => Seq::empty(),
        SchemaKind::OneOf { one_of } => slots_tree(one_of@),
        SchemaKind::AnyOf { any_of } => slots_tree(any_of@),
        SchemaKind::AllOf { all_of } => slots_tree(all_of@),
        SchemaKind::Not { not } => seq![slot_tree(*not)],
        SchemaKind::Any(a) => property_trees(a.properties@) + boxed_tree(a.items) + slots_tree(
            a.one_of@,
        ) + slots_tree(a.any_of@) + slots_tree(a.all_of@),
    }
}

pub open spec fn schema_tree(schema: Schema) -> SchemaView
    decreases schema, 1nat,
{
    SchemaView { head: schema_head(schema), children: schema_children(schema) }
}

impl View for Schema {
    type V = SchemaView;

    open spec fn view(&self) -> SchemaView {
        schema_tree(*self)
    }
}

impl StringFormat {
    /// A copy with the same model.
    pub fn copy(&self) -> (out: StringFormat)
        ensures
            out@ == self@,
    {
        match self {
            StringFormat::Empty => StringFormat::Empty,
            StringFormat::Date => StringFormat::Date,
            StringFormat::DateTime => StringFormat::DateTime,
            StringFormat::Byte => StringFormat::Byte,
            StringFormat::Other(token) => StringFormat::Other(token.clone()),
        }
    }
}

impl IntegerType {
    /// A copy with the same model.
    pub fn copy(&self) -> (out: IntegerType)
        ensures
            out@ == self@,
    {
        let mut enumeration: Vec<i64> = Vec::new();
        let mut i: usize = 0;
        while i < self.enumeration.len()
            invariant
                i <= self.enumeration@.len(),
                enumeration@ == self.enumeration@.take(i as int),
            decreases self.enumeration@.len() - i,
        {
            enumeration.push(self.enumeration[i]);
            assert(self.enumeration@.take(i + 1) =~= self.enumeration@.take(i as int).push(
                self.enumeration@[i as int],
            ));
            i += 1;
        }
        assert(self.enumeration@.take(i as int) =~= self.enumeration@);
        IntegerType {
            format: self.format,
            minimum: self.minimum,
            maximum: self.maximum,
            exclusive_minimum: self.exclusive_minimum,
            exclusive_maximum: self.exclusive_maximum,
            enumeration,
        }
    }
}

/// A copy of a slot with the same model.
pub fn copy_slot(slot: &RefOr<Schema>) -> (out: RefOr<Schema>)
    ensures
        slot_tree(out) == slot_tree(*slot),
    decreases *slot,
{
    match slot {
        RefOr::Reference { reference } => RefOr::Reference { reference: reference.clone() },
        RefOr::Item(schema) => RefOr::Item(copy_schema(schema)),
    }
}

/// A copy of a list of slots with the same model.
pub fn copy_slots(slots: &Vec<RefOr<Schema>>) -> (out: Vec<RefOr<Schema>>)
    ensures
        slots_tree(out@) == slots_tree(slots@),
    decreases *slots,
{
    let mut out: Vec<RefOr<Schema>> = Vec::new();
    let mut i: usize = 0;
    while i < slots.len()
        invariant
            i <= slots@.len(),
            out@.len() == i,
            forall|j: int| 0 <= j < i ==> slot_tree(out@[j]) == slot_tree(slots@[j]),
        decreases slots@.len() - i,
    {
        assert(decreases_to!(*slots => slots[i as int]));
        out.push(copy_slot(&slots[i]));
        i += 1;
    }
    assert(slots_tree(out@) =~= slots_tree(slots@));
    out
}

/// A copy of an optional boxed slot with the same model.
pub fn copy_boxed(items: &Option<Box<RefOr<Schema>>>) -> (out: Option<Box<RefOr<Schema>>>)
    ensures
        boxed_tree(out) == boxed_tree(*items),
        out is Some == items is Some,
    decreases *items,
{
    match items {
        Some(slot) => Some(Box::new(copy_slot(slot))),
        None => None,
    }
}

/// A copy of a list of properties with the same model.
pub fn copy_properties(properties: &Vec<Property>) -> (out: Vec<Property>)
    ensures
        property_trees(out@) == property_trees(properties@),
        property_names(out@) == property_names(properties@),
    decreases *properties,
{
    let mut out: Vec<Property> = Vec::new();
    let mut i: usize = 0;
    while i < properties.len()
        invariant
            i <= properties@.len(),
            out@.len() == i,
            forall|j: int|
                0 <= j < i ==> out@[j].name@ == properties@[j].name@ && slot_tree(out@[j].schema)
                    == slot_tree(properties@[j].schema),
        decreases properties@.len() - i,
    {
        assert(decreases_to!(*properties => properties[i as int]));
        let property = &properties[i];
        out.push(Property { name: property.name.clone(), schema: copy_slot(&property.schema) });
        i += 1;
    }
    assert(property_trees(out@) =~= property_trees(properties@));
    assert(property_names(out@) =~= property_names(properties@));
    out
}

/// A copy of a schema with the same model.
pub fn copy_schema(schema: &Schema) -> (out: Schema)
    ensures
        out@ == schema@,
    decreases *schema,
{
    let schema_kind = match &schema.schema_kind {
        SchemaKind::Type(Type::String(t)) => SchemaKind::Type(
            Type::String(StringType { format: t.format.copy() }),
        ),
        SchemaKind::Type(Type::Number(t)) => SchemaKind::Type(
            Type::Number(NumberType { format: t.format }),
        ),
        SchemaKind::Type(Type::Integer(t)) => SchemaKind::Type(Type::Integer(t.copy())),
        SchemaKind::Type(Type::Boolean) => SchemaKind::Type(Type::Boolean),
        SchemaKind::Type(Type::Object(t)) => SchemaKind::Type(
            Type::Object(ObjectType { properties: copy_properties(&t.properties) }),
        ),
        SchemaKind::Type(Type::Array(t)) => SchemaKind::Type(
            Type::Array(ArrayType { items: copy_boxed(&t.items) }),
        ),
        SchemaKind::OneOf { one_of } => SchemaKind::OneOf { one_of: copy_slots(one_of) },
        SchemaKind::AnyOf { any_of } => SchemaKind::AnyOf { any_of: copy_slots(any_of) },
        SchemaKind::AllOf { all_of } => SchemaKind::AllOf { all_of: copy_slots(all_of) },
        SchemaKind::Not { not } => SchemaKind::Not { not: Box::new(copy_slot(not)) },
        SchemaKind::Any(a) => {
            let properties = copy_properties(&a.properties);
            let items = copy_boxed(&a.items);
            let one_of = copy_slots(&a.one_of);
            let any_of = copy_slots(&a.any_of);
            let all_of = copy_slots(&a.all_of);
            assert(one_of@.len() == slots_tree(one_of@).len());
            assert(a.one_of@.len() == slots_tree(a.one_of@).len());
            assert(any_of@.len() == slots_tree(any_of@).len());
            assert(a.any_of@.len() == slots_tree(a.any_of@).len());
            SchemaKind::Any(AnySchema { properties, items, one_of, any_of, all_of })
        },
    };
    Schema { schema_kind }
}

} // verus!
