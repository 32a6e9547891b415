//! Descriptions of types: tuples, arrays, structs and enums, and packages of
//! them.

use crate::schema::id::{same_container, SchemaIdContainer};
use vstd::prelude::*;
use vstd::std_specs::cmp::PartialEqSpecImpl;

verus! {

/// Position of the first entry at or after `from` whose name is `name`.
pub open spec fn name_position<T>(entries: Seq<(String, T)>, name: Seq<char>, from: int) -> Option<
    int,
>
    decreases entries.len() - from,
{
    if from < 0 || from >= entries.len() {
        None
    } else if entries[from].0@ == name {
        Some(from)
    } else {
        name_position(entries, name, from + 1)
    }
}

/// Whether `after` is `before` with `value` put under `name`: in place of the
/// first entry of that name, or at the end where there is none.
pub open spec fn is_upsert<T>(
    before: Seq<(String, T)>,
    after: Seq<(String, T)>,
    name: Seq<char>,
    value: T,
) -> bool {
    match name_position(before, name, 0) {
        Some(i) => {
            &&& after.len() == before.len()
            &&& after[i].0@ == name
            &&& after[i].1 == value
            &&& forall|j: int| 0 <= j < before.len() && j != i ==> after[j] == before[j]
        },
        None => {
            &&& after.len() == before.len() + 1
            &&& after[before.len() as int].0@ == name
            &&& after[before.len() as int].1 == value
            &&& forall|j: int| 0 <= j < before.len() ==> after[j] == before[j]
        },
    }
}

/// Finds the first entry whose name is `name`.
pub fn find_name<T>(entries: &Vec<(String, T)>, name: &String) -> (r: Option<usize>)
    ensures
        match r {
            Some(i) => name_position(entries@, name@, 0) == Some(i as int) && i < entries@.len(),
            None => name_position(entries@, name@, 0).is_none(),
        },
{
    let mut i: usize = 0;
    while i < entries.len()
        invariant
            i <= entries@.len(),
            name_position(entries@, name@, 0) == name_position(entries@, name@, i as int),
        decreases entries@.len() - i,
    {
        if entries[i].0 == *name {
            return Some(i);
        }
        i += 1;
    }
    None
}

/// Puts `value` under `name`: in place of the first entry of that name, or at
/// the end where there is none.
pub fn upsert_name<T>(entries: &mut Vec<(String, T)>, name: String, value: T)
    ensures
        is_upsert(old(entries)@, final(entries)@, name@, value),
{
    match find_name(entries, &name) {
        Some(i) => {
            entries.set(i, (name, value));
        },
        None => {
            entries.push((name, value));
        },
    }
}

/// The use of a type: its identifier and a description.
#[derive(Debug, Clone)]
pub struct SchemaTypeInstance {
    pub id: SchemaIdContainer,
    pub description: String,
}

/// Whether two uses of a type are alike: identifiers alike and the same
/// description.
pub open spec fn same_instance(a: SchemaTypeInstance, b: SchemaTypeInstance) -> bool {
    same_container(a.id, b.id) && a.description@ == b.description@
}

impl PartialEq for SchemaTypeInstance {
    fn eq(&self, other: &Self) -> (r: bool) {
        self.id == other.id && self.description == other.description
    }
}

impl PartialEqSpecImpl for SchemaTypeInstance {
    open spec fn obeys_eq_spec() -> bool {
        true
    }

    open spec fn eq_spec(&self, other: &Self) -> bool {
        same_instance(*self, *other)
    }
}

impl SchemaTypeInstance {
    /// The use of the type `id`, without description.
    pub fn new(id: SchemaIdContainer) -> (r: SchemaTypeInstance)
        ensures
            r.id == id,
            r.description@ == Seq::<char>::empty(),
    {
        SchemaTypeInstance { id, description: String::new() }
    }

    /// The same use with the given description.
    pub fn description(self, content: &str) -> (r: SchemaTypeInstance)
        ensures
            r.id == self.id,
            r.description@ == content@,
    {
        SchemaTypeInstance { id: self.id, description: content.to_owned() }
    }
}

/// The items of a tuple, in order.
#[derive(Debug, Clone)]
pub struct SchemaTypeTuple(pub Vec<SchemaTypeInstance>);

/// Whether two tuples are alike: as many items, alike in the same places.
pub open spec fn same_tuple(a: SchemaTypeTuple, b: SchemaTypeTuple) -> bool {
    &&& a.0@.len() == b.0@.len()
    &&& forall|i: int| 0 <= i < a.0@.len() ==> same_instance(#[trigger] a.0@[i], b.0@[i])
}

impl PartialEq for SchemaTypeTuple {
    fn eq(&self, other: &Self) -> (r: bool) {
        if self.0.len() != other.0.len() {
            return false;
        }
        let mut i: usize = 0;
        while i < self.0.len()
            invariant
                i <= self.0@.len(),
                self.0@.len() == other.0@.len(),
                forall|j: int| 0 <= j < i ==> same_instance(#[trigger] self.0@[j], other.0@[j]),
            decreases self.0@.len() - i,
        {
            if !(self.0[i] == other.0[i]) {
                return false;
            }
            i += 1;
        }
        true
    }
}

impl PartialEqSpecImpl for SchemaTypeTuple {
    open spec fn obeys_eq_spec() -> bool {
        true
    }

    open spec fn eq_spec(&self, other: &Self) -> bool {
        same_tuple(*self, *other)
    }
}

impl Default for SchemaTypeTuple {
    fn default() -> (r: Self)
        ensures
            r.0@ == Seq::<SchemaTypeInstance>::empty(),
    {
        SchemaTypeTuple(Vec::new())
    }
}

impl SchemaTypeTuple {
    /// The same tuple with one more item at its end.
    pub fn item(self, type_instance: SchemaTypeInstance) -> (r: SchemaTypeTuple)
        ensures
            r.0@ == self.0@.push(type_instance),
    {
        let mut items = self.0;
        items.push(type_instance);
        SchemaTypeTuple(items)
    }
}

/// The fields of a struct by name. A name occurs once; the order in which the
/// fields stand does not tell two structs apart.
#[derive(Debug, Clone)]
pub struct SchemaTypeStruct(pub Vec<(String, SchemaTypeInstance)>);

/// Whether two structs are alike: as many fields, and every field of the
/// first stands under its name in the second with a use alike.
pub open spec fn same_struct(a: SchemaTypeStruct, b: SchemaTypeStruct) -> bool {
    &&& a.0@.len() == b.0@.len()
    &&& forall|i: int|
        0 <= i < a.0@.len() ==> match name_position(b.0@, (#[trigger] a.0@[i]).0@, 0) {
            Some(j) => same_instance(a.0@[i].1, b.0@[j].1),
            None => false,
        }
}

impl PartialEq for SchemaTypeStruct {
    fn eq(&self, other: &Self) -> (r: bool) {
        if self.0.len() != other.0.len() {
            return false;
        }
        let mut i: usize = 0;
        while i < self.0.len()
            invariant
                i <= self.0@.len(),
                self.0@.len() == other.0@.len(),
                forall|t: int|
                    0 <= t < i ==> match name_position(other.0@, (#[trigger] self.0@[t]).0@, 0) {
                        Some(j) => same_instance(self.0@[t].1, other.0@[j].1),
                        None => false,
                    },
            decreases self.0@.len() - i,
        {
            match find_name(&other.0, &self.0[i].0) {
                Some(j) => {
                    if !(self.0[i].1 == other.0[j].1) {
                        return false;
                    }
                },
                None => {
                    return false;
                },
            }
            i += 1;
        }
        true
    }
}

impl PartialEqSpecImpl for SchemaTypeStruct {
    open spec fn obeys_eq_spec() -> bool {
        true
    }

    open spec fn eq_spec(&self, other: &Self) -> bool {
        same_struct(*self, *other)
    }
}

impl Default for SchemaTypeStruct {
    fn default() -> (r: Self)
        ensures
            r.0@ == Seq::<(String, SchemaTypeInstance)>::empty(),
    {
        SchemaTypeStruct(Vec::new())
    }
}

impl SchemaTypeStruct {
    /// The same struct with the field `name` set to `type_instance`.
    pub fn field(self, name: &str, type_instance: SchemaTypeInstance) -> (r: SchemaTypeStruct)
        ensures
            is_upsert(self.0@, r.0@, name@, type_instance),
    {
        let mut fields = self.0;
        upsert_name(&mut fields, name.to_owned(), type_instance);
        SchemaTypeStruct(fields)
    }
}

/// An array or a slice: the type of its items and their count.
#[derive(Debug, Clone)]
pub struct SchemaTypeArrayOrSlice {
    pub type_instance: SchemaTypeInstance,
    pub count: usize,
}

/// Whether two arrays or slices are alike: item types alike and the same
/// count.
pub open spec fn same_array(a: SchemaTypeArrayOrSlice, b: SchemaTypeArrayOrSlice) -> bool {
    same_instance(a.type_instance, b.type_instance) && a.count == b.count
}

impl PartialEq for SchemaTypeArrayOrSlice {
    fn eq(&self, other: &Self) -> (r: bool) {
        self.type_instance == other.type_instance && self.count == other.count
    }
}

impl PartialEqSpecImpl for SchemaTypeArrayOrSlice {
    open spec fn obeys_eq_spec() -> bool {
        true
    }

    open spec fn eq_spec(&self, other: &Self) -> bool {
        same_array(*self, *other)
    }
}

impl SchemaTypeArrayOrSlice {
    /// An array or slice of `count` items of the given type.
    pub fn new(type_instance: SchemaTypeInstance, count: usize) -> (r: SchemaTypeArrayOrSlice)
        ensures
            r.type_instance == type_instance,
            r.count == count,
    {
        SchemaTypeArrayOrSlice { type_instance, count }
    }
}

/// The content of a variant of an enum.
#[derive(Debug, Clone)]
pub enum SchemaTypeEnumVariant {
    /// No content.
    Empty,
    /// Positional content.
    Tuple(SchemaTypeTuple),
    /// Named content.
    Struct(SchemaTypeStruct),
}

/// Whether two variants are alike: the same kind of content, and content
/// alike.
pub open spec fn same_variant(a: SchemaTypeEnumVariant, b: SchemaTypeEnumVariant) -> bool {
    match a {
        SchemaTypeEnumVariant::Empty => b is Empty,
        SchemaTypeEnumVariant::Tuple(x) => match b {
            SchemaTypeEnumVariant::Tuple(y) => same_tuple(x, y),
            _ => false,
        },
        SchemaTypeEnumVariant::Struct(x) => match b {
            SchemaTypeEnumVariant::Struct(y) => same_struct(x, y),
            _ => false,
        },
    }
}

impl PartialEq for SchemaTypeEnumVariant {
    fn eq(&self, other: &Self) -> (r: bool) {
        match self {
            SchemaTypeEnumVariant::Empty => match other {
                SchemaTypeEnumVariant::Empty => true,
                _ => false,
            },
            SchemaTypeEnumVariant::Tuple(x) => match other {
                SchemaTypeEnumVariant::Tuple(y) => *x == *y,
                _ => false,
            },
            SchemaTypeEnumVariant::Struct(x) => match other {
                SchemaTypeEnumVariant::Struct(y) => *x == *y,
                _ => false,
            },
        }
    }
}

impl PartialEqSpecImpl for SchemaTypeEnumVariant {
    open spec fn obeys_eq_spec() -> bool {
        true
    }

    open spec fn eq_spec(&self, other: &Self) -> bool {
        same_variant(*self, *other)
    }
}

impl Default for SchemaTypeEnumVariant {
    fn default() -> (r: Self)
        ensures
            r == SchemaTypeEnumVariant::Empty,
    {
        SchemaTypeEnumVariant::Empty
    }
}

impl SchemaTypeEnumVariant {
    /// A variant with positional content.
    pub fn new_tuple(content: SchemaTypeTuple) -> (r: SchemaTypeEnumVariant)
        ensures
            r == SchemaTypeEnumVariant::Tuple(content),
    {
        SchemaTypeEnumVariant::Tuple(content)
    }

    /// A variant with named content.
    pub fn new_struct(content: SchemaTypeStruct) -> (r: SchemaTypeEnumVariant)
        ensures
            r == SchemaTypeEnumVariant::Struct(content),
    {
        SchemaTypeEnumVariant::Struct(content)
    }
}

/// The variants of an enum by name. A name occurs once; the order in which
/// the variants stand does not tell two enums apart.
#[derive(Debug, Clone)]
pub struct SchemaTypeEnum(pub Vec<(String, SchemaTypeEnumVariant)>);

/// Whether two enums are alike: as many variants, and every variant of the
/// first stands under its name in the second with content alike.
pub open spec fn same_enum(a: SchemaTypeEnum, b: SchemaTypeEnum) -> bool {
    &&& a.0@.len() == b.0@.len()
    &&& forall|i: int|
        0 <= i < a.0@.len() ==> match name_position(b.0@, (#[trigger] a.0@[i]).0@, 0) {
            Some(j) => same_variant(a.0@[i].1, b.0@[j].1),
            None => false,
        }
}

impl PartialEq for SchemaTypeEnum {
    fn eq(&self, other: &Self) -> (r: bool) {
        if self.0.len() != other.0.len() {
            return false;
        }
        let mut i: usize = 0;
        while i < self.0.len()
            invariant
                i <= self.0@.len(),
                self.0@.len() == other.0@.len(),
                forall|t: int|
                    0 <= t < i ==> match name_position(other.0@, (#[trigger] self.0@[t]).0@, 0) {
                        Some(j) => same_variant(self.0@[t].1, other.0@[j].1),
                        None => false,
                    },
            decreases self.0@.len() - i,
        {
            match find_name(&other.0, &self.0[i].0) {
                Some(j) => {
                    if !(self.0[i].1 == other.0[j].1) {
                        return false;
                    }
                },
                None => {
                    return false;
                },
            }
            i += 1;
        }
        true
    }
}

impl PartialEqSpecImpl for SchemaTypeEnum {
    open spec fn obeys_eq_spec() -> bool {
        true
    }

    open spec fn eq_spec(&self, other: &Self) -> bool {
        same_enum(*self, *other)
    }
}

impl Default for SchemaTypeEnum {
    fn default() -> (r: Self)
        ensures
            r.0@ == Seq::<(String, SchemaTypeEnumVariant)>::empty(),
    {
        SchemaTypeEnum(Vec::new())
    }
}

impl SchemaTypeEnum {
    /// The same enum with the variant `name` set to `content`.
    pub fn variant(self, name: &str, content: SchemaTypeEnumVariant) -> (r: SchemaTypeEnum)
        ensures
            is_upsert(self.0@, r.0@, name@, content),
    {
        let mut variants = self.0;
        upsert_name(&mut variants, name.to_owned(), content);
        SchemaTypeEnum(variants)
    }
}

/// The shape of a type.
#[derive(Debug, Clone)]
pub enum SchemaType {
    Tuple(SchemaTypeTuple),
    Array(SchemaTypeArrayOrSlice),
    Slice(SchemaTypeArrayOrSlice),
    TupleStruct(SchemaTypeTuple),
    Struct(SchemaTypeStruct),
    Enum(SchemaTypeEnum),
}

/// Whether two shapes are alike: the same kind of shape, and content alike.
pub open spec fn same_type(a: SchemaType, b: SchemaType) -> bool {
    match a {
        SchemaType::Tuple(x) => match b {
            SchemaType::Tuple(y) => same_tuple(x, y),
            _ => false,
        },
        SchemaType::Array(x) => match b {
            SchemaType::Array(y) => same_array(x, y),
            _ => false,
        },
        SchemaType::Slice(x) => match b {
            SchemaType::Slice(y) => same_array(x, y),
            _ => false,
        },
        SchemaType::TupleStruct(x) => match b {
            SchemaType::TupleStruct(y) => same_tuple(x, y),
            _ => false,
        },
        SchemaType::Struct(x) => match b {
            SchemaType::Struct(y) => same_struct(x, y),
            _ => false,
        },
        SchemaType::Enum(x) => match b {
            SchemaType::Enum(y) => same_enum(x, y),
            _ => false,
        },
    }
}

impl PartialEq for SchemaType {
    fn eq(&self, other: &Self) -> (r: bool) {
        match self {
            SchemaType::Tuple(x) => match other {
                SchemaType::Tuple(y) => *x == *y,
                _ => false,
            },
            SchemaType::Array(x) => match other {
                SchemaType::Array(y) => *x == *y,
                _ => false,
            },
            SchemaType::Slice(x) => match other {
                SchemaType::Slice(y) => *x == *y,
                _ => false,
            },
            SchemaType::TupleStruct(x) => match other {
                SchemaType::TupleStruct(y) => *x == *y,
                _ => false,
            },
            SchemaType::Struct(x) => match other {
                SchemaType::Struct(y) => *x == *y,
                _ => false,
            },
            SchemaType::Enum(x) => match other {
                SchemaType::Enum(y) => *x == *y,
                _ => false,
            },
        }
    }
}

impl PartialEqSpecImpl for SchemaType {
    open spec fn obeys_eq_spec() -> bool {
        true
    }

    open spec fn eq_spec(&self, other: &Self) -> bool {
        same_type(*self, *other)
    }
}

impl SchemaType {
    /// The shape of a tuple.
    pub fn new_tuple(content: SchemaTypeTuple) -> (r: SchemaType)
        ensures
            r == SchemaType::Tuple(content),
    {
        SchemaType::Tuple(content)
    }

    /// The shape of an array.
    pub fn new_array(content: SchemaTypeArrayOrSlice) -> (r: SchemaType)
        ensures
            r == SchemaType::Array(content),
    {
        SchemaType::Array(content)
    }

    /// The shape of a slice.
    pub fn new_slice(content: SchemaTypeArrayOrSlice) -> (r: SchemaType)
        ensures
            r == SchemaType::Slice(content),
    {
        SchemaType::Slice(content)
    }

    /// The shape of a tuple struct.
    pub fn new_tuple_struct(content: SchemaTypeTuple) -> (r: SchemaType)
        ensures
            r == SchemaType::TupleStruct(content),
    {
        SchemaType::TupleStruct(content)
    }

    /// The shape of a struct.
    pub fn new_struct(content: SchemaTypeStruct) -> (r: SchemaType)
        ensures
            r == SchemaType::Struct(content),
    {
        SchemaType::Struct(content)
    }

    /// The shape of an enum.
    pub fn new_enum(content: SchemaTypeEnum) -> (r: SchemaType)
        ensures
            r == SchemaType::Enum(content),
    {
        SchemaType::Enum(content)
    }
}

/// The description of a type: its shape and a text.
#[derive(Debug, Clone)]
pub struct Schema {
    pub data_type: SchemaType,
    pub description: String,
}

/// Whether two descriptions are alike: shapes alike and the same text.
pub open spec fn same_schema(a: Schema, b: Schema) -> bool {
    same_type(a.data_type, b.data_type) && a.description@ == b.description@
}

impl PartialEq for Schema {
    fn eq(&self, other: &Self) -> (r: bool) {
        self.data_type == other.data_type && self.description == other.description
    }
}

impl PartialEqSpecImpl for Schema {
    open spec fn obeys_eq_spec() -> bool {
        true
    }

    open spec fn eq_spec(&self, other: &Self) -> bool {
        same_schema(*self, *other)
    }
}

impl Schema {
    /// The description of a type of the given shape, without text.
    pub fn new(data_type: SchemaType) -> (r: Schema)
        ensures
            r.data_type == data_type,
            r.description@ == Seq::<char>::empty(),
    {
        Schema { data_type, description: String::new() }
    }

    /// The same description with the given text.
    pub fn description(self, content: &str) -> (r: Schema)
        ensures
            r.data_type == self.data_type,
            r.description@ == content@,
    {
        Schema { data_type: self.data_type, description: content.to_owned() }
    }
}

/// Position of the first entry at or after `from` whose identifier is like
/// `id`.
pub open spec fn schema_position(
    schemas: Seq<(SchemaIdContainer, Schema)>,
    id: SchemaIdContainer,
    from: int,
) -> Option<int>
    decreases schemas.len() - from,
{
    if from < 0 || from >= schemas.len() {
        None
    } else if same_container(schemas[from].0, id) {
        Some(from)
    } else {
        schema_position(schemas, id, from + 1)
    }
}

/// Descriptions of types by identifier. An identifier occurs once; the order
/// in which the descriptions stand does not tell two packages apart.
#[derive(Debug, Clone)]
pub struct SchemaPackage {
    pub prefer_tree_id: bool,
    pub schemas: Vec<(SchemaIdContainer, Schema)>,
}

/// Whether two packages are alike: the same preference, as many
/// descriptions, and every description of the first stands under its
/// identifier in the second with a description alike.
pub open spec fn same_package(a: SchemaPackage, b: SchemaPackage) -> bool {
    &&& a.prefer_tree_id == b.prefer_tree_id
    &&& a.schemas@.len() == b.schemas@.len()
    &&& forall|i: int|
        0 <= i < a.schemas@.len() ==> match schema_position(
            b.schemas@,
            (#[trigger] a.schemas@[i]).0,
            0,
        ) {
            Some(j) => same_schema(a.schemas@[i].1, b.schemas@[j].1),
            None => false,
        }
}

impl PartialEq for SchemaPackage {
    fn eq(&self, other: &Self) -> (r: bool) {
        if self.prefer_tree_id != other.prefer_tree_id || self.schemas.len() != other.schemas.len() {
            return false;
        }
        let mut i: usize = 0;
        while i < self.schemas.len()
            invariant
                i <= self.schemas@.len(),
                self.prefer_tree_id == other.prefer_tree_id,
                self.schemas@.len() == other.schemas@.len(),
                forall|t: int|
                    0 <= t < i ==> match schema_position(
                        other.schemas@,
                        (#[trigger] self.schemas@[t]).0,
                        0,
                    ) {
                        Some(j) => same_schema(self.schemas@[t].1, other.schemas@[j].1),
                        None => false,
                    },
            decreases self.schemas@.len() - i,
        {
            match other.find(&self.schemas[i].0) {
                Some(j) => {
                    if !(self.schemas[i].1 == other.schemas[j].1) {
                        return false;
                    }
                },
                None => {
                    return false;
                },
            }
            i += 1;
        }
        true
    }
}

impl PartialEqSpecImpl for SchemaPackage {
    open spec fn obeys_eq_spec() -> bool {
        true
    }

    open spec fn eq_spec(&self, other: &Self) -> bool {
        same_package(*self, *other)
    }
}

impl Default for SchemaPackage {
    fn default() -> (r: Self)
        ensures
            !r.prefer_tree_id,
            r.schemas@ == Seq::<(SchemaIdContainer, Schema)>::empty(),
    {
        SchemaPackage { prefer_tree_id: false, schemas: Vec::new() }
    }
}

impl SchemaPackage {
    /// An empty package with room for `capacity` descriptions.
    pub fn with_capacity(capacity: usize) -> (r: SchemaPackage)
        ensures
            !r.prefer_tree_id,
            r.schemas@ == Seq::<(SchemaIdContainer, Schema)>::empty(),
    {
        SchemaPackage { prefer_tree_id: false, schemas: Vec::with_capacity(capacity) }
    }

    /// The same package, preferring the tree form of identifiers or not.
    pub fn prefer_tree_id(self, value: bool) -> (r: SchemaPackage)
        ensures
            r.prefer_tree_id == value,
            r.schemas == self.schemas,
    {
        SchemaPackage { prefer_tree_id: value, schemas: self.schemas }
    }

    /// Finds the description of the type `id`.
    pub fn find(&self, id: &SchemaIdContainer) -> (r: Option<usize>)
        ensures
            match r {
                Some(i) => schema_position(self.schemas@, *id, 0) == Some(i as int) && i
                    < self.schemas@.len(),
                None => schema_position(self.schemas@, *id, 0).is_none(),
            },
    {
        let mut i: usize = 0;
        while i < self.schemas.len()
            invariant
                i <= self.schemas@.len(),
                schema_position(self.schemas@, *id, 0) == schema_position(
                    self.schemas@,
                    *id,
                    i as int,
                ),
            decreases self.schemas@.len() - i,
        {
            if self.schemas[i].0 == *id {
                return Some(i);
            }
            i += 1;
        }
        None
    }

    /// Puts the description `schema` under `id`: in place of the description
    /// that stood under a like identifier, or at the end where there is none.
    pub fn with(&mut self, id: SchemaIdContainer, schema: Schema)
        ensures
            final(self).prefer_tree_id == old(self).prefer_tree_id,
            match schema_position(old(self).schemas@, id, 0) {
                Some(i) => final(self).schemas@ == old(self).schemas@.update(i, (id, schema)),
                None => final(self).schemas@ == old(self).schemas@.push((id, schema)),
            },
    {
        match self.find(&id) {
            Some(i) => {
                self.schemas.set(i, (id, schema));
            },
            None => {
                self.schemas.push((id, schema));
            },
        }
    }
}

/// A type that can describe itself: `schema` puts the description of the type
/// into the package and gives the identifier under which it stands.
pub trait SchemaIntermediate: Sized {
    fn schema(package: &mut SchemaPackage) -> SchemaIdContainer;
}

} // verus!
