use vstd::prelude::*;

use crate::str_map::{assoc_map, keys_ascending, StrMap};

verus! {

/// The number of bytes of an account address.
pub const ADDRESS_SIZE: usize = 20;

/// An account address.
#[derive(Clone, Copy, PartialEq, Eq, Hash, Debug)]
pub struct Address(pub(crate) [u8; 20]);

impl View for Address {
    type V = Seq<u8>;

    closed spec fn view(&self) -> Seq<u8> {
        self.0@
    }
}

impl Address {
    /// The address with these bytes.
    pub fn from(raw: [u8; 20]) -> (r: Address)
        ensures
            r@ == raw@,
    {
        Address(raw)
    }

    /// The bytes of the address.
    pub fn raw(self) -> (r: [u8; 20])
        ensures
            r@ == self@,
    {
        self.0
    }

    /// The bytes of the address, for writing.
    pub fn ref_mut(&mut self) -> (r: &mut [u8; 20])
        ensures
            r@ == old(self)@,
            final(self)@ == final(r)@,
    {
        &mut self.0
    }

    /// The address of twenty zero bytes.
    pub fn zero() -> (r: Address)
        ensures
            r@ == Seq::new(20, |i: int| 0u8),
    {
        let r = Address([0u8; 20]);
        assert(r@ =~= Seq::new(20, |i: int| 0u8));
        r
    }

    /// The number of bytes of an address.
    pub fn len() -> (r: usize)
        ensures
            r == 20,
    {
        20
    }
}

#[verifier::external_type_specification]
#[verifier::external_body]
pub struct ExBigInt(num_bigint::BigInt);

/// A value of the calldata format.
pub enum Value {
    Null,
    Address(Address),
    Bool(bool),
    Str(String),
    Bytes(Vec<u8>),
    Number(num_bigint::BigInt),
    /// Entries by key; no key occurs twice.
    Dict(Vec<(String, Value)>),
    Array(Vec<Value>),
}


/// `v` is a dictionary of one entry: `value` under `key`.
pub open spec fn is_single_entry(v: Value, key: Seq<char>, value: Value) -> bool {
    match v {
        Value::Dict(d) => d@.len() == 1 && d@[0].0@ == key && d@[0].1 == value,
        _ => false,
    }
}

/// `v` is a dictionary that holds the map `m`, its keys in ascending order.
pub open spec fn is_dict_of(v: Value, m: Map<Seq<char>, Value>) -> bool {
    match v {
        Value::Dict(d) => keys_ascending(d@) && assoc_map(d@) == m,
        _ => false,
    }
}

/// Builds calldata values out of what a serializer is handed.
pub struct Serializer;

impl Serializer {
    /// A variant without data: its name.
    pub fn unit_variant(variant: String) -> (r: Value)
        ensures
            r == Value::Str(variant),
    {
        Value::Str(variant)
    }

    /// A variant with one value: the value under the variant's name.
    pub fn newtype_variant(variant: String, value: Value) -> (r: Value)
        ensures
            is_single_entry(r, variant@, value),
    {
        let mut d: Vec<(String, Value)> = Vec::new();
        d.push((variant, value));
        Value::Dict(d)
    }
}

/// The elements of a sequence or tuple, in order.
pub struct SerializeVec {
    pub vec: Vec<Value>,
}

impl SerializeVec {
    /// No elements yet.
    pub fn new() -> (r: SerializeVec)
        ensures
            r.vec@.len() == 0,
    {
        SerializeVec { vec: Vec::new() }
    }

    /// Adds the next element.
    pub fn serialize_element(&mut self, value: Value)
        ensures
            final(self).vec@ == old(self).vec@.push(value),
    {
        self.vec.push(value);
    }

    /// The array of the elements.
    pub fn end(self) -> (r: Value)
        ensures
            r == Value::Array(self.vec),
    {
        Value::Array(self.vec)
    }
}

/// The fields of a tuple variant, in order.
pub struct SerializeTupleVariant {
    pub name: String,
    pub vec: Vec<Value>,
}

impl SerializeTupleVariant {
    /// Variant `name`, no fields yet.
    pub fn new(name: String) -> (r: SerializeTupleVariant)
        ensures
            r.name == name,
            r.vec@.len() == 0,
    {
        SerializeTupleVariant { name, vec: Vec::new() }
    }

    /// Adds the next field.
    pub fn serialize_field(&mut self, value: Value)
        ensures
            final(self).vec@ == old(self).vec@.push(value),
            final(self).name == old(self).name,
    {
        self.vec.push(value);
    }

    /// The array of the fields under the variant's name.
    pub fn end(self) -> (r: Value)
        ensures
            is_single_entry(r, self.name@, Value::Array(self.vec)),
    {
        let mut d: Vec<(String, Value)> = Vec::new();
        d.push((self.name, Value::Array(self.vec)));
        Value::Dict(d)
    }
}

/// The entries of a map or struct: a key, then its value; a later value of a key replaces the
/// earlier one.
pub struct SerializeMap {
    pub map: StrMap<Value>,
    pub next_key: Option<String>,
}

impl SerializeMap {
    /// No entries yet.
    pub fn new() -> (r: SerializeMap)
        ensures
            r.map@ == Map::<Seq<char>, Value>::empty(),
            r.next_key is None,
    {
        SerializeMap { map: StrMap::new(), next_key: None }
    }

    /// The key of the next entry.
    pub fn serialize_key(&mut self, key: String)
        ensures
            final(self).next_key == Some(key),
            final(self).map@ == old(self).map@,
    {
        self.next_key = Some(key);
    }

    /// The value of the entry whose key came last; a value needs its key first.
    pub fn serialize_value(&mut self, value: Value)
        requires
            old(self).next_key is Some,
        ensures
            final(self).map@ == old(self).map@.insert(old(self).next_key->0@, value),
            final(self).next_key is None,
    {
        let key = self.next_key.take().unwrap();
        self.map.insert(key, value);
    }

    /// A named field of a struct.
    pub fn serialize_field(&mut self, key: &str, value: Value)
        ensures
            final(self).map@ == old(self).map@.insert(key@, value),
            final(self).next_key is None,
    {
        self.serialize_key(String::from_str(key));
        self.serialize_value(value);
    }

    /// The dictionary of the entries, in key order.
    pub fn end(self) -> (r: Value)
        ensures
            is_dict_of(r, self.map@),
    {
        Value::Dict(self.map.into_entries())
    }
}

/// The named fields of a struct variant.
pub struct SerializeStructVariant {
    pub name: String,
    pub map: StrMap<Value>,
}

impl SerializeStructVariant {
    /// Variant `name`, no fields yet.
    pub fn new(name: String) -> (r: SerializeStructVariant)
        ensures
            r.name == name,
            r.map@ == Map::<Seq<char>, Value>::empty(),
    {
        SerializeStructVariant { name, map: StrMap::new() }
    }

    /// A named field; a later value of a name replaces the earlier one.
    pub fn serialize_field(&mut self, key: &str, value: Value)
        ensures
            final(self).map@ == old(self).map@.insert(key@, value),
            final(self).name == old(self).name,
    {
        self.map.insert(String::from_str(key), value);
    }

    /// The dictionary of the fields under the variant's name.
    pub fn end(self) -> (r: Value)
        ensures
            match r {
                Value::Dict(d) => d@.len() == 1 && d@[0].0@ == self.name@ && is_dict_of(
                    d@[0].1,
                    self.map@,
                ),
                _ => false,
            },
    {
        let inner = Value::Dict(self.map.into_entries());
        let mut d: Vec<(String, Value)> = Vec::new();
        d.push((self.name, inner));
        Value::Dict(d)
    }
}

} // verus!
