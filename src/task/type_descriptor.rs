use vstd::prelude::*;

use crate::task::Error;

verus! {

/// Type descriptor for all supported integer types.
#[derive(Debug, Clone, Copy, PartialEq, Eq, Structural)]
pub enum IntTypeDescriptor {
    Int8,
    Int16,
    Int32,
    Int64,
}

/// Type descriptor for all supported floating-point types.
#[derive(Debug, Clone, Copy, PartialEq, Eq, Structural)]
pub enum FloatTypeDescriptor {
    Float32,
    Float64,
}

/// Type descriptor for all supported primitive types.
#[derive(Debug, Clone, Copy, PartialEq, Eq, Structural)]
pub enum PrimitiveTypeDescriptor {
    Int(IntTypeDescriptor),
    Float(FloatTypeDescriptor),
    Boolean,
}

/// Type descriptor for the byte array type.
#[derive(Debug, Clone, Copy, PartialEq, Eq, Structural)]
pub struct BytesTypeDescriptor {}

/// Type descriptor for all supported types that can be used as a key in a map.
#[derive(Debug, Clone, Copy, PartialEq, Eq, Structural)]
pub enum MapKeyTypeDescriptor {
    Int(IntTypeDescriptor),
    Bytes(BytesTypeDescriptor),
}

/// The name of a struct type: never empty.
#[derive(Debug, Clone)]
pub struct StructName {
    name: String,
}

/// Type descriptor for all supported types of a value.
///
/// As a descriptor, it doesn't record the field information for `Struct`: only the name is
/// recorded as an identifier.
#[derive(Debug)]
pub enum ValueTypeDescriptor {
    Primitive(PrimitiveTypeDescriptor),
    Bytes(BytesTypeDescriptor),
    Struct(StructName),
    List(Box<ValueTypeDescriptor>),
    MapType { key: MapKeyTypeDescriptor, value: Box<ValueTypeDescriptor> },
}

/// Type descriptor for all supported data types.
#[derive(Debug)]
pub enum DataTypeDescriptor {
    Value(ValueTypeDescriptor),
    SharedValue(ValueTypeDescriptor),
}

/// The mathematical value of a [`ValueTypeDescriptor`]: the same shape, with the struct name
/// as a sequence of characters.
pub enum ValueType {
    Primitive(PrimitiveTypeDescriptor),
    Bytes,
    Struct(Seq<char>),
    List(Box<ValueType>),
    MapType(MapKeyTypeDescriptor, Box<ValueType>),
}

/// The mathematical value of a [`DataTypeDescriptor`].
pub enum DataType {
    Value(ValueType),
    SharedValue(ValueType),
}

impl View for StructName {
    type V = Seq<char>;

    closed spec fn view(&self) -> Seq<char> {
        self.name@
    }
}

impl StructName {
    /// The well-formedness of a struct name: it is not empty.
    pub closed spec fn wf(&self) -> bool {
        self.name@.len() > 0
    }

    pub fn as_str(&self) -> (r: &str)
        ensures
            r@ == self@,
    {
        self.name.as_str()
    }

    /// A copy with the same characters.
    pub fn duplicate(&self) -> (r: StructName)
        ensures
            r@ == self@,
            self.wf() ==> r.wf(),
    {
        StructName { name: self.name.clone() }
    }
}

/// Relies on `non_empty_string::NonEmptyString::new`, which accepts a string exactly when it is
/// not empty, and `into_inner`, which hands the accepted string back.
#[verifier::external_body]
fn checked_non_empty(name: String) -> (r: Option<String>)
    ensures
        r is None <==> name@.len() == 0,
        r matches Some(s) ==> s@ == name@,
{
    non_empty_string::NonEmptyString::new(name).ok().map(non_empty_string::NonEmptyString::into_inner)
}

/// The view of a value type descriptor.
pub open spec fn value_type_of(v: &ValueTypeDescriptor) -> ValueType
    decreases v,
{
    match v {
        ValueTypeDescriptor::Primitive(p) => ValueType::Primitive(*p),
        ValueTypeDescriptor::Bytes(_) => ValueType::Bytes,
        ValueTypeDescriptor::Struct(n) => ValueType::Struct(n@),
        ValueTypeDescriptor::List(e) => ValueType::List(Box::new(value_type_of(&**e))),
        ValueTypeDescriptor::MapType { key, value } => ValueType::MapType(
            *key,
            Box::new(value_type_of(&**value)),
        ),
    }
}

/// Every struct name inside the descriptor is non-empty.
pub open spec fn value_type_wf(v: &ValueTypeDescriptor) -> bool
    decreases v,
{
    match v {
        ValueTypeDescriptor::Struct(n) => n.wf(),
        ValueTypeDescriptor::List(e) => value_type_wf(&**e),
        ValueTypeDescriptor::MapType { key, value } => value_type_wf(&**value),
        _ => true,
    }
}

impl View for ValueTypeDescriptor {
    type V = ValueType;

    open spec fn view(&self) -> ValueType {
        value_type_of(self)
    }
}

impl View for DataTypeDescriptor {
    type V = DataType;

    open spec fn view(&self) -> DataType {
        match self {
            DataTypeDescriptor::Value(v) => DataType::Value(v@),
            DataTypeDescriptor::SharedValue(v) => DataType::SharedValue(v@),
        }
    }
}

impl ValueTypeDescriptor {
    /// Every struct name inside the descriptor is non-empty.
    pub open spec fn wf(&self) -> bool {
        value_type_wf(self)
    }

    pub fn int8() -> (r: Self)
        ensures
            r@ == ValueType::Primitive(PrimitiveTypeDescriptor::Int(IntTypeDescriptor::Int8)),
            r.wf(),
    {
        ValueTypeDescriptor::Primitive(PrimitiveTypeDescriptor::Int(IntTypeDescriptor::Int8))
    }

    pub fn int16() -> (r: Self)
        ensures
            r@ == ValueType::Primitive(PrimitiveTypeDescriptor::Int(IntTypeDescriptor::Int16)),
            r.wf(),
    {
        ValueTypeDescriptor::Primitive(PrimitiveTypeDescriptor::Int(IntTypeDescriptor::Int16))
    }

    pub fn int32() -> (r: Self)
        ensures
            r@ == ValueType::Primitive(PrimitiveTypeDescriptor::Int(IntTypeDescriptor::Int32)),
            r.wf(),
    {
        ValueTypeDescriptor::Primitive(PrimitiveTypeDescriptor::Int(IntTypeDescriptor::Int32))
    }

    pub fn int64() -> (r: Self)
        ensures
            r@ == ValueType::Primitive(PrimitiveTypeDescriptor::Int(IntTypeDescriptor::Int64)),
            r.wf(),
    {
        ValueTypeDescriptor::Primitive(PrimitiveTypeDescriptor::Int(IntTypeDescriptor::Int64))
    }

    pub fn float32() -> (r: Self)
        ensures
            r@ == ValueType::Primitive(
                PrimitiveTypeDescriptor::Float(FloatTypeDescriptor::Float32),
            ),
            r.wf(),
    {
        ValueTypeDescriptor::Primitive(PrimitiveTypeDescriptor::Float(FloatTypeDescriptor::Float32))
    }

    pub fn float64() -> (r: Self)
        ensures
            r@ == ValueType::Primitive(
                PrimitiveTypeDescriptor::Float(FloatTypeDescriptor::Float64),
            ),
            r.wf(),
    {
        ValueTypeDescriptor::Primitive(PrimitiveTypeDescriptor::Float(FloatTypeDescriptor::Float64))
    }

    pub fn bool() -> (r: Self)
        ensures
            r@ == ValueType::Primitive(PrimitiveTypeDescriptor::Boolean),
            r.wf(),
    {
        ValueTypeDescriptor::Primitive(PrimitiveTypeDescriptor::Boolean)
    }

    pub fn bytes() -> (r: Self)
        ensures
            r@ == ValueType::Bytes,
            r.wf(),
    {
        ValueTypeDescriptor::Bytes(BytesTypeDescriptor {  })
    }

    /// Creates a `Struct` type descriptor from the given struct name, which must not be empty.
    pub fn struct_from_name(name: &str) -> (r: Result<Self, Error>)
        ensures
            r is Err <==> name@.len() == 0,
            r matches Err(e) ==> e is InvalidStructName,
            r matches Ok(v) ==> v@ == ValueType::Struct(name@) && v.wf(),
    {
        match checked_non_empty(name.to_owned()) {
            Some(accepted) => Ok(ValueTypeDescriptor::Struct(StructName { name: accepted })),
            None => Err(Error::InvalidStructName("Empty struct name is not allowed".to_owned())),
        }
    }

    pub fn list(element_type: Self) -> (r: Self)
        ensures
            r@ == ValueType::List(Box::new(element_type@)),
            r.wf() == element_type.wf(),
    {
        ValueTypeDescriptor::List(Box::new(element_type))
    }

    pub fn map(key: MapKeyTypeDescriptor, value: Self) -> (r: Self)
        ensures
            r@ == ValueType::MapType(key, Box::new(value@)),
            r.wf() == value.wf(),
    {
        ValueTypeDescriptor::MapType { key, value: Box::new(value) }
    }

    /// Structural equality: the two descriptors have the same shape and the same struct names.
    pub fn same_as(&self, other: &Self) -> (r: bool)
        ensures
            r == (self@ == other@),
        decreases self,
    {
        match (self, other) {
            (ValueTypeDescriptor::Primitive(a), ValueTypeDescriptor::Primitive(b)) => *a == *b,
            (ValueTypeDescriptor::Bytes(_), ValueTypeDescriptor::Bytes(_)) => true,
            (ValueTypeDescriptor::Struct(a), ValueTypeDescriptor::Struct(b)) => {
                let r = a.name == b.name;
                r
            },
            (ValueTypeDescriptor::List(a), ValueTypeDescriptor::List(b)) => {
                let r = (**a).same_as(&**b);
                proof {
                    if (value_type_of(&**a) == value_type_of(&**b)) {
                        assert(self@ == other@);
                    }
                    if self@ == other@ {
                        assert(Box::new(value_type_of(&**a)) == Box::new(value_type_of(&**b)));
                    }
                }
                r
            },
            (
                ValueTypeDescriptor::MapType { key: ka, value: va },
                ValueTypeDescriptor::MapType { key: kb, value: vb },
            ) => {
                if *ka == *kb {
                    let r = (**va).same_as(&**vb);
                    proof {
                        if self@ == other@ {
                            assert(Box::new(value_type_of(&**va)) == Box::new(
                                value_type_of(&**vb),
                            ));
                        }
                    }
                    r
                } else {
                    false
                }
            },
            _ => false,
        }
    }

    /// A deep copy: the same descriptor in new storage.
    pub fn duplicate(&self) -> (r: Self)
        ensures
            r@ == self@,
            r.wf() == self.wf(),
        decreases self,
    {
        match self {
            ValueTypeDescriptor::Primitive(p) => ValueTypeDescriptor::Primitive(*p),
            ValueTypeDescriptor::Bytes(b) => ValueTypeDescriptor::Bytes(*b),
            ValueTypeDescriptor::Struct(n) => ValueTypeDescriptor::Struct(n.duplicate()),
            ValueTypeDescriptor::List(e) => ValueTypeDescriptor::List(Box::new((**e).duplicate())),
            ValueTypeDescriptor::MapType { key, value } => ValueTypeDescriptor::MapType {
                key: *key,
                value: Box::new((**value).duplicate()),
            },
        }
    }
}

impl DataTypeDescriptor {
    /// Every struct name inside the descriptor is non-empty.
    pub open spec fn wf(&self) -> bool {
        match self {
            DataTypeDescriptor::Value(v) => v.wf(),
            DataTypeDescriptor::SharedValue(v) => v.wf(),
        }
    }

    /// Structural equality: the same qualifier and the same value type. This is the only test
    /// of data-flow compatibility: no coercion, no widening.
    pub fn same_as(&self, other: &Self) -> (r: bool)
        ensures
            r == (self@ == other@),
    {
        match (self, other) {
            (DataTypeDescriptor::Value(a), DataTypeDescriptor::Value(b)) => a.same_as(b),
            (DataTypeDescriptor::SharedValue(a), DataTypeDescriptor::SharedValue(b)) => a.same_as(
                b,
            ),
            _ => false,
        }
    }

    /// A deep copy: the same descriptor in new storage.
    pub fn duplicate(&self) -> (r: Self)
        ensures
            r@ == self@,
            r.wf() == self.wf(),
    {
        match self {
            DataTypeDescriptor::Value(v) => DataTypeDescriptor::Value(v.duplicate()),
            DataTypeDescriptor::SharedValue(v) => DataTypeDescriptor::SharedValue(v.duplicate()),
        }
    }
}

impl PartialEq for ValueTypeDescriptor {
    fn eq(&self, other: &Self) -> (r: bool) {
        self.same_as(other)
    }
}

impl vstd::std_specs::cmp::PartialEqSpecImpl for ValueTypeDescriptor {
    open spec fn obeys_eq_spec() -> bool {
        true
    }

    open spec fn eq_spec(&self, other: &Self) -> bool {
        self@ == other@
    }
}

impl Clone for ValueTypeDescriptor {
    fn clone(&self) -> (r: Self)
        ensures
            r@ == self@,
    {
        self.duplicate()
    }
}

impl Clone for DataTypeDescriptor {
    fn clone(&self) -> (r: Self)
        ensures
            r@ == self@,
    {
        self.duplicate()
    }
}

impl Eq for ValueTypeDescriptor {

}

impl PartialEq for DataTypeDescriptor {
    fn eq(&self, other: &Self) -> (r: bool) {
        self.same_as(other)
    }
}

impl vstd::std_specs::cmp::PartialEqSpecImpl for DataTypeDescriptor {
    open spec fn obeys_eq_spec() -> bool {
        true
    }

    open spec fn eq_spec(&self, other: &Self) -> bool {
        self@ == other@
    }
}

impl Eq for DataTypeDescriptor {

}

} // verus!
