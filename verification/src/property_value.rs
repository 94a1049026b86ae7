//! Which `Windows.Foundation.PropertyType` values have a language-neutral
//! payload, and how unboxing an object proceeds before its payload is read.
//! Querying the object and calling its getters is native work of the caller.

use vstd::prelude::*;

verus! {

/// The HRESULT of an object that does not implement a queried interface.
pub const E_NOINTERFACE: i32 = -2147467262i32;

/// The kinds of boxed payload that have a language-neutral representation,
/// one for each supported `PropertyType`.
#[derive(Clone, Copy, Debug, PartialEq, Eq, Structural)]
pub enum PropertyValueKind {
    UInt8,
    Int16,
    UInt16,
    Int32,
    UInt32,
    Int64,
    UInt64,
    Single,
    Double,
    Char16,
    Boolean,
    String,
    Guid,
    DateTime,
    TimeSpan,
    Point,
    Size,
    Rect,
    UInt8Array,
    Int16Array,
    UInt16Array,
    Int32Array,
    UInt32Array,
    Int64Array,
    UInt64Array,
    SingleArray,
    DoubleArray,
    Char16Array,
    BooleanArray,
    StringArray,
    InspectableArray,
    DateTimeArray,
    TimeSpanArray,
    GuidArray,
    PointArray,
    SizeArray,
    RectArray,
}

/// The values of `Windows.Foundation.PropertyType` for single values, as the
/// Windows metadata numbers them.
pub const PROPERTY_TYPE_UINT8: i32 = 1i32;

pub const PROPERTY_TYPE_INT16: i32 = 2i32;

pub const PROPERTY_TYPE_UINT16: i32 = 3i32;

pub const PROPERTY_TYPE_INT32: i32 = 4i32;

pub const PROPERTY_TYPE_UINT32: i32 = 5i32;

pub const PROPERTY_TYPE_INT64: i32 = 6i32;

pub const PROPERTY_TYPE_UINT64: i32 = 7i32;

pub const PROPERTY_TYPE_SINGLE: i32 = 8i32;

pub const PROPERTY_TYPE_DOUBLE: i32 = 9i32;

pub const PROPERTY_TYPE_CHAR16: i32 = 10i32;

pub const PROPERTY_TYPE_BOOLEAN: i32 = 11i32;

pub const PROPERTY_TYPE_STRING: i32 = 12i32;

pub const PROPERTY_TYPE_INSPECTABLE: i32 = 13i32;

pub const PROPERTY_TYPE_DATE_TIME: i32 = 14i32;

pub const PROPERTY_TYPE_TIME_SPAN: i32 = 15i32;

pub const PROPERTY_TYPE_GUID: i32 = 16i32;

pub const PROPERTY_TYPE_POINT: i32 = 17i32;

pub const PROPERTY_TYPE_SIZE: i32 = 18i32;

pub const PROPERTY_TYPE_RECT: i32 = 19i32;

/// What `Windows.Foundation.PropertyType` adds to a single-value type for the
/// array of such values.
pub const PROPERTY_TYPE_ARRAY_OFFSET: i32 = 1024i32;

/// The `PropertyType` code that a payload kind boxes as.
pub open spec fn spec_property_type(kind: PropertyValueKind) -> i32 {
    match kind {
        PropertyValueKind::UInt8 => 1i32,
        PropertyValueKind::Int16 => 2i32,
        PropertyValueKind::UInt16 => 3i32,
        PropertyValueKind::Int32 => 4i32,
        PropertyValueKind::UInt32 => 5i32,
        PropertyValueKind::Int64 => 6i32,
        PropertyValueKind::UInt64 => 7i32,
        PropertyValueKind::Single => 8i32,
        PropertyValueKind::Double => 9i32,
        PropertyValueKind::Char16 => 10i32,
        PropertyValueKind::Boolean => 11i32,
        PropertyValueKind::String => 12i32,
        PropertyValueKind::Guid => 16i32,
        PropertyValueKind::DateTime => 14i32,
        PropertyValueKind::TimeSpan => 15i32,
        PropertyValueKind::Point => 17i32,
        PropertyValueKind::Size => 18i32,
        PropertyValueKind::Rect => 19i32,
        PropertyValueKind::UInt8Array => 1025i32,
        PropertyValueKind::Int16Array => 1026i32,
        PropertyValueKind::UInt16Array => 1027i32,
        PropertyValueKind::Int32Array => 1028i32,
        PropertyValueKind::UInt32Array => 1029i32,
        PropertyValueKind::Int64Array => 1030i32,
        PropertyValueKind::UInt64Array => 1031i32,
        PropertyValueKind::SingleArray => 1032i32,
        PropertyValueKind::DoubleArray => 1033i32,
        PropertyValueKind::Char16Array => 1034i32,
        PropertyValueKind::BooleanArray => 1035i32,
        PropertyValueKind::StringArray => 1036i32,
        PropertyValueKind::InspectableArray => 1037i32,
        PropertyValueKind::DateTimeArray => 1038i32,
        PropertyValueKind::TimeSpanArray => 1039i32,
        PropertyValueKind::GuidArray => 1040i32,
        PropertyValueKind::PointArray => 1041i32,
        PropertyValueKind::SizeArray => 1042i32,
        PropertyValueKind::RectArray => 1043i32,
    }
}

impl PropertyValueKind {
    /// The `PropertyType` code this payload kind boxes as.
    pub fn property_type(&self) -> (r: i32)
        ensures
            r == spec_property_type(*self),
    {
        match self {
        PropertyValueKind::UInt8 => 1i32,
        PropertyValueKind::Int16 => 2i32,
        PropertyValueKind::UInt16 => 3i32,
        PropertyValueKind::Int32 => 4i32,
        PropertyValueKind::UInt32 => 5i32,
        PropertyValueKind::Int64 => 6i32,
        PropertyValueKind::UInt64 => 7i32,
        PropertyValueKind::Single => 8i32,
        PropertyValueKind::Double => 9i32,
        PropertyValueKind::Char16 => 10i32,
        PropertyValueKind::Boolean => 11i32,
        PropertyValueKind::String => 12i32,
        PropertyValueKind::Guid => 16i32,
        PropertyValueKind::DateTime => 14i32,
        PropertyValueKind::TimeSpan => 15i32,
        PropertyValueKind::Point => 17i32,
        PropertyValueKind::Size => 18i32,
        PropertyValueKind::Rect => 19i32,
        PropertyValueKind::UInt8Array => 1025i32,
        PropertyValueKind::Int16Array => 1026i32,
        PropertyValueKind::UInt16Array => 1027i32,
        PropertyValueKind::Int32Array => 1028i32,
        PropertyValueKind::UInt32Array => 1029i32,
        PropertyValueKind::Int64Array => 1030i32,
        PropertyValueKind::UInt64Array => 1031i32,
        PropertyValueKind::SingleArray => 1032i32,
        PropertyValueKind::DoubleArray => 1033i32,
        PropertyValueKind::Char16Array => 1034i32,
        PropertyValueKind::BooleanArray => 1035i32,
        PropertyValueKind::StringArray => 1036i32,
        PropertyValueKind::InspectableArray => 1037i32,
        PropertyValueKind::DateTimeArray => 1038i32,
        PropertyValueKind::TimeSpanArray => 1039i32,
        PropertyValueKind::GuidArray => 1040i32,
        PropertyValueKind::PointArray => 1041i32,
        PropertyValueKind::SizeArray => 1042i32,
        PropertyValueKind::RectArray => 1043i32,
        }
    }
}

/// The codes with a language-neutral payload: every scalar type but
/// `Empty`, `Inspectable` and `OtherType`, and every array type but
/// `OtherTypeArray`.
pub open spec fn is_supported_property_type(code: i32) -> bool {
    (1 <= code <= 12) || (14 <= code <= 19) || (1025 <= code <= 1043)
}

/// The payload kind of a `PropertyType` code; `None` for the codes whose
/// values must be preserved as objects.
pub fn payload_kind(code: i32) -> (r: Option<PropertyValueKind>)
    ensures
        r is Some <==> is_supported_property_type(code),
        r matches Some(kind) ==> spec_property_type(kind) == code,
{
    match code {
        1i32 => Some(PropertyValueKind::UInt8),
        2i32 => Some(PropertyValueKind::Int16),
        3i32 => Some(PropertyValueKind::UInt16),
        4i32 => Some(PropertyValueKind::Int32),
        5i32 => Some(PropertyValueKind::UInt32),
        6i32 => Some(PropertyValueKind::Int64),
        7i32 => Some(PropertyValueKind::UInt64),
        8i32 => Some(PropertyValueKind::Single),
        9i32 => Some(PropertyValueKind::Double),
        10i32 => Some(PropertyValueKind::Char16),
        11i32 => Some(PropertyValueKind::Boolean),
        12i32 => Some(PropertyValueKind::String),
        14i32 => Some(PropertyValueKind::DateTime),
        15i32 => Some(PropertyValueKind::TimeSpan),
        16i32 => Some(PropertyValueKind::Guid),
        17i32 => Some(PropertyValueKind::Point),
        18i32 => Some(PropertyValueKind::Size),
        19i32 => Some(PropertyValueKind::Rect),
        1025i32 => Some(PropertyValueKind::UInt8Array),
        1026i32 => Some(PropertyValueKind::Int16Array),
        1027i32 => Some(PropertyValueKind::UInt16Array),
        1028i32 => Some(PropertyValueKind::Int32Array),
        1029i32 => Some(PropertyValueKind::UInt32Array),
        1030i32 => Some(PropertyValueKind::Int64Array),
        1031i32 => Some(PropertyValueKind::UInt64Array),
        1032i32 => Some(PropertyValueKind::SingleArray),
        1033i32 => Some(PropertyValueKind::DoubleArray),
        1034i32 => Some(PropertyValueKind::Char16Array),
        1035i32 => Some(PropertyValueKind::BooleanArray),
        1036i32 => Some(PropertyValueKind::StringArray),
        1037i32 => Some(PropertyValueKind::InspectableArray),
        1038i32 => Some(PropertyValueKind::DateTimeArray),
        1039i32 => Some(PropertyValueKind::TimeSpanArray),
        1040i32 => Some(PropertyValueKind::GuidArray),
        1041i32 => Some(PropertyValueKind::PointArray),
        1042i32 => Some(PropertyValueKind::SizeArray),
        1043i32 => Some(PropertyValueKind::RectArray),
        _ => None,
    }
}

/// Each payload kind boxes as the `Windows.Foundation.PropertyType` of the
/// same name, and the array of a type boxes as that type's code plus the
/// array offset.
pub proof fn lemma_kinds_box_as_their_windows_property_type()
    ensures
        spec_property_type(PropertyValueKind::UInt8) == PROPERTY_TYPE_UINT8,
        spec_property_type(PropertyValueKind::Int16) == PROPERTY_TYPE_INT16,
        spec_property_type(PropertyValueKind::UInt16) == PROPERTY_TYPE_UINT16,
        spec_property_type(PropertyValueKind::Int32) == PROPERTY_TYPE_INT32,
        spec_property_type(PropertyValueKind::UInt32) == PROPERTY_TYPE_UINT32,
        spec_property_type(PropertyValueKind::Int64) == PROPERTY_TYPE_INT64,
        spec_property_type(PropertyValueKind::UInt64) == PROPERTY_TYPE_UINT64,
        spec_property_type(PropertyValueKind::Single) == PROPERTY_TYPE_SINGLE,
        spec_property_type(PropertyValueKind::Double) == PROPERTY_TYPE_DOUBLE,
        spec_property_type(PropertyValueKind::Char16) == PROPERTY_TYPE_CHAR16,
        spec_property_type(PropertyValueKind::Boolean) == PROPERTY_TYPE_BOOLEAN,
        spec_property_type(PropertyValueKind::String) == PROPERTY_TYPE_STRING,
        spec_property_type(PropertyValueKind::DateTime) == PROPERTY_TYPE_DATE_TIME,
        spec_property_type(PropertyValueKind::TimeSpan) == PROPERTY_TYPE_TIME_SPAN,
        spec_property_type(PropertyValueKind::Guid) == PROPERTY_TYPE_GUID,
        spec_property_type(PropertyValueKind::Point) == PROPERTY_TYPE_POINT,
        spec_property_type(PropertyValueKind::Size) == PROPERTY_TYPE_SIZE,
        spec_property_type(PropertyValueKind::Rect) == PROPERTY_TYPE_RECT,
        spec_property_type(PropertyValueKind::UInt8Array) == PROPERTY_TYPE_UINT8 + PROPERTY_TYPE_ARRAY_OFFSET,
        spec_property_type(PropertyValueKind::Int16Array) == PROPERTY_TYPE_INT16 + PROPERTY_TYPE_ARRAY_OFFSET,
        spec_property_type(PropertyValueKind::UInt16Array) == PROPERTY_TYPE_UINT16 + PROPERTY_TYPE_ARRAY_OFFSET,
        spec_property_type(PropertyValueKind::Int32Array) == PROPERTY_TYPE_INT32 + PROPERTY_TYPE_ARRAY_OFFSET,
        spec_property_type(PropertyValueKind::UInt32Array) == PROPERTY_TYPE_UINT32 + PROPERTY_TYPE_ARRAY_OFFSET,
        spec_property_type(PropertyValueKind::Int64Array) == PROPERTY_TYPE_INT64 + PROPERTY_TYPE_ARRAY_OFFSET,
        spec_property_type(PropertyValueKind::UInt64Array) == PROPERTY_TYPE_UINT64 + PROPERTY_TYPE_ARRAY_OFFSET,
        spec_property_type(PropertyValueKind::SingleArray) == PROPERTY_TYPE_SINGLE + PROPERTY_TYPE_ARRAY_OFFSET,
        spec_property_type(PropertyValueKind::DoubleArray) == PROPERTY_TYPE_DOUBLE + PROPERTY_TYPE_ARRAY_OFFSET,
        spec_property_type(PropertyValueKind::Char16Array) == PROPERTY_TYPE_CHAR16 + PROPERTY_TYPE_ARRAY_OFFSET,
        spec_property_type(PropertyValueKind::BooleanArray) == PROPERTY_TYPE_BOOLEAN + PROPERTY_TYPE_ARRAY_OFFSET,
        spec_property_type(PropertyValueKind::StringArray) == PROPERTY_TYPE_STRING + PROPERTY_TYPE_ARRAY_OFFSET,
        spec_property_type(PropertyValueKind::InspectableArray) == PROPERTY_TYPE_INSPECTABLE + PROPERTY_TYPE_ARRAY_OFFSET,
        spec_property_type(PropertyValueKind::DateTimeArray) == PROPERTY_TYPE_DATE_TIME + PROPERTY_TYPE_ARRAY_OFFSET,
        spec_property_type(PropertyValueKind::TimeSpanArray) == PROPERTY_TYPE_TIME_SPAN + PROPERTY_TYPE_ARRAY_OFFSET,
        spec_property_type(PropertyValueKind::GuidArray) == PROPERTY_TYPE_GUID + PROPERTY_TYPE_ARRAY_OFFSET,
        spec_property_type(PropertyValueKind::PointArray) == PROPERTY_TYPE_POINT + PROPERTY_TYPE_ARRAY_OFFSET,
        spec_property_type(PropertyValueKind::SizeArray) == PROPERTY_TYPE_SIZE + PROPERTY_TYPE_ARRAY_OFFSET,
        spec_property_type(PropertyValueKind::RectArray) == PROPERTY_TYPE_RECT + PROPERTY_TYPE_ARRAY_OFFSET,
{
}

/// Every payload kind boxes as a supported type, and no two kinds box as the
/// same type, so unboxing that type gives the kind back.
pub proof fn lemma_payload_kind_round_trip(kind: PropertyValueKind, other: PropertyValueKind)
    ensures
        is_supported_property_type(spec_property_type(kind)),
        spec_property_type(other) == spec_property_type(kind) ==> other == kind,
{
}

/// The step that unboxing takes once it knows whether the value is the null
/// object, whether it is an object at all, and how querying it for
/// `IPropertyValue` ended.
#[derive(Clone, Copy, Debug, PartialEq, Eq, Structural)]
pub enum UnboxStep {
    Null,
    NotPropertyValue,
    ReadPayload,
}

pub open spec fn spec_unbox_step(is_null_object: bool, is_object: bool, query: Result<(), i32>) -> Result<UnboxStep, i32> {
    if is_null_object {
        Ok(UnboxStep::Null)
    } else if !is_object {
        Ok(UnboxStep::NotPropertyValue)
    } else {
        match query {
            Ok(()) => Ok(UnboxStep::ReadPayload),
            Err(code) => if code == E_NOINTERFACE {
                Ok(UnboxStep::NotPropertyValue)
            } else {
                Err(code)
            },
        }
    }
}

/// Null and non-`IPropertyValue` objects are classified rather than
/// rejected; a query failure other than `E_NOINTERFACE` is an error.
pub fn unbox_step(is_null_object: bool, is_object: bool, query: Result<(), i32>) -> (r: Result<UnboxStep, i32>)
    ensures
        r == spec_unbox_step(is_null_object, is_object, query),
{
    if is_null_object {
        return Ok(UnboxStep::Null);
    }
    if !is_object {
        return Ok(UnboxStep::NotPropertyValue);
    }
    match query {
        Ok(()) => Ok(UnboxStep::ReadPayload),
        Err(code) => {
            if code == E_NOINTERFACE {
                Ok(UnboxStep::NotPropertyValue)
            } else {
                Err(code)
            }
        },
    }
}

} // verus!
