//! Conversions between flat Win32 values and their native storage, and the
//! classification of native results by a plan's success rule.

use vstd::prelude::*;

use crate::abi::AbiValue;
use crate::error::Win32Error;
use crate::win32::{Cleanup, SuccessRule, Type, Value};

verus! {

/// The native storage for an argument of type `typ`. For a managed resource,
/// `owner_cleanup` is the cleanup of its owner and `resource_bits` the value
/// held under the call's lock of that owner.
pub open spec fn spec_value_to_abi(
    typ: Type,
    value: Value,
    nullable: bool,
    resource_cleanup: Cleanup,
    owner_cleanup: Cleanup,
    resource_bits: Option<usize>,
) -> Result<AbiValue, Win32Error> {
    match (typ, value) {
        (Type::Bool32, Value::Bool(b)) => Ok(AbiValue::I32(if b { 1i32 } else { 0i32 })),
        (Type::I8, Value::I8(v)) => Ok(AbiValue::I8(v)),
        (Type::U8, Value::U8(v)) => Ok(AbiValue::U8(v)),
        (Type::I16, Value::I16(v)) => Ok(AbiValue::I16(v)),
        (Type::U16, Value::U16(v)) => Ok(AbiValue::U16(v)),
        (Type::I32, Value::I32(v)) => Ok(AbiValue::I32(v)),
        (Type::U32, Value::U32(v)) => Ok(AbiValue::U32(v)),
        (Type::I64, Value::I64(v)) => Ok(AbiValue::I64(v)),
        (Type::U64, Value::U64(v)) => Ok(AbiValue::U64(v)),
        (Type::F32, Value::F32(v)) => Ok(AbiValue::F32(v)),
        (Type::F64, Value::F64(v)) => Ok(AbiValue::F64(v)),
        (Type::Pointer, Value::Pointer(p)) => if nullable || p != 0 {
            Ok(AbiValue::Pointer(p))
        } else {
            Err(Win32Error::ArgumentMismatch(typ))
        },
        (Type::FunctionPointer, Value::FunctionPointer(p)) => if nullable || p != 0 {
            Ok(AbiValue::Pointer(p))
        } else {
            Err(Win32Error::ArgumentMismatch(typ))
        },
        (Type::Handle, Value::Handle(h)) => Ok(AbiValue::Pointer(h)),
        (Type::Handle, Value::Resource(_)) => if resource_cleanup == Cleanup::NotOwned
            || owner_cleanup != resource_cleanup {
            Err(Win32Error::HandleCleanupMismatch)
        } else {
            match resource_bits {
                None => Err(Win32Error::NoCallLease),
                Some(bits) => if bits == 0 {
                    Err(Win32Error::ClosedResourceHandle)
                } else {
                    Ok(AbiValue::Pointer(bits))
                },
            }
        },
        (Type::Pointer, Value::Null) | (Type::FunctionPointer, Value::Null) | (
            Type::Handle,
            Value::Null,
        ) => if nullable {
            Ok(AbiValue::Pointer(0))
        } else {
            Err(Win32Error::ArgumentMismatch(typ))
        },
        _ => Err(Win32Error::ArgumentMismatch(typ)),
    }
}

/// Converts an argument to its native storage.
pub fn value_to_abi(
    typ: Type,
    value: &Value,
    nullable: bool,
    resource_cleanup: Cleanup,
    owner_cleanup: Cleanup,
    resource_bits: Option<usize>,
) -> (r: Result<AbiValue, Win32Error>)
    ensures
        r == spec_value_to_abi(typ, *value, nullable, resource_cleanup, owner_cleanup, resource_bits),
        r matches Ok(abi) ==> abi.abi_type() == typ.spec_abi_type(),
{
    match (typ, value) {
        (Type::Bool32, Value::Bool(b)) => Ok(AbiValue::I32(if *b { 1i32 } else { 0i32 })),
        (Type::I8, Value::I8(v)) => Ok(AbiValue::I8(*v)),
        (Type::U8, Value::U8(v)) => Ok(AbiValue::U8(*v)),
        (Type::I16, Value::I16(v)) => Ok(AbiValue::I16(*v)),
        (Type::U16, Value::U16(v)) => Ok(AbiValue::U16(*v)),
        (Type::I32, Value::I32(v)) => Ok(AbiValue::I32(*v)),
        (Type::U32, Value::U32(v)) => Ok(AbiValue::U32(*v)),
        (Type::I64, Value::I64(v)) => Ok(AbiValue::I64(*v)),
        (Type::U64, Value::U64(v)) => Ok(AbiValue::U64(*v)),
        (Type::F32, Value::F32(v)) => Ok(AbiValue::F32(*v)),
        (Type::F64, Value::F64(v)) => Ok(AbiValue::F64(*v)),
        (Type::Pointer, Value::Pointer(p)) => {
            if nullable || *p != 0 {
                Ok(AbiValue::Pointer(*p))
            } else {
                Err(Win32Error::ArgumentMismatch(typ))
            }
        },
        (Type::FunctionPointer, Value::FunctionPointer(p)) => {
            if nullable || *p != 0 {
                Ok(AbiValue::Pointer(*p))
            } else {
                Err(Win32Error::ArgumentMismatch(typ))
            }
        },
        (Type::Handle, Value::Handle(h)) => Ok(AbiValue::Pointer(*h)),
        (Type::Handle, Value::Resource(_)) => {
            if !resource_cleanup.owns_resource() || owner_cleanup != resource_cleanup {
                return Err(Win32Error::HandleCleanupMismatch);
            }
            match resource_bits {
                None => Err(Win32Error::NoCallLease),
                Some(bits) => {
                    if bits == 0 {
                        Err(Win32Error::ClosedResourceHandle)
                    } else {
                        Ok(AbiValue::Pointer(bits))
                    }
                },
            }
        },
        (Type::Pointer, Value::Null) | (Type::FunctionPointer, Value::Null) | (
            Type::Handle,
            Value::Null,
        ) => {
            if nullable {
                Ok(AbiValue::Pointer(0))
            } else {
                Err(Win32Error::ArgumentMismatch(typ))
            }
        },
        _ => Err(Win32Error::ArgumentMismatch(typ)),
    }
}

/// The value of an integer, boolean or pointer result as a mathematical
/// integer; floating-point and GUID results have none.
pub open spec fn spec_scalar(value: AbiValue) -> Option<int> {
    match value {
        AbiValue::Bool(b) => Some(if b { 1int } else { 0int }),
        AbiValue::I8(v) => Some(v as int),
        AbiValue::U8(v) => Some(v as int),
        AbiValue::I16(v) => Some(v as int),
        AbiValue::U16(v) => Some(v as int),
        AbiValue::I32(v) => Some(v as int),
        AbiValue::U32(v) => Some(v as int),
        AbiValue::I64(v) => Some(v as int),
        AbiValue::U64(v) => Some(v as int),
        AbiValue::Pointer(v) => Some(v as int),
        _ => None,
    }
}

fn scalar_is_zero(value: &AbiValue) -> (r: Option<bool>)
    ensures
        r == (match spec_scalar(*value) {
            Some(v) => Some(v == 0),
            None => None::<bool>,
        }),
{
    match value {
        AbiValue::Bool(b) => Some(!*b),
        AbiValue::I8(v) => Some(*v == 0),
        AbiValue::U8(v) => Some(*v == 0),
        AbiValue::I16(v) => Some(*v == 0),
        AbiValue::U16(v) => Some(*v == 0),
        AbiValue::I32(v) => Some(*v == 0),
        AbiValue::U32(v) => Some(*v == 0),
        AbiValue::I64(v) => Some(*v == 0),
        AbiValue::U64(v) => Some(*v == 0),
        AbiValue::Pointer(v) => Some(*v == 0),
        _ => None,
    }
}

/// Whether a native result is a success under a rule, or why the rule cannot
/// classify it.
pub open spec fn spec_success_matches(rule: SuccessRule, value: Option<AbiValue>) -> Result<
    bool,
    Win32Error,
> {
    match rule {
        SuccessRule::Always => Ok(true),
        SuccessRule::ReturnZero => match value {
            Some(v) => match spec_scalar(v) {
                Some(s) => Ok(s == 0),
                None => Err(Win32Error::ReturnZeroNeedsScalar),
            },
            None => Err(Win32Error::ReturnZeroNeedsScalar),
        },
        SuccessRule::ReturnNonZero | SuccessRule::ReturnNonNull => match value {
            Some(v) => match spec_scalar(v) {
                Some(s) => Ok(s != 0),
                None => Err(Win32Error::NonZeroNeedsScalar),
            },
            None => Err(Win32Error::NonZeroNeedsScalar),
        },
        SuccessRule::HResultSucceeded => match value {
            Some(AbiValue::I32(v)) => Ok(v >= 0),
            _ => Err(Win32Error::HResultNeedsI32),
        },
        SuccessRule::SignedNonNegative => match value {
            Some(AbiValue::I32(v)) => Ok(v >= 0),
            _ => Err(Win32Error::SignedNonNegativeNeedsI32),
        },
        SuccessRule::ReturnValidHandle => match value {
            Some(AbiValue::Pointer(p)) => Ok(p != 0 && p != usize::MAX),
            _ => Err(Win32Error::ValidHandleNeedsPointer),
        },
    }
}

/// Classifies a native result under a success rule.
pub fn success_matches(rule: SuccessRule, value: Option<&AbiValue>) -> (r: Result<
    bool,
    Win32Error,
>)
    ensures
        r == spec_success_matches(
            rule,
            match value {
                Some(v) => Some(*v),
                None => None::<AbiValue>,
            },
        ),
{
    match rule {
        SuccessRule::Always => Ok(true),
        SuccessRule::ReturnZero => match value {
            Some(v) => match scalar_is_zero(v) {
                Some(zero) => Ok(zero),
                None => Err(Win32Error::ReturnZeroNeedsScalar),
            },
            None => Err(Win32Error::ReturnZeroNeedsScalar),
        },
        SuccessRule::ReturnNonZero | SuccessRule::ReturnNonNull => match value {
            Some(v) => match scalar_is_zero(v) {
                Some(zero) => Ok(!zero),
                None => Err(Win32Error::NonZeroNeedsScalar),
            },
            None => Err(Win32Error::NonZeroNeedsScalar),
        },
        SuccessRule::HResultSucceeded => match value {
            Some(AbiValue::I32(v)) => Ok(*v >= 0),
            _ => Err(Win32Error::HResultNeedsI32),
        },
        SuccessRule::SignedNonNegative => match value {
            Some(AbiValue::I32(v)) => Ok(*v >= 0),
            _ => Err(Win32Error::SignedNonNegativeNeedsI32),
        },
        SuccessRule::ReturnValidHandle => match value {
            Some(AbiValue::Pointer(p)) => Ok(*p != 0 && *p != usize::MAX),
            _ => Err(Win32Error::ValidHandleNeedsPointer),
        },
    }
}

/// What a native result becomes for the caller.
#[derive(Clone, Debug)]
pub enum Decoded {
    /// A value that owns nothing.
    Plain(Value),
    /// A nonzero owned result of a successful call: it is adopted by a new
    /// owner with this cleanup.
    Adopt { value: usize, cleanup: Cleanup },
    /// A nonzero owned result of a failed call that must be released now; the
    /// caller receives a zero handle.
    Release { value: usize, cleanup: Cleanup },
}

/// How a native result of type `typ` is delivered.
pub open spec fn spec_finalize_value(
    typ: Type,
    value: AbiValue,
    cleanup: Cleanup,
    succeeded: bool,
    cleanup_on_failure: bool,
) -> Result<Decoded, Win32Error> {
    if cleanup.spec_owns_resource() {
        match value {
            AbiValue::Pointer(bits) => if !succeeded {
                if cleanup_on_failure && cleanup.spec_needs_release(bits) {
                    Ok(Decoded::Release { value: bits, cleanup })
                } else {
                    Ok(Decoded::Plain(Value::Handle(0)))
                }
            } else if bits == 0 {
                Ok(Decoded::Plain(Value::Handle(0)))
            } else {
                Ok(Decoded::Adopt { value: bits, cleanup })
            },
            _ => Err(Win32Error::OwnedOutputNotPointer),
        }
    } else {
        match (typ, value) {
            (Type::Bool32, AbiValue::I32(v)) => Ok(Decoded::Plain(Value::Bool(v != 0))),
            (Type::I8, AbiValue::I8(v)) => Ok(Decoded::Plain(Value::I8(v))),
            (Type::U8, AbiValue::U8(v)) => Ok(Decoded::Plain(Value::U8(v))),
            (Type::I16, AbiValue::I16(v)) => Ok(Decoded::Plain(Value::I16(v))),
            (Type::U16, AbiValue::U16(v)) => Ok(Decoded::Plain(Value::U16(v))),
            (Type::I32, AbiValue::I32(v)) => Ok(Decoded::Plain(Value::I32(v))),
            (Type::U32, AbiValue::U32(v)) => Ok(Decoded::Plain(Value::U32(v))),
            (Type::I64, AbiValue::I64(v)) => Ok(Decoded::Plain(Value::I64(v))),
            (Type::U64, AbiValue::U64(v)) => Ok(Decoded::Plain(Value::U64(v))),
            (Type::F32, AbiValue::F32(v)) => Ok(Decoded::Plain(Value::F32(v))),
            (Type::F64, AbiValue::F64(v)) => Ok(Decoded::Plain(Value::F64(v))),
            (Type::Pointer, AbiValue::Pointer(p)) => Ok(Decoded::Plain(Value::Pointer(p))),
            (Type::FunctionPointer, AbiValue::Pointer(p)) => Ok(
                Decoded::Plain(Value::FunctionPointer(p)),
            ),
            (Type::Handle, AbiValue::Pointer(p)) => Ok(Decoded::Plain(Value::Handle(p))),
            _ => Err(Win32Error::ResultDoesNotMatchPlan),
        }
    }
}

/// Decides how a native result is delivered: owned results of successful
/// calls are adopted, owned results of failed calls are released (only when
/// `cleanup_on_failure`), and plain results are decoded by type.
pub fn finalize_value(
    typ: Type,
    value: AbiValue,
    cleanup: Cleanup,
    succeeded: bool,
    cleanup_on_failure: bool,
) -> (r: Result<Decoded, Win32Error>)
    ensures
        r == spec_finalize_value(typ, value, cleanup, succeeded, cleanup_on_failure),
{
    if cleanup.owns_resource() {
        let bits = match value {
            AbiValue::Pointer(bits) => bits,
            _ => {
                return Err(Win32Error::OwnedOutputNotPointer);
            },
        };
        if !succeeded {
            if cleanup_on_failure && cleanup.needs_release(bits) {
                return Ok(Decoded::Release { value: bits, cleanup });
            }
            return Ok(Decoded::Plain(Value::Handle(0)));
        }
        return if bits == 0 {
            Ok(Decoded::Plain(Value::Handle(0)))
        } else {
            Ok(Decoded::Adopt { value: bits, cleanup })
        };
    }
    match (typ, value) {
        (Type::Bool32, AbiValue::I32(v)) => Ok(Decoded::Plain(Value::Bool(v != 0))),
        (Type::I8, AbiValue::I8(v)) => Ok(Decoded::Plain(Value::I8(v))),
        (Type::U8, AbiValue::U8(v)) => Ok(Decoded::Plain(Value::U8(v))),
        (Type::I16, AbiValue::I16(v)) => Ok(Decoded::Plain(Value::I16(v))),
        (Type::U16, AbiValue::U16(v)) => Ok(Decoded::Plain(Value::U16(v))),
        (Type::I32, AbiValue::I32(v)) => Ok(Decoded::Plain(Value::I32(v))),
        (Type::U32, AbiValue::U32(v)) => Ok(Decoded::Plain(Value::U32(v))),
        (Type::I64, AbiValue::I64(v)) => Ok(Decoded::Plain(Value::I64(v))),
        (Type::U64, AbiValue::U64(v)) => Ok(Decoded::Plain(Value::U64(v))),
        (Type::F32, AbiValue::F32(v)) => Ok(Decoded::Plain(Value::F32(v))),
        (Type::F64, AbiValue::F64(v)) => Ok(Decoded::Plain(Value::F64(v))),
        (Type::Pointer, AbiValue::Pointer(p)) => Ok(Decoded::Plain(Value::Pointer(p))),
        (Type::FunctionPointer, AbiValue::Pointer(p)) => Ok(
            Decoded::Plain(Value::FunctionPointer(p)),
        ),
        (Type::Handle, AbiValue::Pointer(p)) => Ok(Decoded::Plain(Value::Handle(p))),
        _ => Err(Win32Error::ResultDoesNotMatchPlan),
    }
}

/// The number of 64-bit words that hold `byte_length` bytes.
pub open spec fn spec_word_count(byte_length: usize) -> nat {
    ((byte_length as nat + 7) / 8) as nat
}

/// Zeroed, 8-byte aligned storage for `byte_length` bytes.
pub fn try_zeroed_words(byte_length: usize) -> (r: Vec<u64>)
    ensures
        r@.len() == spec_word_count(byte_length),
        forall|i: int| 0 <= i < r@.len() ==> r@[i] == 0,
{
    let word_length = byte_length / 8 + if byte_length % 8 == 0 {
        0
    } else {
        1
    };
    let mut words: Vec<u64> = Vec::new();
    let mut i: usize = 0;
    while i < word_length
        invariant
            i <= word_length,
            words@.len() == i,
            forall|k: int| 0 <= k < i ==> words@[k] == 0,
        decreases word_length - i,
    {
        words.push(0);
        i = i + 1;
    }
    words
}


/// A failed call never adopts a result, a successful call never releases
/// one, and without cleanup on failure a failed call only decodes values.
pub proof fn lemma_adoption_follows_success(
    typ: Type,
    value: AbiValue,
    cleanup: Cleanup,
    cleanup_on_failure: bool,
)
    ensures
        spec_finalize_value(typ, value, cleanup, false, cleanup_on_failure) is Ok ==> !(spec_finalize_value(
            typ,
            value,
            cleanup,
            false,
            cleanup_on_failure,
        )->Ok_0 is Adopt),
        spec_finalize_value(typ, value, cleanup, true, cleanup_on_failure) is Ok ==> !(spec_finalize_value(
            typ,
            value,
            cleanup,
            true,
            cleanup_on_failure,
        )->Ok_0 is Release),
        spec_finalize_value(typ, value, cleanup, false, false) is Ok ==> spec_finalize_value(
            typ,
            value,
            cleanup,
            false,
            false,
        )->Ok_0 is Plain,
{
}

/// A closed or consumed owner cannot be passed again: as a handle argument
/// of an owning cleanup its zero value is refused.
pub proof fn lemma_closed_owner_is_refused(
    nullable: bool,
    cleanup: Cleanup,
    id: crate::win32_resource::ResourceId,
)
    requires
        cleanup != Cleanup::NotOwned,
    ensures
        spec_value_to_abi(Type::Handle, Value::Resource(id), nullable, cleanup, cleanup, Some(0usize))
            == Err::<AbiValue, Win32Error>(Win32Error::ClosedResourceHandle),
{
}

/// A managed resource whose value is zero converts to no native argument of
/// any type.
pub proof fn lemma_resource_needs_open_handle(
    typ: Type,
    id: crate::win32_resource::ResourceId,
    nullable: bool,
    resource_cleanup: Cleanup,
    owner_cleanup: Cleanup,
)
    ensures
        spec_value_to_abi(typ, Value::Resource(id), nullable, resource_cleanup, owner_cleanup, Some(0usize)) is Err,
{
}

/// A Win32 `BOOL` argument is TRUE exactly when the value is true: it is
/// passed as a 32-bit word that is 1 for true and 0 for false.
pub proof fn lemma_bool_argument_is_win32_bool(
    flag: bool,
    nullable: bool,
    resource_cleanup: Cleanup,
    owner_cleanup: Cleanup,
    resource_bits: Option<usize>,
)
    ensures
        spec_value_to_abi(Type::Bool32, Value::Bool(flag), nullable, resource_cleanup, owner_cleanup, resource_bits)
            matches Ok(AbiValue::I32(word)) && (word != 0) == flag && (word == 0 || word == 1),
{
}

/// Every plain argument survives the trip through native storage: the
/// storage it converts to, read back as a result of the same type, is the
/// same value.
pub proof fn lemma_plain_arguments_round_trip(
    typ: Type,
    value: Value,
    nullable: bool,
    succeeded: bool,
    cleanup_on_failure: bool,
)
    requires
        !(value is Null),
        spec_value_to_abi(typ, value, nullable, Cleanup::NotOwned, Cleanup::NotOwned, None) is Ok,
    ensures
        spec_finalize_value(
            typ,
            spec_value_to_abi(typ, value, nullable, Cleanup::NotOwned, Cleanup::NotOwned, None)->Ok_0,
            Cleanup::NotOwned,
            succeeded,
            cleanup_on_failure,
        ) == Ok::<Decoded, Win32Error>(Decoded::Plain(value)),
{
}

} // verus!
