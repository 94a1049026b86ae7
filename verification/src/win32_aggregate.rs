//! Caller-owned aggregate storage whose named fields a native call fills with
//! independently owned results.

use std::sync::Arc;

use vstd::prelude::*;
use vstd::string::StringExecFns;

use crate::abi::AbiValue;
use crate::error::Win32Error;
use crate::win32::{
    Cleanup, FfiScalar, Type, Value, spec_scalar_width, valid_aggregate_alignment,
    MAX_NATIVE_AGGREGATE_SIZE,
};
use crate::win32_convert::{finalize_value, spec_finalize_value, Decoded};
use crate::win32_plan::MAX_PARAMETERS;
use crate::win32_resource::{OwnedResource, ResourceId, ResourceTable};

verus! {

/// A named field of caller storage that a native call fills.
#[derive(Clone, Debug)]
pub struct AggregateResultField {
    pub name: String,
    pub offset: usize,
    pub typ: Type,
    pub cleanup: Cleanup,
}

/// The bytes of a pointer-sized field on this target.
pub open spec fn spec_pointer_bytes() -> nat {
    (usize::BITS / 8) as nat
}

/// The bytes a field of the given type occupies.
pub open spec fn spec_field_size(typ: Type) -> nat {
    match typ {
        Type::I8 | Type::U8 => 1,
        Type::I16 | Type::U16 => 2,
        Type::Bool32 | Type::I32 | Type::U32 | Type::F32 => 4,
        Type::I64 | Type::U64 | Type::F64 => 8,
        Type::Pointer | Type::FunctionPointer | Type::Handle => spec_pointer_bytes(),
    }
}

pub fn field_size(typ: Type) -> (r: usize)
    ensures
        r == spec_field_size(typ),
        1 <= r <= 8,
{
    match typ {
        Type::I8 | Type::U8 => 1,
        Type::I16 | Type::U16 => 2,
        Type::Bool32 | Type::I32 | Type::U32 | Type::F32 => 4,
        Type::I64 | Type::U64 | Type::F64 => 8,
        Type::Pointer | Type::FunctionPointer | Type::Handle => (usize::BITS / 8) as usize,
    }
}

/// The first byte past a field.
pub open spec fn field_end(field: AggregateResultField) -> int {
    field.offset + spec_field_size(field.typ)
}

/// Whether two fields share a byte.
pub open spec fn fields_overlap(a: AggregateResultField, b: AggregateResultField) -> bool {
    a.offset < field_end(b) && b.offset < field_end(a)
}

/// What the header of a pointer layout must satisfy.
pub open spec fn pointer_layout_header_ok(
    identity: Seq<char>,
    size: usize,
    alignment: usize,
    field_count: nat,
) -> bool {
    &&& identity.len() != 0
    &&& size != 0
    &&& size <= MAX_NATIVE_AGGREGATE_SIZE
    &&& valid_aggregate_alignment(alignment)
    &&& size % alignment == 0
    &&& field_count <= MAX_PARAMETERS
}

/// Why the field at index `i` is refused, given that the fields before it
/// were accepted.
pub open spec fn field_error(fields: Seq<AggregateResultField>, size: usize, i: int) -> Option<
    Win32Error,
> {
    let field = fields[i];
    if field_end(field) > size {
        Some(Win32Error::FieldExceedsStorage)
    } else if field.name@.len() == 0 || (exists|j: int|
        0 <= j < i && #[trigger] fields[j].name@ == field.name@) || (exists|j: int|
        0 <= j < i && fields_overlap(#[trigger] fields[j], field)) || (
    field.cleanup.spec_owns_resource() && field.typ != Type::Handle && field.typ
        != Type::Pointer) {
        Some(Win32Error::InvalidOrOverlappingField)
    } else {
        None
    }
}

/// The first refusal among the first `n` fields.
pub open spec fn fields_error(fields: Seq<AggregateResultField>, size: usize, n: nat) -> Option<
    Win32Error,
>
    decreases n,
{
    if n == 0 {
        None
    } else {
        match fields_error(fields, size, (n - 1) as nat) {
            Some(e) => Some(e),
            None => field_error(fields, size, n - 1),
        }
    }
}

/// What building a pointer layout answers.
pub open spec fn spec_pointer_layout_check(
    identity: Seq<char>,
    size: usize,
    alignment: usize,
    fields: Seq<AggregateResultField>,
) -> Result<(), Win32Error> {
    if !pointer_layout_header_ok(identity, size, alignment, fields.len()) {
        Err(Win32Error::InvalidPointerLayout)
    } else {
        match fields_error(fields, size, fields.len()) {
            Some(e) => Err(e),
            None => Ok(()),
        }
    }
}

/// Accepted fields lie inside the storage, have distinct nonempty names,
/// share no byte, and only pointer-sized fields own a resource.
pub open spec fn fields_disjoint(fields: Seq<AggregateResultField>, size: usize) -> bool {
    &&& forall|i: int| 0 <= i < fields.len() ==> field_end(#[trigger] fields[i]) <= size
    &&& forall|i: int| 0 <= i < fields.len() ==> (#[trigger] fields[i]).name@.len() != 0
    &&& forall|i: int, j: int|
        0 <= i < fields.len() && 0 <= j < fields.len() && i != j ==> #[trigger] fields[i].name@
            != #[trigger] fields[j].name@
    &&& forall|i: int, j: int|
        0 <= i < fields.len() && 0 <= j < fields.len() && i != j ==> !fields_overlap(
            #[trigger] fields[i],
            #[trigger] fields[j],
        )
    &&& forall|i: int|
        0 <= i < fields.len() && (#[trigger] fields[i]).cleanup.spec_owns_resource() ==> (
        fields[i].typ == Type::Handle || fields[i].typ == Type::Pointer)
}

/// The layout of caller storage that a native call fills through a pointer.
#[derive(Clone, Debug)]
pub struct NativeAggregatePointerLayout {
    identity: String,
    size: usize,
    alignment: usize,
    fields: Vec<AggregateResultField>,
}

impl NativeAggregatePointerLayout {
    pub closed spec fn spec_identity(self) -> Seq<char> {
        self.identity@
    }

    pub closed spec fn spec_size(self) -> usize {
        self.size
    }

    pub closed spec fn spec_alignment(self) -> usize {
        self.alignment
    }

    pub closed spec fn spec_fields(self) -> Seq<AggregateResultField> {
        self.fields@
    }

    /// Every layout that `new` builds satisfies its own checks.
    pub open spec fn wf(self) -> bool {
        &&& pointer_layout_header_ok(
            self.spec_identity(),
            self.spec_size(),
            self.spec_alignment(),
            self.spec_fields().len(),
        )
        &&& fields_disjoint(self.spec_fields(), self.spec_size())
    }

    /// Validates a layout: its header first, then each field in order.
    pub fn new(
        identity: String,
        size: usize,
        alignment: usize,
        fields: Vec<AggregateResultField>,
    ) -> (r: Result<Arc<NativeAggregatePointerLayout>, Win32Error>)
        ensures
            spec_pointer_layout_check(identity@, size, alignment, fields@) is Ok <==> r is Ok,
            r matches Err(e) ==> spec_pointer_layout_check(identity@, size, alignment, fields@)
                == Err::<(), Win32Error>(e),
            r matches Ok(layout) ==> {
                &&& layout.spec_identity() == identity@
                &&& layout.spec_size() == size
                &&& layout.spec_alignment() == alignment
                &&& layout.spec_fields() == fields@
                &&& layout.wf()
            },
    {
        if identity.as_str().unicode_len() == 0 || size == 0 || size > MAX_NATIVE_AGGREGATE_SIZE
            || !(alignment == 1 || alignment == 2 || alignment == 4 || alignment == 8) || size
            % alignment != 0 || fields.len() > MAX_PARAMETERS {
            return Err(Win32Error::InvalidPointerLayout);
        }
        let mut i: usize = 0;
        while i < fields.len()
            invariant
                i <= fields@.len(),
                size <= MAX_NATIVE_AGGREGATE_SIZE,
                pointer_layout_header_ok(identity@, size, alignment, fields@.len()),
                fields_error(fields@, size, i as nat) is None,
                fields_disjoint(fields@.subrange(0, i as int), size),
            decreases fields@.len() - i,
        {
            match check_field(&fields, size, i) {
                Err(e) => {
                    proof {
                        assert(fields_error(fields@, size, (i + 1) as nat) == Some(e));
                        lemma_fields_error_stops(fields@, size, (i + 1) as nat, fields@.len());
                    }
                    return Err(e);
                },
                Ok(()) => {},
            }
            proof {
                lemma_disjoint_extend(fields@, size, i as int);
            }
            i = i + 1;
        }
        proof {
            assert(fields@.subrange(0, fields@.len() as int) =~= fields@);
        }
        Ok(Arc::new(NativeAggregatePointerLayout { identity, size, alignment, fields }))
    }

    pub fn identity(&self) -> (r: &str)
        ensures
            r@ == self.spec_identity(),
    {
        self.identity.as_str()
    }

    pub fn size(&self) -> (r: usize)
        ensures
            r == self.spec_size(),
    {
        self.size
    }

    pub fn alignment(&self) -> (r: usize)
        ensures
            r == self.spec_alignment(),
    {
        self.alignment
    }

    pub fn fields(&self) -> (r: &[AggregateResultField])
        ensures
            r@ == self.spec_fields(),
    {
        self.fields.as_slice()
    }
}

/// Checks the field at `i` against the fields before it.
fn check_field(fields: &Vec<AggregateResultField>, size: usize, i: usize) -> (r: Result<
    (),
    Win32Error,
>)
    requires
        i < fields@.len(),
        size <= MAX_NATIVE_AGGREGATE_SIZE,
    ensures
        r is Ok <==> field_error(fields@, size, i as int) is None,
        r matches Err(e) ==> field_error(fields@, size, i as int) == Some(e),
{
    let field = &fields[i];
    let length = field_size(field.typ);
    if field.offset > size || length > size - field.offset {
        return Err(Win32Error::FieldExceedsStorage);
    }
    let end = field.offset + length;
    if field.name.as_str().unicode_len() == 0 {
        return Err(Win32Error::InvalidOrOverlappingField);
    }
    if field.cleanup.owns_resource() && field.typ != Type::Handle && field.typ != Type::Pointer {
        return Err(Win32Error::InvalidOrOverlappingField);
    }
    let mut j: usize = 0;
    while j < i
        invariant
            i < fields@.len(),
            j <= i,
            field == fields@[i as int],
            end == field_end(fields@[i as int]),
            field_end(fields@[i as int]) <= size,
            field.name@.len() != 0,
            !(field.cleanup.spec_owns_resource() && field.typ != Type::Handle && field.typ
                != Type::Pointer),
            forall|k: int| 0 <= k < j ==> fields@[k].name@ != field.name@,
            forall|k: int| 0 <= k < j ==> !fields_overlap(#[trigger] fields@[k], *field),
        decreases i - j,
    {
        let prior = &fields[j];
        if prior.name == field.name {
            assert(fields@[j as int].name@ == fields@[i as int].name@);
            return Err(Win32Error::InvalidOrOverlappingField);
        }
        let prior_size = field_size(prior.typ);
        if field.offset < prior.offset || field.offset - prior.offset < prior_size {
            if prior.offset < end {
                assert(fields_overlap(fields@[j as int], fields@[i as int]));
                return Err(Win32Error::InvalidOrOverlappingField);
            }
        }
        j = j + 1;
    }
    Ok(())
}

proof fn lemma_fields_error_stops(fields: Seq<AggregateResultField>, size: usize, n: nat, m: nat)
    requires
        n <= m,
        fields_error(fields, size, n) is Some,
    ensures
        fields_error(fields, size, m) == fields_error(fields, size, n),
    decreases m - n,
{
    if n < m {
        lemma_fields_error_stops(fields, size, n, (m - 1) as nat);
    }
}

proof fn lemma_disjoint_extend(fields: Seq<AggregateResultField>, size: usize, i: int)
    requires
        0 <= i < fields.len(),
        fields_disjoint(fields.subrange(0, i), size),
        field_error(fields, size, i) is None,
    ensures
        fields_disjoint(fields.subrange(0, i + 1), size),
{
    let pre = fields.subrange(0, i);
    let next = fields.subrange(0, i + 1);
    assert forall|a: int| 0 <= a < next.len() implies #[trigger] next[a] == fields[a] by {}
    assert forall|a: int, b: int|
        0 <= a < next.len() && 0 <= b < next.len() && a != b implies #[trigger] next[a].name@
        != #[trigger] next[b].name@ by {
        if a < i && b < i {
            assert(pre[a] == next[a] && pre[b] == next[b]);
        } else if a == i {
            assert(fields[b].name@ != fields[i].name@);
        } else {
            assert(fields[a].name@ != fields[i].name@);
        }
    }
    assert forall|a: int, b: int|
        0 <= a < next.len() && 0 <= b < next.len() && a != b implies !fields_overlap(
        #[trigger] next[a],
        #[trigger] next[b],
    ) by {
        if a < i && b < i {
            assert(pre[a] == next[a] && pre[b] == next[b]);
        } else if a == i {
            assert(!fields_overlap(fields[b], fields[i]));
        } else {
            assert(!fields_overlap(fields[a], fields[i]));
        }
    }
    assert forall|a: int| 0 <= a < next.len() implies field_end(#[trigger] next[a]) <= size by {
        if a < i {
            assert(pre[a] == next[a]);
        }
    }
    assert forall|a: int| 0 <= a < next.len() implies (#[trigger] next[a]).name@.len() != 0 by {
        if a < i {
            assert(pre[a] == next[a]);
        }
    }
    assert forall|a: int|
        0 <= a < next.len() && (#[trigger] next[a]).cleanup.spec_owns_resource() implies (
    next[a].typ == Type::Handle || next[a].typ == Type::Pointer) by {
        if a < i {
            assert(pre[a] == next[a]);
        }
    }
}


/// `256` raised to `n`.
pub open spec fn pow256(n: nat) -> nat
    decreases n,
{
    if n == 0 {
        1
    } else {
        256 * pow256((n - 1) as nat)
    }
}

/// The unsigned number that `n` little-endian bytes from `offset` encode.
pub open spec fn le_uint(bytes: Seq<u8>, offset: int, n: nat) -> nat
    decreases n,
{
    if n == 0 {
        0
    } else {
        bytes[offset] as nat + 256 * le_uint(bytes, offset + 1, (n - 1) as nat)
    }
}

proof fn lemma_le_uint_bound(bytes: Seq<u8>, offset: int, n: nat)
    ensures
        le_uint(bytes, offset, n) < pow256(n),
    decreases n,
{
    if n > 0 {
        lemma_le_uint_bound(bytes, offset + 1, (n - 1) as nat);
        let x = le_uint(bytes, offset + 1, (n - 1) as nat);
        let p = pow256((n - 1) as nat);
        let b = bytes[offset] as nat;
        assert(b + 256 * x < 256 * p) by (nonlinear_arith)
            requires
                x < p,
                b < 256,
        ;
    }
}

proof fn lemma_pow256_small(n: nat)
    requires
        n <= 7,
    ensures
        pow256(n) <= 0x100_0000_0000_0000,
{
    reveal_with_fuel(pow256, 8);
}

/// The native scalar that a field of type `typ` holds at `offset`.
pub open spec fn spec_read_abi(bytes: Seq<u8>, offset: int, typ: Type) -> AbiValue {
    let v = le_uint(bytes, offset, spec_field_size(typ));
    match typ {
        Type::Bool32 | Type::I32 => AbiValue::I32((v as u32) as i32),
        Type::I8 => AbiValue::I8((v as u8) as i8),
        Type::U8 => AbiValue::U8(v as u8),
        Type::I16 => AbiValue::I16((v as u16) as i16),
        Type::U16 => AbiValue::U16(v as u16),
        Type::U32 => AbiValue::U32(v as u32),
        Type::I64 => AbiValue::I64((v as u64) as i64),
        Type::U64 => AbiValue::U64(v as u64),
        Type::F32 => AbiValue::F32(v as u32),
        Type::F64 => AbiValue::F64(v as u64),
        Type::Pointer | Type::FunctionPointer | Type::Handle => AbiValue::Pointer(v as usize),
    }
}

/// Reads `n` little-endian bytes from `offset` as an unsigned number.
fn read_uint(bytes: &Vec<u8>, offset: usize, n: usize) -> (r: u64)
    requires
        1 <= n <= 8,
        offset + n <= bytes@.len(),
    ensures
        r == le_uint(bytes@, offset as int, n as nat),
{
    let length = bytes.len();
    let mut acc: u64 = 0;
    let mut k: usize = n;
    while k > 0
        invariant
            k <= n <= 8,
            length == bytes@.len(),
            offset + n <= length,
            acc == le_uint(bytes@, offset + k, (n - k) as nat),
        decreases k,
    {
        proof {
            lemma_le_uint_bound(bytes@, offset + k, (n - k) as nat);
            lemma_pow256_small((n - k) as nat);
        }
        k = k - 1;
        let b = bytes[offset + k] as u64;
        assert(acc * 256 + b < 0x1_0000_0000_0000_0000) by (nonlinear_arith)
            requires
                acc < 0x100_0000_0000_0000,
                b < 256,
        ;
        acc = acc * 256 + b;
        assert(le_uint(bytes@, offset + k, (n - k) as nat) == bytes@[offset + k] as nat + 256
            * le_uint(bytes@, offset + k + 1, (n - k - 1) as nat));
    }
    acc
}

/// Reads the native scalar of a field.
pub fn read_abi(bytes: &Vec<u8>, offset: usize, typ: Type) -> (r: AbiValue)
    requires
        offset + spec_field_size(typ) <= bytes@.len(),
    ensures
        r == spec_read_abi(bytes@, offset as int, typ),
{
    let v = read_uint(bytes, offset, field_size(typ));
    match typ {
        Type::Bool32 | Type::I32 => AbiValue::I32((v as u32) as i32),
        Type::I8 => AbiValue::I8((v as u8) as i8),
        Type::U8 => AbiValue::U8(v as u8),
        Type::I16 => AbiValue::I16((v as u16) as i16),
        Type::U16 => AbiValue::U16(v as u16),
        Type::U32 => AbiValue::U32(v as u32),
        Type::I64 => AbiValue::I64(v as i64),
        Type::U64 => AbiValue::U64(v),
        Type::F32 => AbiValue::F32(v as u32),
        Type::F64 => AbiValue::F64(v),
        Type::Pointer | Type::FunctionPointer | Type::Handle => AbiValue::Pointer(v as usize),
    }
}


/// The refusal of a field that holds no deliverable result.
pub open spec fn spec_unavailable_field(succeeded: Option<bool>) -> Win32Error {
    match succeeded {
        None => Win32Error::OutputsBeforeSuccess,
        Some(false) => Win32Error::OutputsAfterFailure,
        Some(true) => Win32Error::FieldNotDeliverable,
    }
}

fn unavailable_field(succeeded: Option<bool>) -> (r: Win32Error)
    ensures
        r == spec_unavailable_field(succeeded),
{
    match succeeded {
        None => Win32Error::OutputsBeforeSuccess,
        Some(false) => Win32Error::OutputsAfterFailure,
        Some(true) => Win32Error::FieldNotDeliverable,
    }
}

/// `bytes` with `data` written from `offset` on.
pub open spec fn spec_written(bytes: Seq<u8>, offset: int, data: Seq<u8>) -> Seq<u8> {
    Seq::new(
        bytes.len(),
        |j: int|
            if offset <= j < offset + data.len() {
                data[j - offset]
            } else {
                bytes[j]
            },
    )
}

/// Whether a result is present and deliverable.
pub open spec fn deliverable(result: Option<Value>) -> bool {
    result matches Some(value) && !(value is Unavailable)
}

/// The plain value that a field without an owning cleanup delivers.
pub open spec fn spec_plain_field(field: AggregateResultField, bytes: Seq<u8>) -> Value {
    match spec_finalize_value(
        field.typ,
        spec_read_abi(bytes, field.offset as int, field.typ),
        Cleanup::NotOwned,
        true,
        false,
    ) {
        Ok(Decoded::Plain(v)) => v,
        _ => Value::Unavailable,
    }
}

/// The raw pointer-sized value of a field.
pub open spec fn spec_raw_pointer(field: AggregateResultField, bytes: Seq<u8>) -> usize {
    le_uint(bytes, field.offset as int, spec_field_size(field.typ)) as usize
}

/// What a field delivers after a successful call: a zero handle or a fresh
/// owner of the raw value for an owning field, the decoded value otherwise.
/// New owners are entries of `table` from `first_new` on.
pub open spec fn delivered_field(
    field: AggregateResultField,
    bytes: Seq<u8>,
    result: Option<Value>,
    table: Seq<OwnedResource>,
    first_new: nat,
) -> bool {
    if field.cleanup.spec_owns_resource() {
        let p = spec_raw_pointer(field, bytes);
        if p == 0 {
            result == Some(Value::Handle(0))
        } else {
            &&& result matches Some(Value::Resource(id))
            &&& first_new <= id.0 < table.len()
            &&& table[id.0 as int].is_fresh(p, field.cleanup)
        }
    } else {
        result == Some(spec_plain_field(field, bytes))
    }
}

/// Two results never name the same new owner.
pub open spec fn distinct_owners(results: Seq<Option<Value>>, n: int) -> bool {
    forall|a: int, b: int|
        0 <= a < n && 0 <= b < n && a != b && (#[trigger] results[a]) is Some && results[a]->0 is Resource
            && (#[trigger] results[b]) is Some && results[b]->0 is Resource ==> results[a]->0->Resource_0
            != results[b]->0->Resource_0
}

proof fn lemma_plain_decodes(field: AggregateResultField, bytes: Seq<u8>)
    ensures
        spec_finalize_value(
            field.typ,
            spec_read_abi(bytes, field.offset as int, field.typ),
            Cleanup::NotOwned,
            true,
            false,
        ) == Ok::<Decoded, Win32Error>(Decoded::Plain(spec_plain_field(field, bytes))),
{
}

/// The raw owned value of a field whose native cleanup is still owed.
#[derive(Clone, Copy, Debug, PartialEq, Eq, Structural)]
pub struct RawCleanup {
    pub index: usize,
    pub value: usize,
    pub cleanup: Cleanup,
}

/// Caller-owned storage laid out by a pointer layout, with the results that
/// a native call delivered into its fields and the raw values whose native
/// cleanup is still owed.
#[derive(Debug)]
pub struct NativeAggregateBuffer {
    layout: Arc<NativeAggregatePointerLayout>,
    bytes: Vec<u8>,
    results: Vec<Option<Value>>,
    raw_cleanup: Vec<Cleanup>,
    succeeded: Option<bool>,
}

impl NativeAggregateBuffer {
    pub closed spec fn spec_layout(self) -> NativeAggregatePointerLayout {
        *self.layout
    }

    pub closed spec fn spec_bytes(self) -> Seq<u8> {
        self.bytes@
    }

    pub closed spec fn spec_results(self) -> Seq<Option<Value>> {
        self.results@
    }

    pub closed spec fn spec_raw_cleanup(self) -> Seq<Cleanup> {
        self.raw_cleanup@
    }

    pub closed spec fn spec_succeeded(self) -> Option<bool> {
        self.succeeded
    }

    pub open spec fn spec_fields(self) -> Seq<AggregateResultField> {
        self.spec_layout().spec_fields()
    }

    /// The storage spans the layout and every field has one result slot.
    pub open spec fn wf(self) -> bool {
        &&& self.spec_layout().wf()
        &&& self.spec_bytes().len() == self.spec_layout().spec_size()
        &&& self.spec_results().len() == self.spec_fields().len()
        &&& self.spec_raw_cleanup().len() == self.spec_fields().len()
    }

    /// Whether a write of `length` bytes at `offset` would change the bytes of
    /// a field whose raw owned value still awaits its native cleanup.
    pub open spec fn write_blocked(self, offset: int, length: int) -> bool {
        length > 0 && exists|i: int|
            0 <= i < self.spec_fields().len() && (
            #[trigger] self.spec_raw_cleanup()[i]).spec_owns_resource() && offset < field_end(
                self.spec_fields()[i],
            ) && self.spec_fields()[i].offset < offset + length
    }

    /// Storage for `layout`, zeroed or initialized with exactly `size` bytes.
    pub fn new(layout: Arc<NativeAggregatePointerLayout>, bytes: Option<&[u8]>) -> (r: Result<
        NativeAggregateBuffer,
        Win32Error,
    >)
        requires
            layout.wf(),
        ensures
            r is Err <==> (bytes matches Some(b) && b@.len() != layout.spec_size()),
            r is Err ==> r == Err::<NativeAggregateBuffer, Win32Error>(
                Win32Error::InitializationWrongSize,
            ),
            r matches Ok(buffer) ==> {
                &&& buffer.wf()
                &&& buffer.spec_layout() == *layout
                &&& buffer.spec_bytes() == match bytes {
                    Some(b) => b@,
                    None => Seq::new(layout.spec_size() as nat, |i: int| 0u8),
                }
                &&& forall|i: int|
                    0 <= i < buffer.spec_fields().len() ==> buffer.spec_results()[i] is None
                        && buffer.spec_raw_cleanup()[i] == Cleanup::NotOwned
                &&& buffer.spec_succeeded() is None
            },
    {
        let size = layout.size();
        let mut storage: Vec<u8> = Vec::new();
        match bytes {
            Some(init) => {
                if init.len() != size {
                    return Err(Win32Error::InitializationWrongSize);
                }
                let mut i: usize = 0;
                while i < size
                    invariant
                        i <= size,
                        size == init@.len(),
                        storage@ == init@.subrange(0, i as int),
                    decreases size - i,
                {
                    storage.push(init[i]);
                    i = i + 1;
                }
                assert(storage@ =~= init@);
            },
            None => {
                let mut i: usize = 0;
                while i < size
                    invariant
                        i <= size,
                        storage@ =~= Seq::new(i as nat, |k: int| 0u8),
                    decreases size - i,
                {
                    storage.push(0);
                    i = i + 1;
                }
            },
        }
        let count = layout.fields().len();
        let mut results: Vec<Option<Value>> = Vec::new();
        let mut raw_cleanup: Vec<Cleanup> = Vec::new();
        let mut i: usize = 0;
        while i < count
            invariant
                i <= count,
                results@.len() == i,
                raw_cleanup@.len() == i,
                forall|k: int| 0 <= k < i ==> results@[k] is None && raw_cleanup@[k]
                    == Cleanup::NotOwned,
            decreases count - i,
        {
            results.push(None);
            raw_cleanup.push(Cleanup::NotOwned);
            i = i + 1;
        }
        Ok(NativeAggregateBuffer { layout, bytes: storage, results, raw_cleanup, succeeded: None })
    }

    pub fn layout(&self) -> (r: &Arc<NativeAggregatePointerLayout>)
        ensures
            **r == self.spec_layout(),
    {
        &self.layout
    }

    /// A copy of the storage.
    pub fn bytes(&self) -> (r: Result<Vec<u8>, Win32Error>)
        ensures
            r matches Ok(v) && v@ == self.spec_bytes(),
    {
        let mut copy: Vec<u8> = Vec::new();
        let mut i: usize = 0;
        while i < self.bytes.len()
            invariant
                i <= self.bytes@.len(),
                copy@ == self.bytes@.subrange(0, i as int),
            decreases self.bytes@.len() - i,
        {
            copy.push(self.bytes[i]);
            i = i + 1;
        }
        assert(copy@ =~= self.bytes@);
        Ok(copy)
    }

    fn check_range(&self, offset: usize, size: usize) -> (r: Result<(), Win32Error>)
        ensures
            r is Ok <==> offset + size <= self.spec_layout().spec_size(),
            r is Ok ==> r == Ok::<(), Win32Error>(()),
            r is Err ==> r == Err::<(), Win32Error>(Win32Error::AccessExceedsStorage),
    {
        let limit = self.layout.size();
        if offset > limit || size > limit - offset {
            return Err(Win32Error::AccessExceedsStorage);
        }
        Ok(())
    }

    /// The `length` bytes at `offset`.
    pub fn read(&self, offset: usize, length: usize) -> (r: Result<Vec<u8>, Win32Error>)
        requires
            self.wf(),
        ensures
            r is Ok <==> offset + length <= self.spec_layout().spec_size(),
            r is Err ==> r == Err::<Vec<u8>, Win32Error>(Win32Error::AccessExceedsStorage),
            r matches Ok(v) ==> v@ == self.spec_bytes().subrange(
                offset as int,
                offset + length,
            ),
    {
        match self.check_range(offset, length) {
            Err(e) => {
                return Err(e);
            },
            Ok(()) => {},
        }
        let total = self.bytes.len();
        let mut out: Vec<u8> = Vec::new();
        let mut i: usize = 0;
        while i < length
            invariant
                i <= length,
                total == self.bytes@.len(),
                offset + length <= total,
                out@ == self.bytes@.subrange(offset as int, offset + i),
            decreases length - i,
        {
            out.push(self.bytes[offset + i]);
            i = i + 1;
        }
        Ok(out)
    }

    /// Overwrites the bytes at `offset` with `data`. Refused outside the
    /// storage, and over a field whose owned raw value awaits cleanup.
    pub fn write(&mut self, offset: usize, data: &[u8]) -> (r: Result<(), Win32Error>)
        requires
            old(self).wf(),
        ensures
            r is Ok <==> (offset + data@.len() <= old(self).spec_layout().spec_size()
                && !old(self).write_blocked(offset as int, data@.len() as int)),
            offset + data@.len() > old(self).spec_layout().spec_size() ==> r == Err::<
                (),
                Win32Error,
            >(Win32Error::AccessExceedsStorage),
            offset + data@.len() <= old(self).spec_layout().spec_size() && old(self).write_blocked(offset as int, data@.len() as int) ==> r == Err::<(), Win32Error>(
                Win32Error::FieldAwaitsCleanup,
            ),
            r is Err ==> *final(self) == *old(self),
            r is Ok ==> {
                &&& final(self).spec_bytes() == spec_written(
                    old(self).spec_bytes(),
                    offset as int,
                    data@,
                )
                &&& final(self).spec_layout() == old(self).spec_layout()
                &&& final(self).spec_results() == old(self).spec_results()
                &&& final(self).spec_raw_cleanup() == old(self).spec_raw_cleanup()
                &&& final(self).spec_succeeded() == old(self).spec_succeeded()
                &&& final(self).wf()
            },
    {
        match self.check_range(offset, data.len()) {
            Err(e) => {
                return Err(e);
            },
            Ok(()) => {},
        }
        if self.protects(offset, data.len()) {
            return Err(Win32Error::FieldAwaitsCleanup);
        }
        let length = data.len();
        let total = self.bytes.len();
        let ghost before = self.bytes@;
        let mut i: usize = 0;
        while i < length
            invariant
                i <= length,
                length == data@.len(),
                total == before.len(),
                offset + length <= total,
                self.bytes@.len() == before.len(),
                self.layout == old(self).layout,
                self.results == old(self).results,
                self.raw_cleanup == old(self).raw_cleanup,
                self.succeeded == old(self).succeeded,
                forall|j: int|
                    0 <= j < before.len() ==> #[trigger] self.bytes@[j] == if offset <= j
                        < offset + i {
                        data@[j - offset]
                    } else {
                        before[j]
                    },
            decreases length - i,
        {
            self.bytes.set(offset + i, data[i]);
            i = i + 1;
        }
        assert(self.bytes@ =~= spec_written(before, offset as int, data@));
        Ok(())
    }

    fn protects(&self, offset: usize, length: usize) -> (r: bool)
        requires
            self.wf(),
            offset + length <= self.spec_layout().spec_size(),
        ensures
            r == self.write_blocked(offset as int, length as int),
    {
        if length == 0 {
            return false;
        }
        let fields = self.layout.fields();
        let mut i: usize = 0;
        while i < fields.len()
            invariant
                i <= fields@.len(),
                fields@ == self.spec_fields(),
                self.wf(),
                length > 0,
                offset + length <= self.spec_layout().spec_size(),
                forall|k: int|
                    0 <= k < i ==> !((#[trigger] self.spec_raw_cleanup()[k]).spec_owns_resource()
                        && offset < field_end(self.spec_fields()[k]) && self.spec_fields()[k].offset
                        < offset + length),
            decreases fields@.len() - i,
        {
            let field = &fields[i];
            proof {
                assert(field_end(fields@[i as int]) <= self.spec_layout().spec_size());
            }
            if self.raw_cleanup[i].owns_resource() {
                let end = field.offset + field_size(field.typ);
                if offset < end && field.offset < offset + length {
                    assert(self.spec_raw_cleanup()[i as int].spec_owns_resource());
                    return true;
                }
            }
            i = i + 1;
        }
        false
    }

    /// Succeeds only after a native call that succeeded.
    pub fn require_success(&self) -> (r: Result<(), Win32Error>)
        ensures
            self.spec_succeeded() == Some(true) <==> r is Ok,
            r is Ok ==> r == Ok::<(), Win32Error>(()),
            self.spec_succeeded() == Some(false) ==> r == Err::<(), Win32Error>(
                Win32Error::OutputsAfterFailure,
            ),
            self.spec_succeeded() is None ==> r == Err::<(), Win32Error>(
                Win32Error::OutputsBeforeSuccess,
            ),
    {
        match self.succeeded {
            Some(true) => Ok(()),
            Some(false) => Err(Win32Error::OutputsAfterFailure),
            None => Err(Win32Error::OutputsBeforeSuccess),
        }
    }

    /// The index of the first field with the given name.
    pub fn field_index(&self, name: &str) -> (r: Option<usize>)
        ensures
            match r {
                Some(i) => i < self.spec_fields().len() && self.spec_fields()[i as int].name@
                    == name@ && forall|j: int|
                    0 <= j < i ==> (#[trigger] self.spec_fields()[j]).name@ != name@,
                None => forall|j: int|
                    0 <= j < self.spec_fields().len() ==> (
                    #[trigger] self.spec_fields()[j]).name@ != name@,
            },
    {
        let key = String::from_str(name);
        let fields = self.layout.fields();
        let mut i: usize = 0;
        while i < fields.len()
            invariant
                i <= fields@.len(),
                fields@ == self.spec_fields(),
                key@ == name@,
                forall|j: int| 0 <= j < i ==> (#[trigger] fields@[j]).name@ != name@,
            decreases fields@.len() - i,
        {
            if fields[i].name == key {
                return Some(i);
            }
            i = i + 1;
        }
        None
    }

    /// A copy of a delivered field result.
    pub fn field_value(&self, index: usize) -> (r: Result<Value, Win32Error>)
        ensures
            (index < self.spec_results().len() && deliverable(self.spec_results()[index as int]))
                <==> r is Ok,
            r matches Ok(v) ==> v.same_value(self.spec_results()[index as int]->0),
            r is Err ==> r == Err::<Value, Win32Error>(
                spec_unavailable_field(self.spec_succeeded()),
            ),
    {
        if index >= self.results.len() {
            return Err(unavailable_field(self.succeeded));
        }
        match &self.results[index] {
            None => Err(unavailable_field(self.succeeded)),
            Some(Value::Unavailable) => Err(unavailable_field(self.succeeded)),
            Some(value) => Ok(value.duplicate()),
        }
    }

    /// Moves a delivered field result out: the slot keeps a zero handle and
    /// the field's bytes are zeroed.
    pub fn take_field(&mut self, index: usize) -> (r: Result<Value, Win32Error>)
        requires
            old(self).wf(),
        ensures
            index >= old(self).spec_fields().len() ==> r == Err::<Value, Win32Error>(
                Win32Error::UnknownField,
            ),
            index < old(self).spec_fields().len() && !deliverable(
                old(self).spec_results()[index as int],
            ) ==> r == Err::<Value, Win32Error>(spec_unavailable_field(old(self).spec_succeeded())),
            (index < old(self).spec_fields().len() && deliverable(
                old(self).spec_results()[index as int],
            )) <==> r is Ok,
            r is Err ==> *final(self) == *old(self),
            r matches Ok(v) ==> {
                let field = old(self).spec_fields()[index as int];
                &&& Some(v) == old(self).spec_results()[index as int]
                &&& final(self).spec_results() == old(self).spec_results().update(
                    index as int,
                    Some(Value::Handle(0)),
                )
                &&& final(self).spec_bytes() == spec_written(
                    old(self).spec_bytes(),
                    field.offset as int,
                    Seq::new(spec_field_size(field.typ), |k: int| 0u8),
                )
                &&& final(self).spec_layout() == old(self).spec_layout()
                &&& final(self).spec_raw_cleanup() == old(self).spec_raw_cleanup()
                &&& final(self).spec_succeeded() == old(self).spec_succeeded()
                &&& final(self).wf()
            },
    {
        let count = self.layout.fields().len();
        if index >= count {
            return Err(Win32Error::UnknownField);
        }
        match &self.results[index] {
            None => {
                return Err(unavailable_field(self.succeeded));
            },
            Some(Value::Unavailable) => {
                return Err(unavailable_field(self.succeeded));
            },
            Some(_) => {},
        }
        let taken = self.results.remove(index);
        self.results.insert(index, Some(Value::Handle(0)));
        let offset = self.layout.fields()[index].offset;
        let length = field_size(self.layout.fields()[index].typ);
        self.zero(offset, length);
        assert(self.results@ =~= old(self).spec_results().update(
            index as int,
            Some(Value::Handle(0)),
        ));
        match taken {
            Some(value) => Ok(value),
            None => Err(Win32Error::UnknownField),
        }
    }

    /// Records the outcome of a native call before any field is converted:
    /// the results are cleared and, after a success, every owning field's raw
    /// value awaits either delivery or its native cleanup.
    pub fn record_native(&mut self, succeeded: bool)
        requires
            old(self).wf(),
        ensures
            final(self).wf(),
            final(self).spec_succeeded() == Some(succeeded),
            final(self).spec_layout() == old(self).spec_layout(),
            final(self).spec_bytes() == old(self).spec_bytes(),
            forall|i: int|
                0 <= i < final(self).spec_fields().len() ==> (#[trigger] final(self).spec_results()[i])
                    is None,
            forall|i: int|
                0 <= i < final(self).spec_fields().len() ==> #[trigger] final(self).spec_raw_cleanup()[i]
                    == if succeeded && final(self).spec_fields()[i].cleanup.spec_owns_resource() {
                    final(self).spec_fields()[i].cleanup
                } else {
                    Cleanup::NotOwned
                },
    {
        self.succeeded = Some(succeeded);
        let count = self.layout.fields().len();
        let mut i: usize = 0;
        while i < count
            invariant
                i <= count,
                count == self.spec_fields().len(),
                self.layout == old(self).layout,
                self.bytes == old(self).bytes,
                self.succeeded == Some(succeeded),
                self.wf(),
                forall|k: int| 0 <= k < i ==> (#[trigger] self.results@[k]) is None,
                forall|k: int|
                    0 <= k < i ==> #[trigger] self.raw_cleanup@[k] == if succeeded
                        && self.spec_fields()[k].cleanup.spec_owns_resource() {
                        self.spec_fields()[k].cleanup
                    } else {
                        Cleanup::NotOwned
                    },
            decreases count - i,
        {
            let cleanup = self.layout.fields()[i].cleanup;
            let pending = if succeeded && cleanup.owns_resource() {
                cleanup
            } else {
                Cleanup::NotOwned
            };
            self.results.set(i, None);
            self.raw_cleanup.set(i, pending);
            i = i + 1;
        }
    }

    /// Converts one field after the outcome was recorded: after a success an
    /// owning field's nonzero raw value gets a new owner in `table` and stops
    /// awaiting cleanup, a zero one becomes a zero handle, and a plain field
    /// is decoded; after a failure the field is unavailable.
    pub fn deliver_field(&mut self, index: usize, table: &mut ResourceTable)
        requires
            old(self).wf(),
            old(table).wf(),
            index < old(self).spec_fields().len(),
            old(self).spec_succeeded() is Some,
        ensures
            final(self).wf(),
            final(table).wf(),
            final(self).spec_layout() == old(self).spec_layout(),
            final(self).spec_bytes() == old(self).spec_bytes(),
            final(self).spec_succeeded() == old(self).spec_succeeded(),
            final(self).spec_raw_cleanup() == old(self).spec_raw_cleanup().update(
                index as int,
                Cleanup::NotOwned,
            ),
            final(self).spec_results().len() == old(self).spec_results().len(),
            forall|k: int|
                0 <= k < old(self).spec_results().len() && k != index ==> #[trigger] final(self).spec_results()[k] == old(self).spec_results()[k],
            final(table)@.len() >= old(table)@.len(),
            forall|k: int| 0 <= k < old(table)@.len() ==> #[trigger] final(table)@[k] == old(table)@[k],
            old(self).spec_succeeded() == Some(false) ==> final(table)@ == old(table)@
                && final(self).spec_results()[index as int] == Some(Value::Unavailable),
            old(self).spec_succeeded() == Some(true) ==> delivered_field(
                old(self).spec_fields()[index as int],
                old(self).spec_bytes(),
                final(self).spec_results()[index as int],
                final(table)@,
                old(table)@.len(),
            ),
            final(self).spec_results()[index as int] is Some,
            final(self).spec_results()[index as int]->0 is Resource ==> final(self).spec_results()[index as int]->0->Resource_0.0 == old(table)@.len()
                && final(table)@.len() == old(table)@.len() + 1,
            !(final(self).spec_results()[index as int]->0 is Resource) ==> final(table)@ == old(table)@,
    {
        let field = &self.layout.fields()[index];
        let value = if self.succeeded != Some(true) {
            Value::Unavailable
        } else {
            proof {
                assert(field_end(self.spec_fields()[index as int]) <= self.spec_layout().spec_size());
            }
            let raw = read_abi(&self.bytes, field.offset, field.typ);
            if field.cleanup.owns_resource() {
                match raw {
                    AbiValue::Pointer(p) => {
                        if p == 0 {
                            Value::Handle(0)
                        } else {
                            match OwnedResource::adopt(p, field.cleanup) {
                                Ok(resource) => Value::Resource(table.insert(resource)),
                                Err(_) => Value::Null,
                            }
                        }
                    },
                    _ => Value::Null,
                }
            } else {
                proof {
                    lemma_plain_decodes(*field, self.bytes@);
                }
                match finalize_value(field.typ, raw, Cleanup::NotOwned, true, false) {
                    Ok(Decoded::Plain(v)) => v,
                    _ => Value::Null,
                }
            }
        };
        self.results.set(index, Some(value));
        self.raw_cleanup.set(index, Cleanup::NotOwned);
    }

    /// Records, for manually described calls, whether the native call
    /// succeeded and delivers the fields from the storage: owning fields are
    /// adopted into `table`, the others decoded. Once success is recorded the
    /// ownership cannot be rewritten.
    pub fn mark_legacy(&mut self, succeeded: bool, table: &mut ResourceTable) -> (r: Result<
        (),
        Win32Error,
    >)
        requires
            old(self).wf(),
            old(table).wf(),
        ensures
            old(self).spec_succeeded() == Some(true) ==> {
                &&& r is Ok <==> succeeded
                &&& r is Err ==> r == Err::<(), Win32Error>(Win32Error::OwnershipOverwrite)
                &&& *final(self) == *old(self)
                &&& *final(table) == *old(table)
            },
            old(self).spec_succeeded() != Some(true) ==> {
                &&& r is Ok
                &&& final(self).wf()
                &&& final(table).wf()
                &&& final(self).spec_succeeded() == Some(succeeded)
                &&& final(self).spec_layout() == old(self).spec_layout()
                &&& final(self).spec_bytes() == old(self).spec_bytes()
                &&& forall|i: int|
                    0 <= i < final(self).spec_fields().len() ==> #[trigger] final(self).spec_raw_cleanup()[i] == Cleanup::NotOwned
                &&& final(table)@.len() >= old(table)@.len()
                &&& forall|i: int|
                    0 <= i < old(table)@.len() ==> #[trigger] final(table)@[i] == old(table)@[i]
                &&& !succeeded ==> final(table)@ == old(table)@ && forall|i: int|
                    0 <= i < final(self).spec_fields().len() ==> #[trigger] final(self).spec_results()[i] == Some(Value::Unavailable)
                &&& succeeded ==> forall|i: int|
                    0 <= i < final(self).spec_fields().len() ==> delivered_field(
                        #[trigger] final(self).spec_fields()[i],
                        final(self).spec_bytes(),
                        final(self).spec_results()[i],
                        final(table)@,
                        old(table)@.len(),
                    )
                &&& distinct_owners(final(self).spec_results(), final(self).spec_fields().len() as int)
            },
    {
        if self.succeeded == Some(true) {
            return if succeeded {
                Ok(())
            } else {
                Err(Win32Error::OwnershipOverwrite)
            };
        }
        self.record_native(succeeded);
        let ghost first_new = table@.len();
        let count = self.layout.fields().len();
        let mut i: usize = 0;
        while i < count
            invariant
                i <= count,
                count == self.spec_fields().len(),
                self.layout == old(self).layout,
                self.bytes@ == old(self).bytes@,
                self.succeeded == Some(succeeded),
                self.wf(),
                table.wf(),
                first_new == old(table)@.len(),
                table@.len() >= first_new,
                forall|k: int| 0 <= k < first_new ==> #[trigger] table@[k] == old(table)@[k],
                !succeeded ==> table@ == old(table)@,
                forall|k: int| 0 <= k < i ==> #[trigger] self.raw_cleanup@[k] == Cleanup::NotOwned,
                !succeeded ==> forall|k: int|
                    0 <= k < i ==> #[trigger] self.results@[k] == Some(Value::Unavailable),
                succeeded ==> forall|k: int|
                    0 <= k < i ==> delivered_field(
                        #[trigger] self.spec_fields()[k],
                        self.bytes@,
                        self.results@[k],
                        table@,
                        first_new,
                    ),
                distinct_owners(self.results@, i as int),
                forall|k: int|
                    0 <= k < i && (#[trigger] self.results@[k]) is Some && self.results@[k]->0 is Resource
                        ==> self.results@[k]->0->Resource_0.0 < table@.len(),
            decreases count - i,
        {
            self.deliver_field(i, table);
            i = i + 1;
        }
        Ok(())
    }

    /// Whether `c` names a field whose raw owned value awaits cleanup, with
    /// that value and cleanup.
    pub open spec fn is_pending_cleanup(self, c: RawCleanup) -> bool {
        &&& c.index < self.spec_fields().len()
        &&& self.spec_raw_cleanup()[c.index as int].spec_owns_resource()
        &&& c.cleanup == self.spec_raw_cleanup()[c.index as int]
        &&& c.value == spec_raw_pointer(self.spec_fields()[c.index as int], self.spec_bytes())
    }

    /// The fields whose raw owned values still await native cleanup, in
    /// field order, with the raw values the storage holds for them.
    pub fn pending_raw_cleanups(&self) -> (r: Vec<RawCleanup>)
        requires
            self.wf(),
        ensures
            forall|k: int| 0 <= k < r@.len() ==> self.is_pending_cleanup(#[trigger] r@[k]),
            forall|a: int, b: int| 0 <= a < b < r@.len() ==> r@[a].index < r@[b].index,
            forall|i: int|
                0 <= i < self.spec_fields().len() && (
                #[trigger] self.spec_raw_cleanup()[i]).spec_owns_resource() ==> exists|k: int|
                    0 <= k < r@.len() && (#[trigger] r@[k]).index == i,
    {
        let fields = self.layout.fields();
        let mut pending: Vec<RawCleanup> = Vec::new();
        let mut i: usize = 0;
        while i < fields.len()
            invariant
                i <= fields@.len(),
                fields@ == self.spec_fields(),
                self.wf(),
                forall|k: int|
                    0 <= k < pending@.len() ==> self.is_pending_cleanup(#[trigger] pending@[k])
                        && pending@[k].index < i,
                forall|a: int, b: int|
                    0 <= a < b < pending@.len() ==> pending@[a].index < pending@[b].index,
                forall|j: int|
                    0 <= j < i && (#[trigger] self.spec_raw_cleanup()[j]).spec_owns_resource()
                        ==> exists|k: int| 0 <= k < pending@.len() && (#[trigger] pending@[k]).index == j,
            decreases fields@.len() - i,
        {
            let cleanup = self.raw_cleanup[i];
            if cleanup.owns_resource() {
                let field = &fields[i];
                proof {
                    assert(field_end(fields@[i as int]) <= self.spec_layout().spec_size());
                }
                let value = read_uint(&self.bytes, field.offset, field_size(field.typ)) as usize;
                let entry = RawCleanup { index: i, value, cleanup };
                assert(self.is_pending_cleanup(entry));
                let ghost before = pending@;
                pending.push(entry);
                proof {
                    lemma_pending_extended(self.spec_raw_cleanup(), before, entry, i as int);
                }
            }
            i = i + 1;
        }
        pending
    }

    /// Records that the native cleanup of a field's raw value succeeded: the
    /// field stops awaiting cleanup and its bytes are zeroed.
    pub fn finish_raw_cleanup(&mut self, index: usize)
        requires
            old(self).wf(),
            index < old(self).spec_fields().len(),
        ensures
            final(self).wf(),
            final(self).spec_raw_cleanup() == old(self).spec_raw_cleanup().update(
                index as int,
                Cleanup::NotOwned,
            ),
            final(self).spec_bytes() == spec_written(
                old(self).spec_bytes(),
                old(self).spec_fields()[index as int].offset as int,
                Seq::new(spec_field_size(old(self).spec_fields()[index as int].typ), |k: int| 0u8),
            ),
            final(self).spec_layout() == old(self).spec_layout(),
            final(self).spec_results() == old(self).spec_results(),
            final(self).spec_succeeded() == old(self).spec_succeeded(),
    {
        let offset = self.layout.fields()[index].offset;
        let length = field_size(self.layout.fields()[index].typ);
        proof {
            assert(field_end(self.spec_fields()[index as int]) <= self.spec_layout().spec_size());
        }
        self.raw_cleanup.set(index, Cleanup::NotOwned);
        self.zero(offset, length);
    }

    /// The fields whose delivered result owns a resource, with that owner;
    /// preparing the storage for reuse closes them first.
    pub fn owned_results(&self) -> (r: Vec<(usize, ResourceId)>)
        requires
            self.wf(),
        ensures
            forall|k: int|
                0 <= k < r@.len() ==> (#[trigger] r@[k]).0 < self.spec_fields().len()
                    && self.spec_results()[r@[k].0 as int] == Some(Value::Resource(r@[k].1)),
            forall|a: int, b: int| 0 <= a < b < r@.len() ==> r@[a].0 < r@[b].0,
            forall|i: int|
                0 <= i < self.spec_fields().len() && (#[trigger] self.spec_results()[i]) is Some
                    && self.spec_results()[i]->0 is Resource ==> exists|k: int|
                    0 <= k < r@.len() && (#[trigger] r@[k]).0 == i,
    {
        let mut owned: Vec<(usize, ResourceId)> = Vec::new();
        let mut i: usize = 0;
        while i < self.results.len()
            invariant
                i <= self.results@.len(),
                self.wf(),
                forall|k: int|
                    0 <= k < owned@.len() ==> (#[trigger] owned@[k]).0 < i
                        && self.spec_results()[owned@[k].0 as int] == Some(
                        Value::Resource(owned@[k].1),
                    ),
                forall|a: int, b: int| 0 <= a < b < owned@.len() ==> owned@[a].0 < owned@[b].0,
                forall|j: int|
                    0 <= j < i && (#[trigger] self.spec_results()[j]) is Some
                        && self.spec_results()[j]->0 is Resource ==> exists|k: int|
                        0 <= k < owned@.len() && (#[trigger] owned@[k]).0 == j,
            decreases self.results@.len() - i,
        {
            match &self.results[i] {
                Some(Value::Resource(id)) => {
                    let ghost before = owned@;
                    owned.push((i, *id));
                    proof {
                        assert(owned@[before.len() as int].0 == i);
                        assert forall|j: int|
                            0 <= j < i + 1 && (#[trigger] self.spec_results()[j]) is Some
                                && self.spec_results()[j]->0 is Resource implies exists|k: int|
                            0 <= k < owned@.len() && (#[trigger] owned@[k]).0 == j by {
                            if j < i {
                                let k = choose|k: int| 0 <= k < before.len() && (#[trigger] before[k]).0 == j;
                                assert(owned@[k] == before[k]);
                            } else {
                                assert(owned@[before.len() as int].0 == j);
                            }
                        }
                    }
                },
                _ => {},
            }
            i = i + 1;
        }
        owned
    }

    /// Finishes preparing the storage for reuse once raw cleanups ran and the
    /// owned results were closed: every field whose owned result could not be
    /// closed (`close_failed`) or whose raw value still awaits cleanup keeps
    /// its result and bytes; every other field is cleared and zeroed. Without
    /// a native failure the storage then awaits a new call; with one the
    /// first failure is returned.
    pub fn finish_prepare(&mut self, close_failed: &Vec<bool>, first_error: Option<i32>) -> (r: Result<
        (),
        Win32Error,
    >)
        requires
            old(self).wf(),
            close_failed@.len() == old(self).spec_fields().len(),
        ensures
            final(self).wf(),
            final(self).spec_layout() == old(self).spec_layout(),
            final(self).spec_raw_cleanup() == old(self).spec_raw_cleanup(),
            forall|i: int|
                0 <= i < final(self).spec_fields().len() ==> #[trigger] final(self).spec_results()[i]
                    == if close_failed@[i] || old(self).spec_raw_cleanup()[i].spec_owns_resource() {
                    old(self).spec_results()[i]
                } else {
                    None::<Value>
                },
            forall|j: int|
                0 <= j < final(self).spec_bytes().len() ==> #[trigger] final(self).spec_bytes()[j]
                    == if exists|i: int|
                    0 <= i < old(self).spec_fields().len() && !close_failed@[i]
                        && !old(self).spec_raw_cleanup()[i].spec_owns_resource()
                        && old(self).spec_fields()[i].offset <= j < field_end(
                        old(self).spec_fields()[i],
                    ) {
                    0u8
                } else {
                    old(self).spec_bytes()[j]
                },
            first_error matches Some(code) ==> r == Err::<(), Win32Error>(Win32Error::Native(code))
                && final(self).spec_succeeded() == old(self).spec_succeeded(),
            first_error is None ==> r is Ok && final(self).spec_succeeded() == Some(false),
    {
        let count = self.layout.fields().len();
        let ghost before = self.bytes@;
        let mut i: usize = 0;
        while i < count
            invariant
                i <= count,
                count == self.spec_fields().len(),
                close_failed@.len() == count,
                self.layout == old(self).layout,
                self.raw_cleanup == old(self).raw_cleanup,
                self.succeeded == old(self).succeeded,
                self.wf(),
                before == old(self).bytes@,
                self.bytes@.len() == before.len(),
                old(self).wf(),
                forall|k: int|
                    0 <= k < count ==> #[trigger] self.results@[k] == if k < i && !(close_failed@[k]
                        || old(self).spec_raw_cleanup()[k].spec_owns_resource()) {
                        None::<Value>
                    } else {
                        old(self).spec_results()[k]
                    },
                forall|j: int|
                    0 <= j < before.len() ==> #[trigger] self.bytes@[j] == if exists|k: int|
                        0 <= k < i && !close_failed@[k]
                            && !old(self).spec_raw_cleanup()[k].spec_owns_resource()
                            && old(self).spec_fields()[k].offset <= j < field_end(
                            old(self).spec_fields()[k],
                        ) {
                        0u8
                    } else {
                        before[j]
                    },
            decreases count - i,
        {
            if !close_failed[i] && !self.raw_cleanup[i].owns_resource() {
                let offset = self.layout.fields()[i].offset;
                let length = field_size(self.layout.fields()[i].typ);
                proof {
                    assert(field_end(self.spec_fields()[i as int]) <= self.spec_layout().spec_size());
                }
                let ghost mid = self.bytes@;
                self.results.set(i, None);
                self.zero(offset, length);
                proof {
                    assert(mid.len() == before.len());
                    assert(self.bytes@ == spec_written(
                        mid,
                        offset as int,
                        Seq::new(length as nat, |k: int| 0u8),
                    ));
                    assert forall|j: int| 0 <= j < before.len() implies #[trigger] self.bytes@[j]
                        == if exists|k: int|
                        0 <= k < i + 1 && !close_failed@[k]
                            && !old(self).spec_raw_cleanup()[k].spec_owns_resource()
                            && old(self).spec_fields()[k].offset <= j < field_end(
                            old(self).spec_fields()[k],
                        ) {
                        0u8
                    } else {
                        before[j]
                    } by {
                        if offset <= j < offset + length {
                            assert(old(self).spec_fields()[i as int].offset <= j < field_end(
                                old(self).spec_fields()[i as int],
                            ));
                        } else {
                            assert(self.bytes@[j] == mid[j]);
                            if exists|k: int|
                                0 <= k < i + 1 && !close_failed@[k]
                                    && !old(self).spec_raw_cleanup()[k].spec_owns_resource()
                                    && old(self).spec_fields()[k].offset <= j < field_end(
                                    old(self).spec_fields()[k],
                                ) {
                                let k = choose|k: int|
                                    0 <= k < i + 1 && !close_failed@[k]
                                        && !old(self).spec_raw_cleanup()[k].spec_owns_resource()
                                        && old(self).spec_fields()[k].offset <= j < field_end(
                                        old(self).spec_fields()[k],
                                    );
                                assert(k != i);
                            }
                        }
                    }
                }
            }
            i = i + 1;
        }
        match first_error {
            Some(code) => Err(Win32Error::Native(code)),
            None => {
                self.succeeded = Some(false);
                Ok(())
            },
        }
    }

    fn zero(&mut self, offset: usize, length: usize)
        requires
            offset + length <= old(self).bytes@.len(),
        ensures
            final(self).bytes@ == spec_written(
                old(self).bytes@,
                offset as int,
                Seq::new(length as nat, |k: int| 0u8),
            ),
            final(self).layout == old(self).layout,
            final(self).results == old(self).results,
            final(self).raw_cleanup == old(self).raw_cleanup,
            final(self).succeeded == old(self).succeeded,
    {
        let total = self.bytes.len();
        let ghost before = self.bytes@;
        let mut i: usize = 0;
        while i < length
            invariant
                i <= length,
                total == before.len(),
                offset + length <= total,
                self.bytes@.len() == before.len(),
                self.layout == old(self).layout,
                self.results == old(self).results,
                self.raw_cleanup == old(self).raw_cleanup,
                self.succeeded == old(self).succeeded,
                forall|j: int|
                    0 <= j < before.len() ==> #[trigger] self.bytes@[j] == if offset <= j
                        < offset + i {
                        0u8
                    } else {
                        before[j]
                    },
            decreases length - i,
        {
            self.bytes.set(offset + i, 0);
            i = i + 1;
        }
        assert(self.bytes@ =~= spec_written(
            before,
            offset as int,
            Seq::new(length as nat, |k: int| 0u8),
        ));
    }
}


proof fn lemma_pending_extended(raw: Seq<Cleanup>, before: Seq<RawCleanup>, entry: RawCleanup, i: int)
    requires
        entry.index == i,
        forall|j: int|
            0 <= j < i && (#[trigger] raw[j]).spec_owns_resource() ==> exists|k: int|
                0 <= k < before.len() && (#[trigger] before[k]).index == j,
    ensures
        forall|j: int|
            0 <= j < i + 1 && (#[trigger] raw[j]).spec_owns_resource() ==> exists|k: int|
                0 <= k < before.push(entry).len() && (#[trigger] before.push(entry)[k]).index == j,
{
    let after = before.push(entry);
    assert forall|j: int| 0 <= j < i + 1 && (#[trigger] raw[j]).spec_owns_resource() implies exists|
        k: int,
    | 0 <= k < after.len() && (#[trigger] after[k]).index == j by {
        if j < i {
            let k = choose|k: int| 0 <= k < before.len() && (#[trigger] before[k]).index == j;
            assert(after[k] == before[k]);
        } else {
            assert(after[before.len() as int].index == j);
        }
    }
}


/// Reading back what a write stored gives the written bytes, and a write
/// leaves every byte outside its range as it was.
pub proof fn lemma_read_after_write(bytes: Seq<u8>, offset: int, data: Seq<u8>)
    requires
        0 <= offset,
        offset + data.len() <= bytes.len(),
    ensures
        spec_written(bytes, offset, data).len() == bytes.len(),
        spec_written(bytes, offset, data).subrange(offset, offset + data.len()) == data,
        forall|j: int|
            0 <= j < bytes.len() && !(offset <= j < offset + data.len()) ==> #[trigger] spec_written(
                bytes,
                offset,
                data,
            )[j] == bytes[j],
{
    assert(spec_written(bytes, offset, data).subrange(offset, offset + data.len()) =~= data);
}

/// Taking a field leaves a zero handle in its slot, so taking it again
/// succeeds with that zero handle and leaves the storage as it was.
pub proof fn lemma_take_twice(first: NativeAggregateBuffer, index: int)
    requires
        first.wf(),
        0 <= index < first.spec_fields().len(),
        first.spec_results()[index] == Some(Value::Handle(0)),
    ensures
        deliverable(first.spec_results()[index]),
        first.spec_results().update(index, Some(Value::Handle(0))) == first.spec_results(),
{
    assert(first.spec_results().update(index, Some(Value::Handle(0))) =~= first.spec_results());
}

/// The unsigned bit pattern of a native scalar: the number that its bytes
/// encode, whatever type reinterprets them.
pub open spec fn abi_bits(value: AbiValue) -> nat {
    match value {
        AbiValue::Bool(b) => if b {
            1
        } else {
            0
        },
        AbiValue::I8(v) => (v as u8) as nat,
        AbiValue::U8(v) => v as nat,
        AbiValue::I16(v) => (v as u16) as nat,
        AbiValue::U16(v) => v as nat,
        AbiValue::I32(v) => (v as u32) as nat,
        AbiValue::U32(v) => v as nat,
        AbiValue::I64(v) => (v as u64) as nat,
        AbiValue::U64(v) => v as nat,
        AbiValue::F32(bits) => bits as nat,
        AbiValue::F64(bits) => bits as nat,
        AbiValue::Guid(v) => v as nat,
        AbiValue::Pointer(p) => p as nat,
    }
}

/// Reading a field keeps every bit of its bytes: the bit pattern of the value
/// read is exactly the little-endian number of the field's bytes, so two
/// fields read alike only when all of their bytes agree.
pub proof fn lemma_field_reads_keep_every_byte(bytes: Seq<u8>, offset: int, typ: Type)
    ensures
        abi_bits(spec_read_abi(bytes, offset, typ)) == le_uint(bytes, offset, spec_field_size(typ)),
{
    let n = spec_field_size(typ);
    let v = le_uint(bytes, offset, n);
    lemma_le_uint_bound(bytes, offset, n);
    reveal_with_fuel(pow256, 9);
    assert(usize::BITS == 32 || usize::BITS == 64);
    match typ {
        Type::I8 => {
            let u = v as u8;
            assert(((u as i8) as u8) == u) by (bit_vector);
        },
        Type::I16 => {
            let u = v as u16;
            assert(((u as i16) as u16) == u) by (bit_vector);
        },
        Type::Bool32 | Type::I32 => {
            let u = v as u32;
            assert(((u as i32) as u32) == u) by (bit_vector);
        },
        Type::I64 => {
            let u = v as u64;
            assert(((u as i64) as u64) == u) by (bit_vector);
        },
        _ => {},
    }
}

/// The plan type of a struct element.
pub open spec fn scalar_type(element: FfiScalar) -> Type {
    match element {
        FfiScalar::U8 => Type::U8,
        FfiScalar::I8 => Type::I8,
        FfiScalar::U16 => Type::U16,
        FfiScalar::I16 => Type::I16,
        FfiScalar::U32 => Type::U32,
        FfiScalar::I32 => Type::I32,
        FfiScalar::U64 => Type::U64,
        FfiScalar::I64 => Type::I64,
        FfiScalar::F32 => Type::F32,
        FfiScalar::F64 => Type::F64,
        FfiScalar::Pointer => Type::Pointer,
    }
}

/// The Rust type that holds an element's bits: the integer of the same name,
/// the IEEE bits of a float, and the machine word of a pointer.
pub open spec fn scalar_storage_size(element: FfiScalar) -> nat {
    match element {
        FfiScalar::U8 => vstd::layout::size_of::<u8>(),
        FfiScalar::I8 => vstd::layout::size_of::<i8>(),
        FfiScalar::U16 => vstd::layout::size_of::<u16>(),
        FfiScalar::I16 => vstd::layout::size_of::<i16>(),
        FfiScalar::U32 => vstd::layout::size_of::<u32>(),
        FfiScalar::I32 => vstd::layout::size_of::<i32>(),
        FfiScalar::U64 => vstd::layout::size_of::<u64>(),
        FfiScalar::I64 => vstd::layout::size_of::<i64>(),
        FfiScalar::F32 => vstd::layout::size_of::<u32>(),
        FfiScalar::F64 => vstd::layout::size_of::<u64>(),
        FfiScalar::Pointer => vstd::layout::size_of::<usize>(),
    }
}

/// A struct element is as wide as Rust stores its bits and as the field of
/// its type that caller-owned aggregate storage holds, on the 64-bit targets
/// whose layouts the library plans: a float is as wide as the integer of
/// its bits.
pub proof fn lemma_scalar_widths_are_native_sizes(element: FfiScalar)
    requires
        usize::BITS == 64,
    ensures
        spec_scalar_width(element) == scalar_storage_size(element),
        spec_scalar_width(element) == spec_field_size(scalar_type(element)),
{
    broadcast use vstd::layout::layout_of_primitives;

    assert(vstd::layout::size_of::<usize>() * 8 == usize::BITS);
}

} // verus!
