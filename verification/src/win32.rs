//! The flat Win32 ABI vocabulary: scalar types, directions, cleanups,
//! parameters and the values that cross a call.

use vstd::prelude::*;

use crate::abi::{AbiType, AbiValue};
use crate::error::Win32Error;
use crate::win32_resource::ResourceId;

verus! {

/// The largest native aggregate that a plan may pass or return.
pub const MAX_NATIVE_AGGREGATE_SIZE: usize = 16777216usize;

#[derive(Clone, Copy, Debug, PartialEq, Eq, Structural)]
pub enum Type {
    Bool32,
    I8,
    U8,
    I16,
    U16,
    I32,
    U32,
    I64,
    U64,
    F32,
    F64,
    Pointer,
    FunctionPointer,
    Handle,
}

impl Type {
    pub open spec fn spec_abi_type(self) -> AbiType {
        match self {
            Type::Bool32 | Type::I32 => AbiType::I32,
            Type::I8 => AbiType::I8,
            Type::U8 => AbiType::U8,
            Type::I16 => AbiType::I16,
            Type::U16 => AbiType::U16,
            Type::U32 => AbiType::U32,
            Type::I64 => AbiType::I64,
            Type::U64 => AbiType::U64,
            Type::F32 => AbiType::F32,
            Type::F64 => AbiType::F64,
            Type::Pointer | Type::FunctionPointer | Type::Handle => AbiType::Ptr,
        }
    }

    /// The native shape in which a value of this type is passed.
    pub fn abi_type(self) -> (r: AbiType)
        ensures
            r == self.spec_abi_type(),
    {
        match self {
            Type::Bool32 | Type::I32 => AbiType::I32,
            Type::I8 => AbiType::I8,
            Type::U8 => AbiType::U8,
            Type::I16 => AbiType::I16,
            Type::U16 => AbiType::U16,
            Type::U32 => AbiType::U32,
            Type::I64 => AbiType::I64,
            Type::U64 => AbiType::U64,
            Type::F32 => AbiType::F32,
            Type::F64 => AbiType::F64,
            Type::Pointer | Type::FunctionPointer | Type::Handle => AbiType::Ptr,
        }
    }

    pub open spec fn spec_is_pointer_like(self) -> bool {
        self == Type::Pointer || self == Type::FunctionPointer || self == Type::Handle
    }

    pub fn is_pointer_like(self) -> (r: bool)
        ensures
            r == self.spec_is_pointer_like(),
    {
        match self {
            Type::Pointer | Type::FunctionPointer | Type::Handle => true,
            _ => false,
        }
    }

    /// The zero storage of this type's native shape.
    pub fn default_abi_value(self) -> (r: AbiValue)
        ensures
            r == self.spec_abi_type().spec_default_value(),
            r.abi_type() == self.spec_abi_type(),
    {
        self.abi_type().default_value()
    }

    /// The name of the type as it appears in messages.
    pub open spec fn spec_name(self) -> Seq<char> {
        match self {
            Type::Bool32 => "Bool32"@,
            Type::I8 => "I8"@,
            Type::U8 => "U8"@,
            Type::I16 => "I16"@,
            Type::U16 => "U16"@,
            Type::I32 => "I32"@,
            Type::U32 => "U32"@,
            Type::I64 => "I64"@,
            Type::U64 => "U64"@,
            Type::F32 => "F32"@,
            Type::F64 => "F64"@,
            Type::Pointer => "Pointer"@,
            Type::FunctionPointer => "FunctionPointer"@,
            Type::Handle => "Handle"@,
        }
    }

    /// The name of the type as it appears in messages.
    pub fn name(&self) -> (r: &'static str)
        ensures
            r@ == self.spec_name(),
    {
        match self {
            Type::Bool32 => "Bool32",
            Type::I8 => "I8",
            Type::U8 => "U8",
            Type::I16 => "I16",
            Type::U16 => "U16",
            Type::I32 => "I32",
            Type::U32 => "U32",
            Type::I64 => "I64",
            Type::U64 => "U64",
            Type::F32 => "F32",
            Type::F64 => "F64",
            Type::Pointer => "Pointer",
            Type::FunctionPointer => "FunctionPointer",
            Type::Handle => "Handle",
        }
    }
}

#[derive(Clone, Copy, Debug, PartialEq, Eq, Structural)]
pub enum Direction {
    In,
    Out,
    InOut,
}

impl Direction {
    pub open spec fn spec_is_input(self) -> bool {
        self == Direction::In || self == Direction::InOut
    }

    pub open spec fn spec_is_output(self) -> bool {
        self == Direction::Out || self == Direction::InOut
    }

    pub fn is_input(self) -> (r: bool)
        ensures
            r == self.spec_is_input(),
    {
        match self {
            Direction::In | Direction::InOut => true,
            Direction::Out => false,
        }
    }

    pub fn is_output(self) -> (r: bool)
        ensures
            r == self.spec_is_output(),
    {
        match self {
            Direction::Out | Direction::InOut => true,
            Direction::In => false,
        }
    }
}

#[derive(Clone, Copy, Debug, PartialEq, Eq, Structural)]
pub enum Cleanup {
    NotOwned,
    CloseHandle,
    RegCloseKey,
    LocalFree,
    GlobalFree,
    FreeLibrary,
    CloseServiceHandle,
    CoTaskMemFree,
    CredFree,
}

impl Cleanup {
    pub open spec fn spec_owns_resource(self) -> bool {
        self != Cleanup::NotOwned
    }

    pub fn owns_resource(self) -> (r: bool)
        ensures
            r == self.spec_owns_resource(),
    {
        match self {
            Cleanup::NotOwned => false,
            _ => true,
        }
    }

    /// Whether releasing `value` with this cleanup calls into native code:
    /// a zero value and the `NotOwned` cleanup succeed without any native call.
    pub open spec fn spec_needs_release(self, value: usize) -> bool {
        value != 0 && self != Cleanup::NotOwned
    }

    pub fn needs_release(self, value: usize) -> (r: bool)
        ensures
            r == self.spec_needs_release(value),
    {
        value != 0 && self.owns_resource()
    }

    /// How the outcome of this cleanup's native release is judged: by a
    /// returned status code for `RegCloseKey`, by the memory that remains for
    /// `LocalFree` and `GlobalFree` (none on success), by a success flag for
    /// the handle-closing functions, and never as a failure for the frees that
    /// return nothing. A failure reports its Win32 code as an HRESULT.
    pub open spec fn spec_release_outcome(self, report: ReleaseReport) -> Result<(), i32> {
        match report {
            ReleaseReport::Status(status) => if status == 0 {
                Ok(())
            } else {
                Err(spec_hresult_from_win32(status))
            },
            ReleaseReport::Remaining { remaining, last_error } => if remaining == 0 {
                Ok(())
            } else {
                Err(spec_hresult_from_win32(last_error))
            },
            ReleaseReport::Succeeded { succeeded, last_error } => if succeeded {
                Ok(())
            } else {
                Err(spec_hresult_from_win32(last_error))
            },
            ReleaseReport::Nothing => Ok(()),
        }
    }

    pub fn release_outcome(self, report: ReleaseReport) -> (r: Result<(), i32>)
        ensures
            r == self.spec_release_outcome(report),
    {
        match report {
            ReleaseReport::Status(status) => if status == 0 {
                Ok(())
            } else {
                Err(hresult_from_win32(status))
            },
            ReleaseReport::Remaining { remaining, last_error } => if remaining == 0 {
                Ok(())
            } else {
                Err(hresult_from_win32(last_error))
            },
            ReleaseReport::Succeeded { succeeded, last_error } => if succeeded {
                Ok(())
            } else {
                Err(hresult_from_win32(last_error))
            },
            ReleaseReport::Nothing => Ok(()),
        }
    }
}

/// What a native release reported.
#[derive(Clone, Copy, Debug, PartialEq, Eq, Structural)]
pub enum ReleaseReport {
    /// A Win32 status code, zero on success.
    Status(u32),
    /// The memory that remains allocated (zero on success) and the thread's
    /// last error.
    Remaining { remaining: usize, last_error: u32 },
    /// Whether the release succeeded and the thread's last error.
    Succeeded { succeeded: bool, last_error: u32 },
    /// The release returns nothing.
    Nothing,
}

/// The HRESULT that stands for a Win32 error code: zero stays zero, any other
/// code keeps its low 16 bits under the Win32 facility.
pub open spec fn spec_hresult_from_win32(code: u32) -> i32 {
    if code == 0 {
        0
    } else {
        ((0x80070000u32 | (code & 0xffffu32)) as i32)
    }
}

pub fn hresult_from_win32(code: u32) -> (r: i32)
    ensures
        r == spec_hresult_from_win32(code),
{
    if code == 0 {
        0
    } else {
        (0x80070000u32 | (code & 0xffffu32)) as i32
    }
}

#[derive(Clone, Copy, Debug, PartialEq, Eq, Structural)]
pub struct Parameter {
    pub typ: Type,
    pub direction: Direction,
    pub nullable: bool,
    pub cleanup: Cleanup,
    pub consumes_resource: bool,
    pub resource_cleanup: Cleanup,
}

impl Parameter {
    /// A direct input parameter.
    pub fn input(typ: Type, nullable: bool) -> (r: Self)
        ensures
            r == (Parameter {
                typ,
                direction: Direction::In,
                nullable,
                cleanup: Cleanup::NotOwned,
                consumes_resource: false,
                resource_cleanup: Cleanup::NotOwned,
            }),
    {
        Parameter {
            typ,
            direction: Direction::In,
            nullable,
            cleanup: Cleanup::NotOwned,
            consumes_resource: false,
            resource_cleanup: Cleanup::NotOwned,
        }
    }

    /// An output parameter whose result is owned with `cleanup`.
    pub fn output(typ: Type, cleanup: Cleanup) -> (r: Self)
        ensures
            r == (Parameter {
                typ,
                direction: Direction::Out,
                nullable: false,
                cleanup,
                consumes_resource: false,
                resource_cleanup: Cleanup::NotOwned,
            }),
    {
        Parameter {
            typ,
            direction: Direction::Out,
            nullable: false,
            cleanup,
            consumes_resource: false,
            resource_cleanup: Cleanup::NotOwned,
        }
    }

    /// A parameter that is both read and written by the native function.
    pub fn input_output(typ: Type, nullable: bool, cleanup: Cleanup) -> (r: Self)
        ensures
            r == (Parameter {
                typ,
                direction: Direction::InOut,
                nullable,
                cleanup,
                consumes_resource: false,
                resource_cleanup: Cleanup::NotOwned,
            }),
    {
        Parameter {
            typ,
            direction: Direction::InOut,
            nullable,
            cleanup,
            consumes_resource: false,
            resource_cleanup: Cleanup::NotOwned,
        }
    }
}

#[derive(Clone, Copy, Debug, PartialEq, Eq, Structural)]
pub enum SuccessRule {
    Always,
    ReturnZero,
    ReturnNonZero,
    ReturnNonNull,
    HResultSucceeded,
    SignedNonNegative,
    ReturnValidHandle,
}

#[derive(Clone, Copy, Debug, PartialEq, Eq, Structural)]
pub enum CallingConvention {
    System,
    Cdecl,
}

/// The scalar element shapes of a native aggregate, in declaration order.
#[derive(Clone, Copy, Debug, PartialEq, Eq, Structural)]
pub enum FfiScalar {
    U8,
    I8,
    U16,
    I16,
    U32,
    I32,
    U64,
    I64,
    F32,
    F64,
    Pointer,
}

/// The size of a scalar struct element on the 64-bit targets that the
/// library plans calls for; each element is aligned to its size.
pub open spec fn spec_scalar_width(element: FfiScalar) -> int {
    match element {
        FfiScalar::U8 | FfiScalar::I8 => 1,
        FfiScalar::U16 | FfiScalar::I16 => 2,
        FfiScalar::U32 | FfiScalar::I32 | FfiScalar::F32 => 4,
        FfiScalar::U64 | FfiScalar::I64 | FfiScalar::F64 | FfiScalar::Pointer => 8,
    }
}

pub fn scalar_width(element: FfiScalar) -> (r: usize)
    ensures
        r == spec_scalar_width(element),
{
    match element {
        FfiScalar::U8 | FfiScalar::I8 => 1,
        FfiScalar::U16 | FfiScalar::I16 => 2,
        FfiScalar::U32 | FfiScalar::I32 | FfiScalar::F32 => 4,
        FfiScalar::U64 | FfiScalar::I64 | FfiScalar::F64 | FfiScalar::Pointer => 8,
    }
}

/// `x` rounded up to a multiple of `a`.
pub open spec fn align_up(x: int, a: int) -> int {
    if x % a == 0 {
        x
    } else {
        x + a - x % a
    }
}

/// Where the first `n` elements of a C struct of scalars end: each element
/// starts at the next multiple of its alignment.
pub open spec fn fields_end(elements: Seq<FfiScalar>, n: nat) -> int
    decreases n,
{
    if n == 0 {
        0
    } else {
        let w = spec_scalar_width(elements[n - 1]);
        align_up(fields_end(elements, (n - 1) as nat), w) + w
    }
}

/// The alignment of the first `n` elements: the largest element alignment.
pub open spec fn fields_alignment(elements: Seq<FfiScalar>, n: nat) -> int
    decreases n,
{
    if n == 0 {
        1
    } else {
        let w = spec_scalar_width(elements[n - 1]);
        let a = fields_alignment(elements, (n - 1) as nat);
        if w > a {
            w
        } else {
            a
        }
    }
}

/// The C layout of a struct of scalars: its alignment is the largest
/// element alignment and its size the end of its last element rounded up to
/// that alignment.
pub open spec fn spec_struct_alignment(elements: Seq<FfiScalar>) -> int {
    fields_alignment(elements, elements.len())
}

pub open spec fn spec_struct_size(elements: Seq<FfiScalar>) -> int {
    align_up(fields_end(elements, elements.len()), spec_struct_alignment(elements))
}

proof fn lemma_align_up(x: int, a: int)
    requires
        0 <= x,
        0 < a,
    ensures
        x <= align_up(x, a) < x + a,
{
    vstd::arithmetic::div_mod::lemma_mod_bound(x, a);
}

proof fn lemma_fields_facts(elements: Seq<FfiScalar>, i: nat, j: nat)
    requires
        i <= j <= elements.len(),
    ensures
        0 <= fields_end(elements, i) <= fields_end(elements, j),
        fields_alignment(elements, j) == 1 || fields_alignment(elements, j) == 2
            || fields_alignment(elements, j) == 4 || fields_alignment(elements, j) == 8,
    decreases j,
{
    if j > 0 {
        if i < j {
            lemma_fields_facts(elements, i, (j - 1) as nat);
        }
        lemma_fields_facts(elements, (j - 1) as nat, (j - 1) as nat);
        lemma_align_up(fields_end(elements, (j - 1) as nat), spec_scalar_width(elements[j - 1]));
    }
}

/// A C struct of scalars is aligned as strictly as its most strictly aligned
/// element and no more: every element's width divides into the struct's
/// alignment, which is the width of some element (1 for no elements), and
/// the struct ends no earlier than its last element.
pub proof fn lemma_struct_alignment_is_the_widest_element(elements: Seq<FfiScalar>)
    ensures
        forall|i: int| 0 <= i < elements.len() ==> spec_scalar_width(#[trigger] elements[i])
            <= spec_struct_alignment(elements),
        elements.len() == 0 ==> spec_struct_alignment(elements) == 1,
        elements.len() > 0 ==> exists|i: int|
            0 <= i < elements.len() && spec_scalar_width(#[trigger] elements[i])
                == spec_struct_alignment(elements),
        spec_struct_size(elements) >= fields_end(elements, elements.len()),
{
    lemma_widest_prefix(elements, elements.len());
    lemma_fields_facts(elements, elements.len(), elements.len());
    lemma_align_up(fields_end(elements, elements.len()), spec_struct_alignment(elements));
}

proof fn lemma_widest_prefix(elements: Seq<FfiScalar>, n: nat)
    requires
        n <= elements.len(),
    ensures
        forall|i: int| 0 <= i < n ==> spec_scalar_width(#[trigger] elements[i])
            <= fields_alignment(elements, n),
        n == 0 ==> fields_alignment(elements, n) == 1,
        n > 0 ==> exists|i: int|
            0 <= i < n && spec_scalar_width(#[trigger] elements[i]) == fields_alignment(elements, n),
    decreases n,
{
    if n > 0 {
        lemma_widest_prefix(elements, (n - 1) as nat);
        let w = spec_scalar_width(elements[n - 1]);
        if n - 1 > 0 && w <= fields_alignment(elements, (n - 1) as nat) {
            let i = choose|i: int|
                0 <= i < n - 1 && spec_scalar_width(#[trigger] elements[i]) == fields_alignment(
                    elements,
                    (n - 1) as nat,
                );
            assert(spec_scalar_width(elements[i]) == fields_alignment(elements, n));
        } else {
            assert(spec_scalar_width(elements[n - 1]) == fields_alignment(elements, n));
        }
    }
}

/// The size and alignment of a C struct of the given scalars, or `None` when
/// its size exceeds the largest aggregate that calls may carry.
pub fn scalar_struct_layout(elements: &Vec<FfiScalar>) -> (r: Option<(usize, usize)>)
    ensures
        r matches Some((size, alignment)) ==> size == spec_struct_size(elements@) && alignment
            == spec_struct_alignment(elements@),
        r is None ==> spec_struct_size(elements@) > MAX_NATIVE_AGGREGATE_SIZE,
{
    let mut end: usize = 0;
    let mut alignment: usize = 1;
    let mut i: usize = 0;
    while i < elements.len()
        invariant
            i <= elements@.len(),
            end == fields_end(elements@, i as nat),
            alignment == fields_alignment(elements@, i as nat),
            end <= MAX_NATIVE_AGGREGATE_SIZE,
        decreases elements@.len() - i,
    {
        let w = scalar_width(elements[i]);
        proof {
            lemma_align_up(end as int, w as int);
            lemma_fields_facts(elements@, (i + 1) as nat, elements@.len());
            lemma_fields_facts(elements@, (i + 1) as nat, (i + 1) as nat);
        }
        let start = if end % w == 0 {
            end
        } else {
            end + (w - end % w)
        };
        let next = start + w;
        if next > MAX_NATIVE_AGGREGATE_SIZE {
            proof {
                lemma_align_up(
                    fields_end(elements@, elements@.len()),
                    spec_struct_alignment(elements@),
                );
            }
            return None;
        }
        end = next;
        if w > alignment {
            alignment = w;
        }
        i = i + 1;
    }
    proof {
        lemma_fields_facts(elements@, elements@.len(), elements@.len());
        lemma_align_up(end as int, alignment as int);
    }
    let size = if end % alignment == 0 {
        end
    } else {
        end + (alignment - end % alignment)
    };
    Some((size, alignment))
}

/// A by-value native aggregate: its identity, extent, alignment and the
/// element shapes that decide how it crosses the ABI.
#[derive(Clone, Debug)]
pub struct NativeAggregateLayout {
    identity: String,
    size: usize,
    alignment: usize,
    elements: Vec<FfiScalar>,
}

/// The characters that `char::is_whitespace` accepts (Unicode White_Space).
pub open spec fn is_white_space(c: char) -> bool {
    ||| c == '\t' || c == '\n' || c == '\u{0B}' || c == '\u{0C}' || c == '\r' || c == ' '
    ||| c == '\u{85}' || c == '\u{A0}' || c == '\u{1680}'
    ||| ('\u{2000}' <= c && c <= '\u{200A}')
    ||| c == '\u{2028}' || c == '\u{2029}' || c == '\u{202F}' || c == '\u{205F}'
    ||| c == '\u{3000}'
}

/// Whether a text is empty once surrounding white space is trimmed.
pub open spec fn is_blank(s: Seq<char>) -> bool {
    forall|i: int| 0 <= i < s.len() ==> is_white_space(#[trigger] s[i])
}

/// The alignments a native aggregate may have: a power of two up to 8.
pub open spec fn valid_aggregate_alignment(alignment: usize) -> bool {
    alignment == 1 || alignment == 2 || alignment == 4 || alignment == 8
}

/// Whether an identity, extent and alignment describe a usable aggregate.
pub open spec fn valid_aggregate_extent(identity: Seq<char>, size: usize, alignment: usize) -> bool {
    &&& !is_blank(identity)
    &&& size != 0
    &&& valid_aggregate_alignment(alignment)
    &&& size % alignment == 0
    &&& size <= MAX_NATIVE_AGGREGATE_SIZE
}

fn is_white_space_char(c: char) -> (r: bool)
    ensures
        r == is_white_space(c),
{
    c == '\t' || c == '\n' || c == '\u{0B}' || c == '\u{0C}' || c == '\r' || c == ' '
        || c == '\u{85}' || c == '\u{A0}' || c == '\u{1680}' || ('\u{2000}' <= c && c
        <= '\u{200A}') || c == '\u{2028}' || c == '\u{2029}' || c == '\u{202F}' || c
        == '\u{205F}' || c == '\u{3000}'
}

/// Whether `text` is empty or made of white space only.
pub fn is_blank_text(text: &str) -> (r: bool)
    ensures
        r == is_blank(text@),
{
    let length = text.unicode_len();
    let mut index: usize = 0;
    while index < length
        invariant
            length == text@.len(),
            index <= length,
            forall|i: int| 0 <= i < index ==> is_white_space(#[trigger] text@[i]),
        decreases length - index,
    {
        let c = text.get_char(index);
        if !is_white_space_char(c) {
            return false;
        }
        index = index + 1;
    }
    true
}

impl NativeAggregateLayout {
    pub closed spec fn spec_identity(self) -> Seq<char> {
        self.identity@
    }

    pub closed spec fn spec_size(self) -> usize {
        self.size
    }

    pub closed spec fn spec_alignment(self) -> usize {
        self.alignment
    }

    pub closed spec fn spec_elements(self) -> Seq<FfiScalar> {
        self.elements@
    }

    /// Equality of layouts: the same identity, extent, alignment and ABI shape.
    pub open spec fn same_as(self, other: Self) -> bool {
        &&& self.spec_identity() == other.spec_identity()
        &&& self.spec_size() == other.spec_size()
        &&& self.spec_alignment() == other.spec_alignment()
        &&& self.spec_elements() == other.spec_elements()
    }

    /// Every layout that `new` builds has a valid extent and a nonempty shape.
    pub open spec fn wf(self) -> bool {
        &&& valid_aggregate_extent(self.spec_identity(), self.spec_size(), self.spec_alignment())
        &&& self.spec_elements().len() != 0
    }

    /// Builds a layout whose declared extent must agree with the C layout
    /// of `elements` on the target ABI.
    pub fn new(identity: String, size: usize, alignment: usize, elements: Vec<FfiScalar>) -> (r:
        Result<NativeAggregateLayout, Win32Error>)
        ensures
            !valid_aggregate_extent(identity@, size, alignment) ==> r == Err::<
                NativeAggregateLayout,
                Win32Error,
            >(Win32Error::InvalidAggregateLayout),
            valid_aggregate_extent(identity@, size, alignment) && elements@.len() == 0 ==> r
                == Err::<NativeAggregateLayout, Win32Error>(Win32Error::AggregateNotStruct),
            valid_aggregate_extent(identity@, size, alignment) && elements@.len() != 0 && (
            spec_struct_size(elements@) != size || spec_struct_alignment(elements@) != alignment)
                ==> r == Err::<NativeAggregateLayout, Win32Error>(
                Win32Error::AggregateLayoutDisagrees,
            ),
            r is Ok <==> (valid_aggregate_extent(identity@, size, alignment) && elements@.len()
                != 0 && spec_struct_size(elements@) == size && spec_struct_alignment(elements@)
                == alignment),
            r matches Ok(layout) ==> layout.spec_identity() == identity@ && layout.spec_size()
                == size && layout.spec_alignment() == alignment && layout.spec_elements()
                == elements@ && layout.wf(),
    {
        if is_blank_text(identity.as_str()) || size == 0 || alignment == 0 || !(alignment == 1
            || alignment == 2 || alignment == 4 || alignment == 8) || size % alignment != 0
            || alignment > 8 || size > MAX_NATIVE_AGGREGATE_SIZE {
            return Err(Win32Error::InvalidAggregateLayout);
        }
        if elements.len() == 0 {
            return Err(Win32Error::AggregateNotStruct);
        }
        match scalar_struct_layout(&elements) {
            Some((abi_size, abi_alignment)) => {
                if abi_size != size || abi_alignment != alignment {
                    return Err(Win32Error::AggregateLayoutDisagrees);
                }
            },
            None => {
                return Err(Win32Error::AggregateLayoutDisagrees);
            },
        }
        Ok(NativeAggregateLayout { identity, size, alignment, elements })
    }

    pub fn identity(&self) -> (r: &str)
        ensures
            r@ == self.spec_identity(),
    {
        self.identity.as_str()
    }

    pub fn size(&self) -> (r: usize)
        ensures
            r == self.spec_size(),
    {
        self.size
    }

    pub fn alignment(&self) -> (r: usize)
        ensures
            r == self.spec_alignment(),
    {
        self.alignment
    }

    /// The element shapes that decide how the aggregate crosses the ABI.
    pub fn elements(&self) -> (r: &Vec<FfiScalar>)
        ensures
            r@ == self.spec_elements(),
    {
        &self.elements
    }

    /// A copy of the layout.
    pub fn duplicate(&self) -> (r: NativeAggregateLayout)
        ensures
            r.same_as(*self),
            r.wf() == self.wf(),
    {
        let mut elements: Vec<FfiScalar> = Vec::new();
        let mut index: usize = 0;
        while index < self.elements.len()
            invariant
                index <= self.elements@.len(),
                elements@ == self.elements@.subrange(0, index as int),
            decreases self.elements@.len() - index,
        {
            elements.push(self.elements[index]);
            index = index + 1;
        }
        assert(elements@ =~= self.elements@);
        NativeAggregateLayout {
            identity: self.identity.clone(),
            size: self.size,
            alignment: self.alignment,
            elements,
        }
    }

    /// Compares two layouts by identity, extent, alignment and ABI shape.
    pub fn same_layout(&self, other: &NativeAggregateLayout) -> (r: bool)
        ensures
            r == self.same_as(*other),
    {
        if !(self.identity == other.identity) || self.size != other.size || self.alignment
            != other.alignment || self.elements.len() != other.elements.len() {
            return false;
        }
        let mut index: usize = 0;
        while index < self.elements.len()
            invariant
                self.elements@.len() == other.elements@.len(),
                index <= self.elements@.len(),
                forall|i: int| 0 <= i < index ==> self.elements@[i] == other.elements@[i],
            decreases self.elements@.len() - index,
        {
            if self.elements[index] != other.elements[index] {
                return false;
            }
            index = index + 1;
        }
        assert(self.elements@ =~= other.elements@);
        true
    }
}

/// A value that crosses a flat Win32 call. Floating-point values are carried
/// by their IEEE bits, pointers by their address bits, and owned resources by
/// their identity in a [`crate::win32_resource::ResourceTable`].
#[derive(Clone, Debug)]
pub enum Value {
    Bool(bool),
    I8(i8),
    U8(u8),
    I16(i16),
    U16(u16),
    I32(i32),
    U32(u32),
    I64(i64),
    U64(u64),
    F32(u32),
    F64(u64),
    Pointer(usize),
    FunctionPointer(usize),
    Handle(usize),
    Resource(ResourceId),
    Aggregate { layout: NativeAggregateLayout, pointer: usize },
    OwnedAggregate { layout: NativeAggregateLayout, bytes: Vec<u8> },
    Null,
    Unavailable,
}

impl Value {
    /// Whether two values carry the same payload; aggregates compare by their
    /// layout and their pointer or bytes.
    pub open spec fn same_value(self, other: Value) -> bool {
        match (self, other) {
            (
                Value::Aggregate { layout: a, pointer: p },
                Value::Aggregate { layout: b, pointer: q },
            ) => a.same_as(b) && p == q,
            (
                Value::OwnedAggregate { layout: a, bytes: x },
                Value::OwnedAggregate { layout: b, bytes: y },
            ) => a.same_as(b) && x@ == y@,
            (Value::Aggregate { .. }, _) => false,
            (Value::OwnedAggregate { .. }, _) => false,
            _ => self == other,
        }
    }

    /// A copy of the value.
    pub fn duplicate(&self) -> (r: Value)
        ensures
            r.same_value(*self),
    {
        match self {
            Value::Bool(v) => Value::Bool(*v),
            Value::I8(v) => Value::I8(*v),
            Value::U8(v) => Value::U8(*v),
            Value::I16(v) => Value::I16(*v),
            Value::U16(v) => Value::U16(*v),
            Value::I32(v) => Value::I32(*v),
            Value::U32(v) => Value::U32(*v),
            Value::I64(v) => Value::I64(*v),
            Value::U64(v) => Value::U64(*v),
            Value::F32(v) => Value::F32(*v),
            Value::F64(v) => Value::F64(*v),
            Value::Pointer(v) => Value::Pointer(*v),
            Value::FunctionPointer(v) => Value::FunctionPointer(*v),
            Value::Handle(v) => Value::Handle(*v),
            Value::Resource(id) => Value::Resource(*id),
            Value::Aggregate { layout, pointer } => Value::Aggregate {
                layout: layout.duplicate(),
                pointer: *pointer,
            },
            Value::OwnedAggregate { layout, bytes } => {
                let mut copy: Vec<u8> = Vec::new();
                let mut index: usize = 0;
                while index < bytes.len()
                    invariant
                        index <= bytes@.len(),
                        copy@ == bytes@.subrange(0, index as int),
                    decreases bytes@.len() - index,
                {
                    copy.push(bytes[index]);
                    index = index + 1;
                }
                assert(copy@ =~= bytes@);
                Value::OwnedAggregate { layout: layout.duplicate(), bytes: copy }
            },
            Value::Null => Value::Null,
            Value::Unavailable => Value::Unavailable,
        }
    }

    /// The owned resource that this value stands for, if any.
    pub fn resource(&self) -> (r: Option<ResourceId>)
        ensures
            r == (match self {
                Value::Resource(id) => Some(*id),
                _ => None::<ResourceId>,
            }),
    {
        match self {
            Value::Resource(id) => Some(*id),
            _ => None,
        }
    }
}

} // verus!
