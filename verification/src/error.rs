use vstd::prelude::*;
use vstd::string::StringExecFns;

verus! {

/// The HRESULT reported for arguments and plans that the library refuses.
pub const E_INVALIDARG: i32 = -2147024809i32;

/// The HRESULT reported for storage that cannot be allocated.
pub const E_OUTOFMEMORY: i32 = -2147024882i32;

/// The HRESULT reported when a resource is busy with asynchronous I/O.
pub const E_BUSY: i32 = -2147024726i32;

/// The HRESULT reported when an export cannot be found in a module.
pub const E_PROC_NOT_FOUND: i32 = -2147024769i32;

/// Every way in which the flat Win32 planner, executor and resource model
/// refuse a request. Each variant stands for one documented message.
#[derive(Clone, Debug, PartialEq, Eq)]
pub enum Win32Error {
    // Call contracts.
    ContractTooManyRules,
    OutputRuleUnknownParameter,
    OutputRuleNotUniqueOutput,
    OutputConditionTooManyPredicates,
    ReturnConditionNeedsIntegerReturn,
    ReturnConditionExceedsWidth,
    InputConditionUnknownParameter,
    InputConditionNeedsScalarInput,
    BitsConditionNeedsInteger,
    InvalidBitsCondition,
    InvalidHandleCondition,
    InvalidEmptyStringCondition,
    AliasUnknownInput,
    InvalidAlias,
    InvalidCompletionModeEffect,
    // Call plan specifications.
    ParameterCountInvalid,
    ModuleNameNotBare,
    EntryPointInvalid,
    OwnedReturnNotPointer,
    ReturnBothScalarAndAggregate,
    AggregateReturnWithCleanup,
    SuccessRuleNeedsReturn,
    SignedRuleNeedsI32,
    PointerRuleNeedsPointer,
    IntegerRuleOnFloat,
    AggregateInputNotPointer,
    NullableNotPointer,
    CleanupNotPointerOutput,
    InvalidConsumingParameter,
    ResourceCompatibilityNotHandleInput,
    AggregateCountMismatch,
    InvalidModuleName,
    InvalidExportName,
    // Invocation.
    ArgumentCount { dll: String, entry_point: String, expected: usize, received: usize },
    ConsumingNeedsResource,
    ConsumingCleanupMismatch,
    DuplicateResource,
    ArgumentMismatch(crate::win32::Type),
    HandleCleanupMismatch,
    NoCallLease,
    ClosedResourceHandle,
    AggregateArgumentMismatch,
    AggregateIdentityMismatch,
    ReturnZeroNeedsScalar,
    NonZeroNeedsScalar,
    HResultNeedsI32,
    SignedNonNegativeNeedsI32,
    ValidHandleNeedsPointer,
    OwnedOutputNotPointer,
    ResultDoesNotMatchPlan,
    InconsistentReturn,
    AliasOutputMismatch,
    // Owned resources.
    InvalidOwnedResource,
    ResourceCleanupMismatch,
    LeaseOfClosedResource,
    ConsumeWhilePending,
    MutateWhilePending(&'static str),
    CloseWhilePending,
    DifferentCompletionPort,
    UnexpectedCompletionPort,
    // Native aggregates.
    InvalidAggregateLayout,
    AggregateNotStruct,
    AggregateLayoutDisagrees,
    InvalidPointerLayout,
    FieldExceedsStorage,
    InvalidOrOverlappingField,
    InitializationWrongSize,
    AccessExceedsStorage,
    OutputsBeforeSuccess,
    OutputsAfterFailure,
    FieldNotDeliverable,
    UnknownField,
    OwnershipOverwrite,
    FieldAwaitsCleanup,
    // A module has no export of the requested name.
    ExportNotFound { export: String, module: String },
    // A failure that a native function reported, by its HRESULT.
    Native(i32),
}

impl Win32Error {
    /// The HRESULT that stands for this error.
    pub open spec fn spec_code(self) -> i32 {
        match self {
            Win32Error::Native(code) => code,
            Win32Error::CloseWhilePending => E_BUSY,
            Win32Error::ExportNotFound { .. } => E_PROC_NOT_FOUND,
            _ => E_INVALIDARG,
        }
    }

    pub fn code(&self) -> (r: i32)
        ensures
            r == self.spec_code(),
    {
        match self {
            Win32Error::Native(code) => *code,
            Win32Error::CloseWhilePending => E_BUSY,
            Win32Error::ExportNotFound { .. } => E_PROC_NOT_FOUND,
            _ => E_INVALIDARG,
        }
    }

    /// Whether `text` is this error's human readable text. Counts appear in
    /// the decimal text that `to_string` gives for them.
    pub open spec fn spec_message_is(self, text: Seq<char>) -> bool {
        match self {
            Win32Error::ContractTooManyRules => text == "Win32 call contract has too many rules"@,
            Win32Error::OutputRuleUnknownParameter => text == "Win32 output rule refers to an unknown native parameter"@,
            Win32Error::OutputRuleNotUniqueOutput => text == "Win32 output rules require unique native output parameters"@,
            Win32Error::OutputConditionTooManyPredicates => text == "Win32 output condition has too many predicates"@,
            Win32Error::ReturnConditionNeedsIntegerReturn => text == "Win32 return conditions require an integer native return"@,
            Win32Error::ReturnConditionExceedsWidth => text == "Win32 return condition exceeds its native width"@,
            Win32Error::InputConditionUnknownParameter => text == "Win32 input condition refers to an unknown native parameter"@,
            Win32Error::InputConditionNeedsScalarInput => text == "Win32 input condition requires a scalar input"@,
            Win32Error::BitsConditionNeedsInteger => text == "Win32 bits condition requires an integer or handle"@,
            Win32Error::InvalidBitsCondition => text == "Invalid Win32 native bits condition"@,
            Win32Error::InvalidHandleCondition => text == "Native handle conditions require unique pointer-width signed handle values"@,
            Win32Error::InvalidEmptyStringCondition => text == "Win32 empty-string condition requires a pointer and byte/UTF-16 width"@,
            Win32Error::AliasUnknownInput => text == "Win32 alias refers to an unknown native input"@,
            Win32Error::InvalidAlias => text == "Win32 alias requires an owned handle output and a matching non-consuming input"@,
            Win32Error::InvalidCompletionModeEffect => text == "File completion mode effects require a unique CloseHandle input and native U8 flags"@,
            Win32Error::ParameterCountInvalid => text == "flat Win32 parameter/aggregate count is invalid or exceeds 1024"@,
            Win32Error::ModuleNameNotBare => text == "flat Win32 DLL names must be bare .dll or .drv names loaded from System32"@,
            Win32Error::EntryPointInvalid => text == "flat Win32 entry point must be a non-empty NUL-free export name"@,
            Win32Error::OwnedReturnNotPointer => text == "owned flat Win32 returns must be pointer or handle values"@,
            Win32Error::ReturnBothScalarAndAggregate => text == "flat Win32 return cannot be both scalar and aggregate"@,
            Win32Error::AggregateReturnWithCleanup => text == "native aggregate returns cannot use pointer cleanup"@,
            Win32Error::SuccessRuleNeedsReturn => text == "flat Win32 success rules require a direct return value"@,
            Win32Error::SignedRuleNeedsI32 => text == "signed success rules require an i32 return type"@,
            Win32Error::PointerRuleNeedsPointer => text == "pointer success rules require a pointer or handle return"@,
            Win32Error::IntegerRuleOnFloat => text == "integer success rules cannot classify floating-point returns"@,
            Win32Error::AggregateInputNotPointer => text == "by-value native aggregates require direct pointer-typed input plans"@,
            Win32Error::NullableNotPointer => text == "only pointer and handle inputs may be nullable"@,
            Win32Error::CleanupNotPointerOutput => text == "flat Win32 cleanup applies only to pointer or handle outputs"@,
            Win32Error::InvalidConsumingParameter => text == "consuming Win32 parameters must be direct managed handle inputs with exact cleanup"@,
            Win32Error::ResourceCompatibilityNotHandleInput => text == "managed resource compatibility applies only to handle inputs"@,
            Win32Error::AggregateCountMismatch => text == "flat Win32 aggregate descriptor count must match native parameters"@,
            Win32Error::InvalidModuleName => text == "invalid System32 module name"@,
            Win32Error::InvalidExportName => text == "invalid export name"@,
            Win32Error::ConsumingNeedsResource => text == "consuming Win32 parameters require a managed resource object"@,
            Win32Error::ConsumingCleanupMismatch => text == "managed Win32 resource cleanup kind does not match the consuming parameter"@,
            Win32Error::DuplicateResource => text == "the same managed Win32 resource cannot occupy multiple parameters in one call"@,
            Win32Error::HandleCleanupMismatch => text == "managed Win32 resource cleanup kind does not match the handle parameter"@,
            Win32Error::NoCallLease => text == "managed Win32 resource has no active call lease"@,
            Win32Error::ClosedResourceHandle => text == "cannot pass a closed flat Win32 resource handle"@,
            Win32Error::AggregateArgumentMismatch => text == "flat Win32 argument does not match native aggregate"@,
            Win32Error::AggregateIdentityMismatch => text == "flat Win32 native aggregate identity mismatch"@,
            Win32Error::ReturnZeroNeedsScalar => text == "ReturnZero requires an integer or pointer return"@,
            Win32Error::NonZeroNeedsScalar => text == "nonzero success rule requires a scalar return"@,
            Win32Error::HResultNeedsI32 => text == "HRESULT success rule requires a signed 32-bit return"@,
            Win32Error::SignedNonNegativeNeedsI32 => text == "signed-nonnegative success rule requires a signed 32-bit return"@,
            Win32Error::ValidHandleNeedsPointer => text == "valid-handle success rule requires a pointer return"@,
            Win32Error::OwnedOutputNotPointer => text == "owned flat Win32 output was not pointer-shaped"@,
            Win32Error::ResultDoesNotMatchPlan => text == "flat Win32 native result did not match its immutable call plan"@,
            Win32Error::InconsistentReturn => text == "flat Win32 call plan produced an inconsistent return value"@,
            Win32Error::AliasOutputMismatch => text == "Win32 alias output does not equal its contracted input handle"@,
            Win32Error::InvalidOwnedResource => text == "owned Win32 resource requires a nonzero value and cleanup"@,
            Win32Error::ResourceCleanupMismatch => text == "managed Win32 resource cleanup kind does not match"@,
            Win32Error::LeaseOfClosedResource => text == "cannot lease a closed Win32 resource"@,
            Win32Error::ConsumeWhilePending => text == "cannot consume a Win32 resource while asynchronous I/O is pending"@,
            Win32Error::MutateWhilePending(state) => text == "cannot change "@ + state@
                + " while asynchronous I/O is pending"@,
            Win32Error::CloseWhilePending => text == "cannot close a Win32 resource while asynchronous I/O is pending"@,
            Win32Error::DifferentCompletionPort => text == "Win32 resource was associated with a different IOCP"@,
            Win32Error::UnexpectedCompletionPort => text == "Win32 resource was associated with an unexpected IOCP"@,
            Win32Error::InvalidAggregateLayout => text == "invalid native aggregate call layout"@,
            Win32Error::AggregateNotStruct => text == "native aggregate requires a nonempty libffi struct"@,
            Win32Error::AggregateLayoutDisagrees => text == "native aggregate layout disagrees with the target ABI"@,
            Win32Error::InvalidPointerLayout => text == "Invalid native aggregate pointer layout"@,
            Win32Error::FieldExceedsStorage => text == "Aggregate result field exceeds caller storage"@,
            Win32Error::InvalidOrOverlappingField => text == "Invalid or overlapping aggregate result field"@,
            Win32Error::InitializationWrongSize => text == "Native aggregate initialization has the wrong size"@,
            Win32Error::AccessExceedsStorage => text == "Native aggregate field exceeds caller storage"@,
            Win32Error::OutputsBeforeSuccess => text == "native aggregate outputs are unavailable before a successful native call"@,
            Win32Error::OutputsAfterFailure => text == "native aggregate outputs are unavailable because the native call failed"@,
            Win32Error::FieldNotDeliverable => text == "native aggregate outputs are unavailable because the native field is not deliverable"@,
            Win32Error::UnknownField => text == "Unknown native aggregate result field"@,
            Win32Error::OwnershipOverwrite => text == "Cannot overwrite native aggregate result ownership"@,
            Win32Error::FieldAwaitsCleanup => text == "Native aggregate field bytes cannot change while their owned result awaits cleanup"@,
            Win32Error::Native(_) => text == "native function reported a failure"@,
            Win32Error::ArgumentCount { dll, entry_point, expected, received } => exists|e: String, g: String|
                #![trigger vstd::string::to_string_from_display_ensures::<usize>(&expected, e), vstd::string::to_string_from_display_ensures::<usize>(&received, g)]
                vstd::string::to_string_from_display_ensures::<usize>(&expected, e)
                    && vstd::string::to_string_from_display_ensures::<usize>(&received, g)
                    && text == dll@ + "!"@ + entry_point@ + " expects "@ + e@ + " inputs, received "@
                    + g@,
            Win32Error::ExportNotFound { export, module } => text == "Export `"@ + export@
                + "` was not found in `"@ + module@ + "`"@,
            Win32Error::ArgumentMismatch(typ) => text == "flat Win32 argument does not match "@
                + typ.spec_name(),
        }
    }

    /// The human readable text of this error.
    pub fn message(&self) -> (r: String)
        ensures
            self.spec_message_is(r@),
    {
        let text: &str = match self {
            Win32Error::ContractTooManyRules => "Win32 call contract has too many rules",
            Win32Error::OutputRuleUnknownParameter => "Win32 output rule refers to an unknown native parameter",
            Win32Error::OutputRuleNotUniqueOutput => "Win32 output rules require unique native output parameters",
            Win32Error::OutputConditionTooManyPredicates => "Win32 output condition has too many predicates",
            Win32Error::ReturnConditionNeedsIntegerReturn => "Win32 return conditions require an integer native return",
            Win32Error::ReturnConditionExceedsWidth => "Win32 return condition exceeds its native width",
            Win32Error::InputConditionUnknownParameter => "Win32 input condition refers to an unknown native parameter",
            Win32Error::InputConditionNeedsScalarInput => "Win32 input condition requires a scalar input",
            Win32Error::BitsConditionNeedsInteger => "Win32 bits condition requires an integer or handle",
            Win32Error::InvalidBitsCondition => "Invalid Win32 native bits condition",
            Win32Error::InvalidHandleCondition => "Native handle conditions require unique pointer-width signed handle values",
            Win32Error::InvalidEmptyStringCondition => "Win32 empty-string condition requires a pointer and byte/UTF-16 width",
            Win32Error::AliasUnknownInput => "Win32 alias refers to an unknown native input",
            Win32Error::InvalidAlias => "Win32 alias requires an owned handle output and a matching non-consuming input",
            Win32Error::InvalidCompletionModeEffect => "File completion mode effects require a unique CloseHandle input and native U8 flags",
            Win32Error::ParameterCountInvalid => "flat Win32 parameter/aggregate count is invalid or exceeds 1024",
            Win32Error::ModuleNameNotBare => "flat Win32 DLL names must be bare .dll or .drv names loaded from System32",
            Win32Error::EntryPointInvalid => "flat Win32 entry point must be a non-empty NUL-free export name",
            Win32Error::OwnedReturnNotPointer => "owned flat Win32 returns must be pointer or handle values",
            Win32Error::ReturnBothScalarAndAggregate => "flat Win32 return cannot be both scalar and aggregate",
            Win32Error::AggregateReturnWithCleanup => "native aggregate returns cannot use pointer cleanup",
            Win32Error::SuccessRuleNeedsReturn => "flat Win32 success rules require a direct return value",
            Win32Error::SignedRuleNeedsI32 => "signed success rules require an i32 return type",
            Win32Error::PointerRuleNeedsPointer => "pointer success rules require a pointer or handle return",
            Win32Error::IntegerRuleOnFloat => "integer success rules cannot classify floating-point returns",
            Win32Error::AggregateInputNotPointer => "by-value native aggregates require direct pointer-typed input plans",
            Win32Error::NullableNotPointer => "only pointer and handle inputs may be nullable",
            Win32Error::CleanupNotPointerOutput => "flat Win32 cleanup applies only to pointer or handle outputs",
            Win32Error::InvalidConsumingParameter => "consuming Win32 parameters must be direct managed handle inputs with exact cleanup",
            Win32Error::ResourceCompatibilityNotHandleInput => "managed resource compatibility applies only to handle inputs",
            Win32Error::AggregateCountMismatch => "flat Win32 aggregate descriptor count must match native parameters",
            Win32Error::InvalidModuleName => "invalid System32 module name",
            Win32Error::InvalidExportName => "invalid export name",
            Win32Error::ArgumentCount { dll, entry_point, expected, received } => {
                let mut text = String::from_str(dll.as_str());
                text.append("!");
                text.append(entry_point.as_str());
                text.append(" expects ");
                let e = expected.to_string();
                text.append(e.as_str());
                text.append(" inputs, received ");
                let g = received.to_string();
                text.append(g.as_str());
                assert(vstd::string::to_string_from_display_ensures::<usize>(&*expected, e)
                    && vstd::string::to_string_from_display_ensures::<usize>(&*received, g)
                    && text@ == dll@ + "!"@ + entry_point@ + " expects "@ + e@ + " inputs, received "@
                    + g@);
                return text;
            },
            Win32Error::ConsumingNeedsResource => "consuming Win32 parameters require a managed resource object",
            Win32Error::ConsumingCleanupMismatch => "managed Win32 resource cleanup kind does not match the consuming parameter",
            Win32Error::DuplicateResource => "the same managed Win32 resource cannot occupy multiple parameters in one call",
            Win32Error::ArgumentMismatch(typ) => {
                let mut text = String::from_str("flat Win32 argument does not match ");
                text.append(typ.name());
                return text;
            },
            Win32Error::HandleCleanupMismatch => "managed Win32 resource cleanup kind does not match the handle parameter",
            Win32Error::NoCallLease => "managed Win32 resource has no active call lease",
            Win32Error::ClosedResourceHandle => "cannot pass a closed flat Win32 resource handle",
            Win32Error::AggregateArgumentMismatch => "flat Win32 argument does not match native aggregate",
            Win32Error::AggregateIdentityMismatch => "flat Win32 native aggregate identity mismatch",
            Win32Error::ReturnZeroNeedsScalar => "ReturnZero requires an integer or pointer return",
            Win32Error::NonZeroNeedsScalar => "nonzero success rule requires a scalar return",
            Win32Error::HResultNeedsI32 => "HRESULT success rule requires a signed 32-bit return",
            Win32Error::SignedNonNegativeNeedsI32 => "signed-nonnegative success rule requires a signed 32-bit return",
            Win32Error::ValidHandleNeedsPointer => "valid-handle success rule requires a pointer return",
            Win32Error::OwnedOutputNotPointer => "owned flat Win32 output was not pointer-shaped",
            Win32Error::ResultDoesNotMatchPlan => "flat Win32 native result did not match its immutable call plan",
            Win32Error::InconsistentReturn => "flat Win32 call plan produced an inconsistent return value",
            Win32Error::AliasOutputMismatch => "Win32 alias output does not equal its contracted input handle",
            Win32Error::InvalidOwnedResource => "owned Win32 resource requires a nonzero value and cleanup",
            Win32Error::ResourceCleanupMismatch => "managed Win32 resource cleanup kind does not match",
            Win32Error::LeaseOfClosedResource => "cannot lease a closed Win32 resource",
            Win32Error::ConsumeWhilePending => "cannot consume a Win32 resource while asynchronous I/O is pending",
            Win32Error::MutateWhilePending(state) => {
                let mut text = String::from_str("cannot change ");
                text.append(state);
                text.append(" while asynchronous I/O is pending");
                return text;
            },
            Win32Error::CloseWhilePending => "cannot close a Win32 resource while asynchronous I/O is pending",
            Win32Error::DifferentCompletionPort => "Win32 resource was associated with a different IOCP",
            Win32Error::UnexpectedCompletionPort => "Win32 resource was associated with an unexpected IOCP",
            Win32Error::InvalidAggregateLayout => "invalid native aggregate call layout",
            Win32Error::AggregateNotStruct => "native aggregate requires a nonempty libffi struct",
            Win32Error::AggregateLayoutDisagrees => "native aggregate layout disagrees with the target ABI",
            Win32Error::InvalidPointerLayout => "Invalid native aggregate pointer layout",
            Win32Error::FieldExceedsStorage => "Aggregate result field exceeds caller storage",
            Win32Error::InvalidOrOverlappingField => "Invalid or overlapping aggregate result field",
            Win32Error::InitializationWrongSize => "Native aggregate initialization has the wrong size",
            Win32Error::AccessExceedsStorage => "Native aggregate field exceeds caller storage",
            Win32Error::OutputsBeforeSuccess => "native aggregate outputs are unavailable before a successful native call",
            Win32Error::OutputsAfterFailure => "native aggregate outputs are unavailable because the native call failed",
            Win32Error::FieldNotDeliverable => "native aggregate outputs are unavailable because the native field is not deliverable",
            Win32Error::UnknownField => "Unknown native aggregate result field",
            Win32Error::OwnershipOverwrite => "Cannot overwrite native aggregate result ownership",
            Win32Error::FieldAwaitsCleanup => "Native aggregate field bytes cannot change while their owned result awaits cleanup",
            Win32Error::Native(_) => "native function reported a failure",
            Win32Error::ExportNotFound { export, module } => {
                let mut text = String::from_str("Export `");
                text.append(export.as_str());
                text.append("` was not found in `");
                text.append(module.as_str());
                text.append("`");
                return text;
            },
        };
        String::from_str(text)
    }
}

} // verus!
