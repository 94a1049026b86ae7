//! Semantic call contracts: which outputs are defined under which input and
//! return conditions, and which resource state a successful call changes.

use vstd::prelude::*;

use crate::abi::AbiValue;
use crate::error::Win32Error;
use crate::win32::{Cleanup, Direction, Parameter, Type};
use crate::win32_plan::CallPlanSpec;

verus! {

/// The most predicates one output condition may hold.
pub const MAX_CONDITION_PREDICATES: usize = 16;

/// The most values one bits or handle predicate may list.
pub const MAX_PREDICATE_VALUES: usize = 64;

#[derive(Clone, Debug)]
pub struct CallContract {
    pub outputs: Vec<OutputRule>,
    pub resource_effects: Vec<ResourceEffect>,
}

#[derive(Clone, Debug)]
pub struct OutputRule {
    pub parameter: usize,
    pub when: Condition,
    pub action: OutputAction,
}

#[derive(Clone, Debug)]
pub struct Condition {
    pub inputs: Vec<InputPredicate>,
    pub return_value: Option<u64>,
}

#[allow(inconsistent_fields)]
#[derive(Clone, Debug)]
pub enum InputPredicate {
    BitsIn { parameter: usize, mask: u64, values: Vec<u64> },
    HandleIn { parameter: usize, values: Vec<i64> },
    NullOrEmpty { parameter: usize, element_width: u8 },
}

#[derive(Clone, Copy, Debug, PartialEq, Eq, Structural)]
pub enum OutputAction {
    Unavailable,
    AliasInput { parameter: usize },
}

#[derive(Clone, Copy, Debug, PartialEq, Eq, Structural)]
pub enum ResourceEffect {
    AddFileCompletionModes { handle_parameter: usize, flags_parameter: usize },
}

/// The bits that an integer or handle of the given type can carry.
pub open spec fn spec_integer_mask(typ: Type) -> Option<u64> {
    match typ {
        Type::I8 | Type::U8 => Some(0xffu64),
        Type::I16 | Type::U16 => Some(0xffffu64),
        Type::Bool32 | Type::I32 | Type::U32 => Some(0xffff_ffffu64),
        Type::I64 | Type::U64 => Some(u64::MAX),
        Type::Handle => Some(usize::MAX as u64),
        _ => None,
    }
}

pub fn integer_mask(typ: Type) -> (r: Option<u64>)
    ensures
        r == spec_integer_mask(typ),
{
    match typ {
        Type::I8 | Type::U8 => Some(0xffu64),
        Type::I16 | Type::U16 => Some(0xffffu64),
        Type::Bool32 | Type::I32 | Type::U32 => Some(0xffff_ffffu64),
        Type::I64 | Type::U64 => Some(u64::MAX),
        Type::Handle => Some(usize::MAX as u64),
        _ => None,
    }
}

/// The unsigned bit pattern of an integer, boolean or pointer value, zero
/// extended to 64 bits; floating-point and GUID values have none.
pub open spec fn spec_abi_bits(value: AbiValue) -> Option<u64> {
    match value {
        AbiValue::Bool(b) => Some(if b { 1u64 } else { 0u64 }),
        AbiValue::I8(v) => Some(v as u8 as u64),
        AbiValue::U8(v) => Some(v as u64),
        AbiValue::I16(v) => Some(v as u16 as u64),
        AbiValue::U16(v) => Some(v as u64),
        AbiValue::I32(v) => Some(v as u32 as u64),
        AbiValue::U32(v) => Some(v as u64),
        AbiValue::I64(v) => Some(v as u64),
        AbiValue::U64(v) => Some(v),
        AbiValue::Pointer(v) => Some(v as u64),
        _ => None,
    }
}

pub fn abi_bits(value: &AbiValue) -> (r: Option<u64>)
    ensures
        r == spec_abi_bits(*value),
{
    match value {
        AbiValue::Bool(b) => Some(if *b { 1u64 } else { 0u64 }),
        AbiValue::I8(v) => Some(*v as u8 as u64),
        AbiValue::U8(v) => Some(*v as u64),
        AbiValue::I16(v) => Some(*v as u16 as u64),
        AbiValue::U16(v) => Some(*v as u64),
        AbiValue::I32(v) => Some(*v as u32 as u64),
        AbiValue::U32(v) => Some(*v as u64),
        AbiValue::I64(v) => Some(*v as u64),
        AbiValue::U64(v) => Some(*v),
        AbiValue::Pointer(v) => Some(*v as u64),
        _ => None,
    }
}

impl InputPredicate {
    pub open spec fn spec_parameter(self) -> usize {
        match self {
            InputPredicate::BitsIn { parameter, .. } => parameter,
            InputPredicate::HandleIn { parameter, .. } => parameter,
            InputPredicate::NullOrEmpty { parameter, .. } => parameter,
        }
    }

    pub fn parameter(&self) -> (r: usize)
        ensures
            r == self.spec_parameter(),
    {
        match self {
            InputPredicate::BitsIn { parameter, .. } => *parameter,
            InputPredicate::HandleIn { parameter, .. } => *parameter,
            InputPredicate::NullOrEmpty { parameter, .. } => *parameter,
        }
    }
}

/// Whether a sequence holds some value twice.
pub open spec fn has_duplicates<T>(s: Seq<T>) -> bool {
    exists|i: int, j: int| 0 <= i < j < s.len() && s[i] == s[j]
}

/// Whether a list of conditioned values has an acceptable size.
pub open spec fn valid_value_count(n: nat) -> bool {
    0 < n <= MAX_PREDICATE_VALUES
}

/// The error with which a predicate over `spec`'s parameters is refused.
pub open spec fn predicate_error(spec: CallPlanSpec, predicate: InputPredicate) -> Option<Win32Error> {
    let parameter = predicate.spec_parameter();
    if parameter >= spec.parameters@.len() {
        Some(Win32Error::InputConditionUnknownParameter)
    } else {
        let input = spec.parameters@[parameter as int];
        if input.direction == Direction::Out || spec.parameter_aggregates@[parameter as int] is Some {
            Some(Win32Error::InputConditionNeedsScalarInput)
        } else {
            match predicate {
                InputPredicate::BitsIn { mask, values, .. } => match spec_integer_mask(input.typ) {
                    None => Some(Win32Error::BitsConditionNeedsInteger),
                    Some(width) => if mask == 0 || mask & !width != 0 || !valid_value_count(
                        values@.len(),
                    ) || (exists|k: int| 0 <= k < values@.len() && #[trigger] values@[k] & !mask != 0)
                        || has_duplicates(values@) {
                        Some(Win32Error::InvalidBitsCondition)
                    } else {
                        None
                    },
                },
                InputPredicate::HandleIn { values, .. } => if input.typ != Type::Handle
                    || !valid_value_count(values@.len()) || (exists|k: int|
                    0 <= k < values@.len() && !(isize::MIN <= #[trigger] values@[k] <= isize::MAX))
                    || has_duplicates(values@) {
                    Some(Win32Error::InvalidHandleCondition)
                } else {
                    None
                },
                InputPredicate::NullOrEmpty { element_width, .. } => if input.typ != Type::Pointer
                    || !(element_width == 1 || element_width == 2) {
                    Some(Win32Error::InvalidEmptyStringCondition)
                } else {
                    None
                },
            }
        }
    }
}

/// The first error among the first `n` predicates of a condition.
pub open spec fn predicates_error(spec: CallPlanSpec, predicates: Seq<InputPredicate>, n: nat) -> Option<
    Win32Error,
>
    decreases n,
{
    if n == 0 {
        None
    } else {
        match predicates_error(spec, predicates, (n - 1) as nat) {
            Some(error) => Some(error),
            None => predicate_error(spec, predicates[n - 1]),
        }
    }
}

/// The error with which an alias action of an output rule is refused.
pub open spec fn alias_error(spec: CallPlanSpec, output: Parameter, action: OutputAction) -> Option<
    Win32Error,
> {
    match action {
        OutputAction::Unavailable => None,
        OutputAction::AliasInput { parameter } => if parameter >= spec.parameters@.len() {
            Some(Win32Error::AliasUnknownInput)
        } else {
            let input = spec.parameters@[parameter as int];
            if output.typ != Type::Handle || output.direction != Direction::Out
                || !output.cleanup.spec_owns_resource() || input.typ != Type::Handle
                || input.direction != Direction::In || input.consumes_resource
                || input.resource_cleanup != output.cleanup {
                Some(Win32Error::InvalidAlias)
            } else {
                None
            }
        },
    }
}

/// The error with which the `i`th output rule is refused, given that the
/// earlier rules were accepted.
pub open spec fn rule_error(contract: CallContract, spec: CallPlanSpec, i: int) -> Option<Win32Error> {
    let rule = contract.outputs@[i];
    if rule.parameter >= spec.parameters@.len() {
        Some(Win32Error::OutputRuleUnknownParameter)
    } else {
        let output = spec.parameters@[rule.parameter as int];
        if !output.direction.spec_is_output() || (exists|j: int|
            0 <= j < i && (#[trigger] contract.outputs@[j]).parameter == rule.parameter) {
            Some(Win32Error::OutputRuleNotUniqueOutput)
        } else if rule.when.inputs@.len() > MAX_CONDITION_PREDICATES {
            Some(Win32Error::OutputConditionTooManyPredicates)
        } else if rule.when.return_value is Some && (match spec.return_type {
            Some(typ) => spec_integer_mask(typ) is None,
            None => true,
        }) {
            Some(Win32Error::ReturnConditionNeedsIntegerReturn)
        } else if (rule.when.return_value matches Some(value) && (value & !spec_integer_mask(
            spec.return_type->0,
        )->0) != 0) {
            Some(Win32Error::ReturnConditionExceedsWidth)
        } else if predicates_error(spec, rule.when.inputs@, rule.when.inputs@.len()) is Some {
            predicates_error(spec, rule.when.inputs@, rule.when.inputs@.len())
        } else {
            alias_error(spec, output, rule.action)
        }
    }
}

/// The first error among the first `n` output rules.
pub open spec fn rules_error(contract: CallContract, spec: CallPlanSpec, n: nat) -> Option<Win32Error>
    decreases n,
{
    if n == 0 {
        None
    } else {
        match rules_error(contract, spec, (n - 1) as nat) {
            Some(error) => Some(error),
            None => rule_error(contract, spec, n - 1),
        }
    }
}

/// Whether the `i`th resource effect is refused, given the earlier ones.
pub open spec fn effect_invalid(contract: CallContract, spec: CallPlanSpec, i: int) -> bool {
    match contract.resource_effects@[i] {
        ResourceEffect::AddFileCompletionModes { handle_parameter, flags_parameter } => {
            ||| handle_parameter >= spec.parameters@.len()
            ||| ({
                let handle = spec.parameters@[handle_parameter as int];
                handle.typ != Type::Handle || handle.direction != Direction::In
                    || handle.consumes_resource || handle.resource_cleanup != Cleanup::CloseHandle
            })
            ||| flags_parameter >= spec.parameters@.len()
            ||| ({
                let flags = spec.parameters@[flags_parameter as int];
                flags.typ != Type::U8 || flags.direction != Direction::In
            })
            ||| exists|j: int|
                0 <= j < i && (match #[trigger] contract.resource_effects@[j] {
                    ResourceEffect::AddFileCompletionModes { handle_parameter: earlier, .. } => earlier
                        == handle_parameter,
                })
        },
    }
}

/// Whether some of the first `n` resource effects is refused.
pub open spec fn effects_invalid(contract: CallContract, spec: CallPlanSpec, n: nat) -> bool {
    exists|i: int| 0 <= i < n && effect_invalid(contract, spec, i)
}

/// The outcome of validating a contract against a plan specification.
pub open spec fn spec_validate(contract: CallContract, spec: CallPlanSpec) -> Result<(), Win32Error> {
    if contract.outputs@.len() > spec.parameters@.len() || contract.resource_effects@.len()
        > spec.parameters@.len() {
        Err(Win32Error::ContractTooManyRules)
    } else if rules_error(contract, spec, contract.outputs@.len()) is Some {
        Err(rules_error(contract, spec, contract.outputs@.len())->0)
    } else if effects_invalid(contract, spec, contract.resource_effects@.len()) {
        Err(Win32Error::InvalidCompletionModeEffect)
    } else {
        Ok(())
    }
}

/// Whether a predicate holds of the input storage. For `NullOrEmpty`,
/// `leading_unit` is the first character unit stored at the pointer.
pub open spec fn predicate_holds(
    predicate: InputPredicate,
    inputs: Seq<Option<AbiValue>>,
    leading_unit: u16,
) -> bool {
    match predicate {
        InputPredicate::BitsIn { parameter, mask, values } => match inputs[parameter as int] {
            Some(value) => match spec_abi_bits(value) {
                Some(bits) => values@.contains(bits & mask),
                None => false,
            },
            None => false,
        },
        InputPredicate::HandleIn { parameter, values } => match inputs[parameter as int] {
            Some(AbiValue::Pointer(pointer)) => values@.contains(pointer as isize as i64),
            _ => false,
        },
        InputPredicate::NullOrEmpty { parameter, .. } => match inputs[parameter as int] {
            Some(AbiValue::Pointer(pointer)) => pointer == 0 || leading_unit == 0,
            _ => false,
        },
    }
}

fn contains_u64(values: &Vec<u64>, value: u64) -> (r: bool)
    ensures
        r == values@.contains(value),
{
    let mut index: usize = 0;
    while index < values.len()
        invariant
            index <= values@.len(),
            forall|k: int| 0 <= k < index ==> values@[k] != value,
        decreases values@.len() - index,
    {
        if values[index] == value {
            return true;
        }
        index = index + 1;
    }
    false
}

fn contains_i64(values: &Vec<i64>, value: i64) -> (r: bool)
    ensures
        r == values@.contains(value),
{
    let mut index: usize = 0;
    while index < values.len()
        invariant
            index <= values@.len(),
            forall|k: int| 0 <= k < index ==> values@[k] != value,
        decreases values@.len() - index,
    {
        if values[index] == value {
            return true;
        }
        index = index + 1;
    }
    false
}

fn has_duplicate_u64(values: &Vec<u64>) -> (r: bool)
    ensures
        r == has_duplicates(values@),
{
    let mut j: usize = 0;
    while j < values.len()
        invariant
            j <= values@.len(),
            forall|a: int, b: int| 0 <= a < b < j ==> values@[a] != values@[b],
        decreases values@.len() - j,
    {
        let mut i: usize = 0;
        while i < j
            invariant
                i <= j < values@.len(),
                forall|a: int| 0 <= a < i ==> values@[a] != values@[j as int],
            decreases j - i,
        {
            if values[i] == values[j] {
                return true;
            }
            i = i + 1;
        }
        j = j + 1;
    }
    false
}

fn has_duplicate_i64(values: &Vec<i64>) -> (r: bool)
    ensures
        r == has_duplicates(values@),
{
    let mut j: usize = 0;
    while j < values.len()
        invariant
            j <= values@.len(),
            forall|a: int, b: int| 0 <= a < b < j ==> values@[a] != values@[b],
        decreases values@.len() - j,
    {
        let mut i: usize = 0;
        while i < j
            invariant
                i <= j < values@.len(),
                forall|a: int| 0 <= a < i ==> values@[a] != values@[j as int],
            decreases j - i,
        {
            if values[i] == values[j] {
                return true;
            }
            i = i + 1;
        }
        j = j + 1;
    }
    false
}

fn exceeds_mask(values: &Vec<u64>, mask: u64) -> (r: bool)
    ensures
        r == (exists|k: int| 0 <= k < values@.len() && #[trigger] values@[k] & !mask != 0),
{
    let mut index: usize = 0;
    while index < values.len()
        invariant
            index <= values@.len(),
            forall|k: int| 0 <= k < index ==> #[trigger] values@[k] & !mask == 0,
        decreases values@.len() - index,
    {
        if values[index] & !mask != 0 {
            assert(values@[index as int] & !mask != 0);
            return true;
        }
        index = index + 1;
    }
    false
}

fn exceeds_pointer_width(values: &Vec<i64>) -> (r: bool)
    ensures
        r == (exists|k: int|
            0 <= k < values@.len() && !(isize::MIN <= #[trigger] values@[k] <= isize::MAX)),
{
    let mut index: usize = 0;
    while index < values.len()
        invariant
            index <= values@.len(),
            forall|k: int| 0 <= k < index ==> isize::MIN <= #[trigger] values@[k] <= isize::MAX,
        decreases values@.len() - index,
    {
        let value = values[index];
        if value < isize::MIN as i64 || value > isize::MAX as i64 {
            assert(!(isize::MIN <= values@[index as int] <= isize::MAX));
            return true;
        }
        index = index + 1;
    }
    false
}

fn validate_predicates(spec: &CallPlanSpec, predicates: &Vec<InputPredicate>) -> (r: Result<
    (),
    Win32Error,
>)
    requires
        spec.parameter_aggregates@.len() == spec.parameters@.len(),
    ensures
        r is Ok <==> predicates_error(*spec, predicates@, predicates@.len()) is None,
        r matches Err(error) ==> predicates_error(*spec, predicates@, predicates@.len()) == Some(
            error,
        ),
{
    let mut k: usize = 0;
    while k < predicates.len()
        invariant
            spec.parameter_aggregates@.len() == spec.parameters@.len(),
            k <= predicates@.len(),
            predicates_error(*spec, predicates@, k as nat) is None,
        decreases predicates@.len() - k,
    {
        match validate_predicate(spec, &predicates[k]) {
            Ok(()) => {},
            Err(error) => {
                assert(predicates_error(*spec, predicates@, (k + 1) as nat) == Some(error));
                proof {
                    lemma_predicates_error_persists(
                        *spec,
                        predicates@,
                        (k + 1) as nat,
                        predicates@.len(),
                    );
                }
                return Err(error);
            },
        }
        k = k + 1;
    }
    Ok(())
}

fn parameter_used_before(contract: &CallContract, i: usize, parameter: usize) -> (r: bool)
    requires
        i <= contract.outputs@.len(),
    ensures
        r == (exists|j: int| 0 <= j < i && (#[trigger] contract.outputs@[j]).parameter == parameter),
{
    let mut j: usize = 0;
    while j < i
        invariant
            j <= i <= contract.outputs@.len(),
            forall|k: int| 0 <= k < j ==> (#[trigger] contract.outputs@[k]).parameter != parameter,
        decreases i - j,
    {
        if contract.outputs[j].parameter == parameter {
            assert(contract.outputs@[j as int].parameter == parameter);
            return true;
        }
        j = j + 1;
    }
    false
}

fn validate_predicate(spec: &CallPlanSpec, predicate: &InputPredicate) -> (r: Result<(), Win32Error>)
    requires
        spec.parameter_aggregates@.len() == spec.parameters@.len(),
    ensures
        r is Ok <==> predicate_error(*spec, *predicate) is None,
        r matches Err(error) ==> predicate_error(*spec, *predicate) == Some(error),
{
    let parameter = predicate.parameter();
    if parameter >= spec.parameters.len() {
        return Err(Win32Error::InputConditionUnknownParameter);
    }
    let input = spec.parameters[parameter];
    if input.direction == Direction::Out || spec.parameter_aggregates[parameter].is_some() {
        return Err(Win32Error::InputConditionNeedsScalarInput);
    }
    match predicate {
        InputPredicate::BitsIn { mask, values, .. } => {
            let width = match integer_mask(input.typ) {
                Some(width) => width,
                None => {
                    return Err(Win32Error::BitsConditionNeedsInteger);
                },
            };
            if *mask == 0 || *mask & !width != 0 || values.len() == 0 || values.len()
                > MAX_PREDICATE_VALUES {
                return Err(Win32Error::InvalidBitsCondition);
            }
            if exceeds_mask(values, *mask) {
                return Err(Win32Error::InvalidBitsCondition);
            }
            if has_duplicate_u64(values) {
                return Err(Win32Error::InvalidBitsCondition);
            }
            Ok(())
        },
        InputPredicate::HandleIn { values, .. } => {
            if input.typ != Type::Handle || values.len() == 0 || values.len()
                > MAX_PREDICATE_VALUES {
                return Err(Win32Error::InvalidHandleCondition);
            }
            if exceeds_pointer_width(values) {
                return Err(Win32Error::InvalidHandleCondition);
            }
            if has_duplicate_i64(values) {
                return Err(Win32Error::InvalidHandleCondition);
            }
            Ok(())
        },
        InputPredicate::NullOrEmpty { element_width, .. } => {
            if input.typ != Type::Pointer || !(*element_width == 1 || *element_width == 2) {
                return Err(Win32Error::InvalidEmptyStringCondition);
            }
            Ok(())
        },
    }
}

fn validate_rule(contract: &CallContract, spec: &CallPlanSpec, i: usize) -> (r: Result<
    (),
    Win32Error,
>)
    requires
        spec.parameter_aggregates@.len() == spec.parameters@.len(),
        i < contract.outputs@.len(),
    ensures
        r is Ok <==> rule_error(*contract, *spec, i as int) is None,
        r matches Err(error) ==> rule_error(*contract, *spec, i as int) == Some(error),
{
    let rule = &contract.outputs[i];
    if rule.parameter >= spec.parameters.len() {
        return Err(Win32Error::OutputRuleUnknownParameter);
    }
    let output = spec.parameters[rule.parameter];
    if !output.direction.is_output() {
        return Err(Win32Error::OutputRuleNotUniqueOutput);
    }
    if parameter_used_before(contract, i, rule.parameter) {
        return Err(Win32Error::OutputRuleNotUniqueOutput);
    }
    if rule.when.inputs.len() > MAX_CONDITION_PREDICATES {
        return Err(Win32Error::OutputConditionTooManyPredicates);
    }
    match rule.when.return_value {
        Some(value) => {
            let mask = match spec.return_type {
                Some(typ) => integer_mask(typ),
                None => None,
            };
            match mask {
                Some(mask) => {
                    if value & !mask != 0 {
                        return Err(Win32Error::ReturnConditionExceedsWidth);
                    }
                },
                None => {
                    return Err(Win32Error::ReturnConditionNeedsIntegerReturn);
                },
            }
        },
        None => {},
    }
    match validate_predicates(spec, &rule.when.inputs) {
        Ok(()) => {},
        Err(error) => {
            return Err(error);
        },
    }
    match rule.action {
        OutputAction::AliasInput { parameter } => {
            if parameter >= spec.parameters.len() {
                return Err(Win32Error::AliasUnknownInput);
            }
            let input = spec.parameters[parameter];
            if output.typ != Type::Handle || output.direction != Direction::Out
                || !output.cleanup.owns_resource() || input.typ != Type::Handle || input.direction
                != Direction::In || input.consumes_resource || input.resource_cleanup
                != output.cleanup {
                return Err(Win32Error::InvalidAlias);
            }
            Ok(())
        },
        OutputAction::Unavailable => Ok(()),
    }
}

/// Once an error is found among the first `n` predicates, it stays the first.
proof fn lemma_predicates_error_persists(
    spec: CallPlanSpec,
    predicates: Seq<InputPredicate>,
    n: nat,
    m: nat,
)
    requires
        n <= m,
        predicates_error(spec, predicates, n) is Some,
    ensures
        predicates_error(spec, predicates, m) == predicates_error(spec, predicates, n),
    decreases m - n,
{
    if n < m {
        lemma_predicates_error_persists(spec, predicates, n, (m - 1) as nat);
    }
}

/// Once an error is found among the first `n` rules, it stays the first.
proof fn lemma_rules_error_persists(contract: CallContract, spec: CallPlanSpec, n: nat, m: nat)
    requires
        n <= m,
        rules_error(contract, spec, n) is Some,
    ensures
        rules_error(contract, spec, m) == rules_error(contract, spec, n),
    decreases m - n,
{
    if n < m {
        lemma_rules_error_persists(contract, spec, n, (m - 1) as nat);
    }
}

fn validate_effect(contract: &CallContract, spec: &CallPlanSpec, i: usize) -> (r: bool)
    requires
        i < contract.resource_effects@.len(),
    ensures
        r == !effect_invalid(*contract, *spec, i as int),
{
    let ResourceEffect::AddFileCompletionModes { handle_parameter, flags_parameter } =
        contract.resource_effects[i];
    if handle_parameter >= spec.parameters.len() {
        return false;
    }
    let handle = spec.parameters[handle_parameter];
    if handle.typ != Type::Handle || handle.direction != Direction::In || handle.consumes_resource
        || handle.resource_cleanup != Cleanup::CloseHandle {
        return false;
    }
    if flags_parameter >= spec.parameters.len() {
        return false;
    }
    let flags = spec.parameters[flags_parameter];
    if flags.typ != Type::U8 || flags.direction != Direction::In {
        return false;
    }
    let mut j: usize = 0;
    while j < i
        invariant
            j <= i < contract.resource_effects@.len(),
            contract.resource_effects@[i as int] == (ResourceEffect::AddFileCompletionModes {
                handle_parameter,
                flags_parameter,
            }),
            forall|k: int|
                0 <= k < j ==> (match #[trigger] contract.resource_effects@[k] {
                    ResourceEffect::AddFileCompletionModes { handle_parameter: earlier, .. } => earlier
                        != handle_parameter,
                }),
        decreases i - j,
    {
        let ResourceEffect::AddFileCompletionModes { handle_parameter: earlier, .. } =
            contract.resource_effects[j];
        if earlier == handle_parameter {
            return false;
        }
        j = j + 1;
    }
    true
}

impl CallContract {
    /// The contract that states nothing: every output is defined whenever the
    /// call runs, and no resource state changes.
    pub fn empty() -> (r: Self)
        ensures
            r.outputs@.len() == 0,
            r.resource_effects@.len() == 0,
    {
        CallContract { outputs: Vec::new(), resource_effects: Vec::new() }
    }

    /// Checks the contract against the plan specification it belongs to.
    pub fn validate(&self, spec: &CallPlanSpec) -> (r: Result<(), Win32Error>)
        requires
            spec.parameter_aggregates@.len() == spec.parameters@.len(),
        ensures
            r == spec_validate(*self, *spec),
    {
        if self.outputs.len() > spec.parameters.len() || self.resource_effects.len()
            > spec.parameters.len() {
            return Err(Win32Error::ContractTooManyRules);
        }
        let mut i: usize = 0;
        while i < self.outputs.len()
            invariant
                spec.parameter_aggregates@.len() == spec.parameters@.len(),
                self.outputs@.len() <= spec.parameters@.len(),
                self.resource_effects@.len() <= spec.parameters@.len(),
                i <= self.outputs@.len(),
                rules_error(*self, *spec, i as nat) is None,
            decreases self.outputs@.len() - i,
        {
            match validate_rule(self, spec, i) {
                Ok(()) => {},
                Err(error) => {
                    assert(rules_error(*self, *spec, (i + 1) as nat) == Some(error));
                    proof {
                        lemma_rules_error_persists(
                            *self,
                            *spec,
                            (i + 1) as nat,
                            self.outputs@.len(),
                        );
                    }
                    return Err(error);
                },
            }
            i = i + 1;
        }
        let mut e: usize = 0;
        while e < self.resource_effects.len()
            invariant
                self.outputs@.len() <= spec.parameters@.len(),
                self.resource_effects@.len() <= spec.parameters@.len(),
                rules_error(*self, *spec, self.outputs@.len()) is None,
                e <= self.resource_effects@.len(),
                !effects_invalid(*self, *spec, e as nat),
            decreases self.resource_effects@.len() - e,
        {
            if !validate_effect(self, spec, e) {
                assert(effect_invalid(*self, *spec, e as int));
                assert(effects_invalid(*self, *spec, self.resource_effects@.len()));
                return Err(Win32Error::InvalidCompletionModeEffect);
            }
            e = e + 1;
        }
        Ok(())
    }

    pub open spec fn spec_changes_resource(self, parameter: usize) -> bool {
        exists|i: int|
            0 <= i < self.resource_effects@.len() && (match #[trigger] self.resource_effects@[i] {
                ResourceEffect::AddFileCompletionModes { handle_parameter, .. } => handle_parameter
                    == parameter,
            })
    }

    /// Whether a successful call changes the state of the resource passed for
    /// `parameter`.
    pub fn changes_resource(&self, parameter: usize) -> (r: bool)
        ensures
            r == self.spec_changes_resource(parameter),
    {
        let mut i: usize = 0;
        while i < self.resource_effects.len()
            invariant
                i <= self.resource_effects@.len(),
                forall|k: int|
                    0 <= k < i ==> (match #[trigger] self.resource_effects@[k] {
                        ResourceEffect::AddFileCompletionModes { handle_parameter, .. } => handle_parameter
                            != parameter,
                    }),
            decreases self.resource_effects@.len() - i,
        {
            let ResourceEffect::AddFileCompletionModes { handle_parameter, .. } =
                self.resource_effects[i];
            if handle_parameter == parameter {
                return true;
            }
            i = i + 1;
        }
        false
    }
}

impl Condition {
    /// Whether every input predicate holds of the input storage, taken before
    /// the native call. `leading_units[k]` is the first character unit at the
    /// pointer of predicate `k` when it is a `NullOrEmpty` predicate.
    pub open spec fn spec_matches_inputs(
        self,
        inputs: Seq<Option<AbiValue>>,
        leading_units: Seq<u16>,
    ) -> bool {
        forall|k: int|
            0 <= k < self.inputs@.len() ==> predicate_holds(
                #[trigger] self.inputs@[k],
                inputs,
                leading_units[k],
            )
    }

    pub fn matches_inputs(&self, inputs: &Vec<Option<AbiValue>>, leading_units: &Vec<u16>) -> (r:
        bool)
        requires
            leading_units@.len() == self.inputs@.len(),
            forall|k: int|
                0 <= k < self.inputs@.len() ==> (#[trigger] self.inputs@[k]).spec_parameter()
                    < inputs@.len(),
        ensures
            r == self.spec_matches_inputs(inputs@, leading_units@),
    {
        let mut k: usize = 0;
        while k < self.inputs.len()
            invariant
                k <= self.inputs@.len(),
                leading_units@.len() == self.inputs@.len(),
                forall|j: int|
                    0 <= j < self.inputs@.len() ==> (#[trigger] self.inputs@[j]).spec_parameter()
                        < inputs@.len(),
                forall|j: int|
                    0 <= j < k ==> predicate_holds(
                        #[trigger] self.inputs@[j],
                        inputs@,
                        leading_units@[j],
                    ),
            decreases self.inputs@.len() - k,
        {
            let holds = match &self.inputs[k] {
                InputPredicate::BitsIn { parameter, mask, values } => match &inputs[*parameter] {
                    Some(value) => match abi_bits(value) {
                        Some(bits) => contains_u64(values, bits & *mask),
                        None => false,
                    },
                    None => false,
                },
                InputPredicate::HandleIn { parameter, values } => match &inputs[*parameter] {
                    Some(AbiValue::Pointer(pointer)) => contains_i64(
                        values,
                        *pointer as isize as i64,
                    ),
                    _ => false,
                },
                InputPredicate::NullOrEmpty { parameter, .. } => match &inputs[*parameter] {
                    Some(AbiValue::Pointer(pointer)) => *pointer == 0 || leading_units[k] == 0,
                    _ => false,
                },
            };
            if !holds {
                return false;
            }
            k = k + 1;
        }
        true
    }
}

} // verus!
