//! Immutable call plans for flat Win32 exports: what a specification must
//! satisfy, and how its parameters are numbered among inputs and outputs.

use vstd::prelude::*;

use crate::error::Win32Error;
use crate::win32::{
    CallingConvention, Cleanup, Direction, NativeAggregateLayout, Parameter, SuccessRule, Type,
};
use crate::win32_contract::{spec_validate, CallContract};
use crate::win32_module::{is_bare_system_module_name, spec_is_bare_system_module_name};

verus! {

/// The most native parameters a flat plan may declare.
pub const MAX_PARAMETERS: usize = 1024;

#[derive(Clone, Debug)]
pub struct CallPlanSpec {
    pub dll: String,
    pub entry_point: String,
    pub parameters: Vec<Parameter>,
    pub return_type: Option<Type>,
    pub return_cleanup: Cleanup,
    pub success_rule: SuccessRule,
    pub capture_last_error: bool,
    pub calling_convention: CallingConvention,
    pub parameter_aggregates: Vec<Option<NativeAggregateLayout>>,
    pub return_aggregate: Option<NativeAggregateLayout>,
}

pub open spec fn is_pointer_like_return(return_type: Option<Type>) -> bool {
    match return_type {
        Some(typ) => typ.spec_is_pointer_like(),
        None => false,
    }
}

/// The error with which the `i`th parameter of a specification is refused.
pub open spec fn parameter_error(spec: CallPlanSpec, i: int) -> Option<Win32Error> {
    let parameter = spec.parameters@[i];
    if spec.parameter_aggregates@[i] is Some && (parameter.direction != Direction::In
        || parameter.typ != Type::Pointer) {
        Some(Win32Error::AggregateInputNotPointer)
    } else if parameter.nullable && !parameter.typ.spec_is_pointer_like() {
        Some(Win32Error::NullableNotPointer)
    } else if parameter.cleanup.spec_owns_resource() && (!parameter.direction.spec_is_output()
        || !parameter.typ.spec_is_pointer_like()) {
        Some(Win32Error::CleanupNotPointerOutput)
    } else if parameter.consumes_resource && (parameter.direction != Direction::In
        || parameter.typ != Type::Handle || !parameter.resource_cleanup.spec_owns_resource()) {
        Some(Win32Error::InvalidConsumingParameter)
    } else if parameter.resource_cleanup != Cleanup::NotOwned && (parameter.direction
        == Direction::Out || parameter.typ != Type::Handle) {
        Some(Win32Error::ResourceCompatibilityNotHandleInput)
    } else {
        None
    }
}

/// The first error among the first `n` parameters.
pub open spec fn parameters_error(spec: CallPlanSpec, n: nat) -> Option<Win32Error>
    decreases n,
{
    if n == 0 {
        None
    } else {
        match parameters_error(spec, (n - 1) as nat) {
            Some(error) => Some(error),
            None => parameter_error(spec, n - 1),
        }
    }
}

/// The outcome of validating a specification, in the order of its checks.
pub open spec fn spec_validate_spec(spec: CallPlanSpec) -> Result<(), Win32Error> {
    if spec.parameters@.len() > MAX_PARAMETERS || spec.parameter_aggregates@.len()
        != spec.parameters@.len() {
        Err(Win32Error::ParameterCountInvalid)
    } else if !spec_is_bare_system_module_name(spec.dll@) {
        Err(Win32Error::ModuleNameNotBare)
    } else if spec.entry_point@.len() == 0 || spec.entry_point@.contains('\0') {
        Err(Win32Error::EntryPointInvalid)
    } else if spec.return_cleanup.spec_owns_resource() && !is_pointer_like_return(
        spec.return_type,
    ) {
        Err(Win32Error::OwnedReturnNotPointer)
    } else if spec.return_type is Some && spec.return_aggregate is Some {
        Err(Win32Error::ReturnBothScalarAndAggregate)
    } else if spec.return_aggregate is Some && spec.return_cleanup != Cleanup::NotOwned {
        Err(Win32Error::AggregateReturnWithCleanup)
    } else if spec.success_rule != SuccessRule::Always && spec.return_type is None {
        Err(Win32Error::SuccessRuleNeedsReturn)
    } else if (spec.success_rule == SuccessRule::HResultSucceeded || spec.success_rule
        == SuccessRule::SignedNonNegative) && spec.return_type != Some(Type::I32) {
        Err(Win32Error::SignedRuleNeedsI32)
    } else if (spec.success_rule == SuccessRule::ReturnValidHandle || spec.success_rule
        == SuccessRule::ReturnNonNull) && !is_pointer_like_return(spec.return_type) {
        Err(Win32Error::PointerRuleNeedsPointer)
    } else if (spec.success_rule == SuccessRule::ReturnZero || spec.success_rule
        == SuccessRule::ReturnNonZero) && (spec.return_type == Some(Type::F32) || spec.return_type
        == Some(Type::F64)) {
        Err(Win32Error::IntegerRuleOnFloat)
    } else if parameters_error(spec, spec.parameters@.len()) is Some {
        Err(parameters_error(spec, spec.parameters@.len())->0)
    } else {
        Ok(())
    }
}

proof fn lemma_parameters_error_persists(spec: CallPlanSpec, n: nat, m: nat)
    requires
        n <= m,
        parameters_error(spec, n) is Some,
    ensures
        parameters_error(spec, m) == parameters_error(spec, n),
    decreases m - n,
{
    if n < m {
        lemma_parameters_error_persists(spec, n, (m - 1) as nat);
    }
}

fn has_nul(text: &str) -> (r: bool)
    ensures
        r == text@.contains('\0'),
{
    let length = text.unicode_len();
    let mut index: usize = 0;
    while index < length
        invariant
            length == text@.len(),
            index <= length,
            forall|i: int| 0 <= i < index ==> text@[i] != '\0',
        decreases length - index,
    {
        if text.get_char(index) == '\0' {
            assert(text@[index as int] == '\0');
            return true;
        }
        index = index + 1;
    }
    assert(!text@.contains('\0')) by {
        if text@.contains('\0') {
            let i = choose|i: int| 0 <= i < text@.len() && text@[i] == '\0';
            assert(text@[i] != '\0');
        }
    }
    false
}

fn pointer_like_return(return_type: Option<Type>) -> (r: bool)
    ensures
        r == is_pointer_like_return(return_type),
{
    match return_type {
        Some(typ) => typ.is_pointer_like(),
        None => false,
    }
}

fn validate_parameter(spec: &CallPlanSpec, index: usize) -> (r: Result<(), Win32Error>)
    requires
        index < spec.parameters@.len(),
        spec.parameter_aggregates@.len() == spec.parameters@.len(),
    ensures
        r is Ok <==> parameter_error(*spec, index as int) is None,
        r matches Err(error) ==> parameter_error(*spec, index as int) == Some(error),
{
    let parameter = spec.parameters[index];
    if spec.parameter_aggregates[index].is_some() && (parameter.direction != Direction::In
        || parameter.typ != Type::Pointer) {
        return Err(Win32Error::AggregateInputNotPointer);
    }
    if parameter.nullable && !parameter.typ.is_pointer_like() {
        return Err(Win32Error::NullableNotPointer);
    }
    if parameter.cleanup.owns_resource() && (!parameter.direction.is_output()
        || !parameter.typ.is_pointer_like()) {
        return Err(Win32Error::CleanupNotPointerOutput);
    }
    if parameter.consumes_resource && (parameter.direction != Direction::In || parameter.typ
        != Type::Handle || !parameter.resource_cleanup.owns_resource()) {
        return Err(Win32Error::InvalidConsumingParameter);
    }
    if parameter.resource_cleanup != Cleanup::NotOwned && (parameter.direction == Direction::Out
        || parameter.typ != Type::Handle) {
        return Err(Win32Error::ResourceCompatibilityNotHandleInput);
    }
    Ok(())
}

fn validate_parameters(spec: &CallPlanSpec) -> (r: Result<(), Win32Error>)
    requires
        spec.parameter_aggregates@.len() == spec.parameters@.len(),
    ensures
        r is Ok <==> parameters_error(*spec, spec.parameters@.len()) is None,
        r is Ok ==> r == Ok::<(), Win32Error>(()),
        r matches Err(error) ==> parameters_error(*spec, spec.parameters@.len()) == Some(error),
{
    let mut index: usize = 0;
    while index < spec.parameters.len()
        invariant
            spec.parameter_aggregates@.len() == spec.parameters@.len(),
            index <= spec.parameters@.len(),
            parameters_error(*spec, index as nat) is None,
        decreases spec.parameters@.len() - index,
    {
        match validate_parameter(spec, index) {
            Ok(()) => {},
            Err(error) => {
                assert(parameters_error(*spec, (index + 1) as nat) == Some(error));
                proof {
                    lemma_parameters_error_persists(
                        *spec,
                        (index + 1) as nat,
                        spec.parameters@.len(),
                    );
                }
                return Err(error);
            },
        }
        index = index + 1;
    }
    Ok(())
}

/// Checks a plan specification before any module is loaded.
pub fn validate_spec(spec: &CallPlanSpec) -> (r: Result<(), Win32Error>)
    ensures
        r == spec_validate_spec(*spec),
{
    if spec.parameters.len() > MAX_PARAMETERS || spec.parameter_aggregates.len()
        != spec.parameters.len() {
        return Err(Win32Error::ParameterCountInvalid);
    }
    if !is_bare_system_module_name(spec.dll.as_str()) {
        return Err(Win32Error::ModuleNameNotBare);
    }
    if spec.entry_point.as_str().unicode_len() == 0 || has_nul(spec.entry_point.as_str()) {
        return Err(Win32Error::EntryPointInvalid);
    }
    if spec.return_cleanup.owns_resource() && !pointer_like_return(spec.return_type) {
        return Err(Win32Error::OwnedReturnNotPointer);
    }
    if spec.return_type.is_some() && spec.return_aggregate.is_some() {
        return Err(Win32Error::ReturnBothScalarAndAggregate);
    }
    if spec.return_aggregate.is_some() && spec.return_cleanup != Cleanup::NotOwned {
        return Err(Win32Error::AggregateReturnWithCleanup);
    }
    if spec.success_rule != SuccessRule::Always && spec.return_type.is_none() {
        return Err(Win32Error::SuccessRuleNeedsReturn);
    }
    if (spec.success_rule == SuccessRule::HResultSucceeded || spec.success_rule
        == SuccessRule::SignedNonNegative) && !matches!(spec.return_type, Some(Type::I32)) {
        return Err(Win32Error::SignedRuleNeedsI32);
    }
    if (spec.success_rule == SuccessRule::ReturnValidHandle || spec.success_rule
        == SuccessRule::ReturnNonNull) && !pointer_like_return(spec.return_type) {
        return Err(Win32Error::PointerRuleNeedsPointer);
    }
    if (spec.success_rule == SuccessRule::ReturnZero || spec.success_rule
        == SuccessRule::ReturnNonZero) && matches!(spec.return_type, Some(Type::F32) | Some(Type::F64)) {
        return Err(Win32Error::IntegerRuleOnFloat);
    }
    validate_parameters(spec)
}

/// The number of input parameters among the first `k`.
pub open spec fn count_inputs(parameters: Seq<Parameter>, k: nat) -> nat
    decreases k,
{
    if k == 0 {
        0
    } else {
        count_inputs(parameters, (k - 1) as nat) + if parameters[k - 1].direction.spec_is_input() {
            1nat
        } else {
            0nat
        }
    }
}

/// The number of output parameters among the first `k`.
pub open spec fn count_outputs(parameters: Seq<Parameter>, k: nat) -> nat
    decreases k,
{
    if k == 0 {
        0
    } else {
        count_outputs(parameters, (k - 1) as nat) + if parameters[k - 1].direction.spec_is_output() {
            1nat
        } else {
            0nat
        }
    }
}

pub proof fn lemma_count_bounded(parameters: Seq<Parameter>, k: nat)
    ensures
        count_inputs(parameters, k) <= k,
        count_outputs(parameters, k) <= k,
    decreases k,
{
    if k > 0 {
        lemma_count_bounded(parameters, (k - 1) as nat);
    }
}

/// A parameter with its position among the call's inputs and outputs.
#[derive(Clone, Copy, Debug, PartialEq, Eq, Structural)]
pub struct PlannedParameter {
    pub spec: Parameter,
    pub input_index: Option<usize>,
    pub output_index: Option<usize>,
}

/// Whether `planned` numbers `parameters` in order: an input takes the next
/// input position, an output the next output position.
pub open spec fn numbered(parameters: Seq<Parameter>, planned: Seq<PlannedParameter>) -> bool {
    &&& planned.len() == parameters.len()
    &&& forall|k: int|
        0 <= k < planned.len() ==> {
            &&& (#[trigger] planned[k]).spec == parameters[k]
            &&& planned[k].input_index == if parameters[k].direction.spec_is_input() {
                Some(count_inputs(parameters, k as nat) as usize)
            } else {
                None::<usize>
            }
            &&& planned[k].output_index == if parameters[k].direction.spec_is_output() {
                Some(count_outputs(parameters, k as nat) as usize)
            } else {
                None::<usize>
            }
        }
}

/// Numbers the parameters of a specification among inputs and outputs.
pub fn plan_parameters(parameters: &Vec<Parameter>) -> (r: (Vec<PlannedParameter>, usize, usize))
    requires
        parameters@.len() <= MAX_PARAMETERS,
    ensures
        numbered(parameters@, r.0@),
        r.1 == count_inputs(parameters@, parameters@.len()),
        r.2 == count_outputs(parameters@, parameters@.len()),
{
    let mut planned: Vec<PlannedParameter> = Vec::new();
    let mut input_count: usize = 0;
    let mut output_count: usize = 0;
    let mut k: usize = 0;
    while k < parameters.len()
        invariant
            k <= parameters@.len() <= MAX_PARAMETERS,
            planned@.len() == k,
            input_count == count_inputs(parameters@, k as nat),
            output_count == count_outputs(parameters@, k as nat),
            forall|j: int|
                0 <= j < k ==> {
                    &&& (#[trigger] planned@[j]).spec == parameters@[j]
                    &&& planned@[j].input_index == if parameters@[j].direction.spec_is_input() {
                        Some(count_inputs(parameters@, j as nat) as usize)
                    } else {
                        None::<usize>
                    }
                    &&& planned@[j].output_index == if parameters@[j].direction.spec_is_output() {
                        Some(count_outputs(parameters@, j as nat) as usize)
                    } else {
                        None::<usize>
                    }
                },
        decreases parameters@.len() - k,
    {
        proof {
            lemma_count_bounded(parameters@, k as nat);
        }
        let parameter = parameters[k];
        let input_index = if parameter.direction.is_input() {
            let index = input_count;
            input_count = input_count + 1;
            Some(index)
        } else {
            None
        };
        let output_index = if parameter.direction.is_output() {
            let index = output_count;
            output_count = output_count + 1;
            Some(index)
        } else {
            None
        };
        planned.push(PlannedParameter { spec: parameter, input_index, output_index });
        k = k + 1;
    }
    (planned, input_count, output_count)
}

/// An immutable plan for calling one flat Win32 export.
#[derive(Debug)]
pub struct CallPlan {
    spec: CallPlanSpec,
    function: usize,
    parameters: Vec<PlannedParameter>,
    input_count: usize,
    output_count: usize,
    contract: CallContract,
}

/// The parameters of a specification, in order.
pub open spec fn spec_parameters_of(spec: CallPlanSpec) -> Seq<Parameter> {
    spec.parameters@
}

impl CallPlan {
    /// The specification that the plan was built from.
    pub closed spec fn spec_source(self) -> CallPlanSpec {
        self.spec
    }

    pub closed spec fn spec_function(self) -> usize {
        self.function
    }

    pub closed spec fn spec_parameters(self) -> Seq<PlannedParameter> {
        self.parameters@
    }

    pub closed spec fn spec_input_count(self) -> usize {
        self.input_count
    }

    pub closed spec fn spec_output_count(self) -> usize {
        self.output_count
    }

    pub closed spec fn spec_contract(self) -> CallContract {
        self.contract
    }

    /// What every plan satisfies: its specification and contract were
    /// accepted, and its parameters are numbered among inputs and outputs.
    pub open spec fn wf(self) -> bool {
        let spec = self.spec_source();
        &&& spec_validate_spec(spec) is Ok
        &&& spec_validate(self.spec_contract(), spec) is Ok
        &&& numbered(spec.parameters@, self.spec_parameters())
        &&& self.spec_input_count() == count_inputs(spec.parameters@, spec.parameters@.len())
        &&& self.spec_output_count() == count_outputs(spec.parameters@, spec.parameters@.len())
    }

    /// The checks that come before any module is loaded: the specification,
    /// then the contract against it.
    pub open spec fn spec_check(spec: CallPlanSpec, contract: CallContract) -> Result<(), Win32Error> {
        match spec_validate_spec(spec) {
            Err(error) => Err(error),
            Ok(()) => spec_validate(contract, spec),
        }
    }

    pub fn check(spec: &CallPlanSpec, contract: &CallContract) -> (r: Result<(), Win32Error>)
        ensures
            r == Self::spec_check(*spec, *contract),
    {
        match validate_spec(spec) {
            Err(error) => Err(error),
            Ok(()) => contract.validate(spec),
        }
    }

    /// Builds a plan for the export at `function`, which the caller resolved
    /// from the specification's module and entry point after [`CallPlan::check`]
    /// accepted them.
    pub fn new_with_contract(spec: CallPlanSpec, contract: CallContract, function: usize) -> (r:
        Result<CallPlan, Win32Error>)
        ensures
            Self::spec_check(spec, contract) is Err ==> r == Err::<CallPlan, Win32Error>(
                Self::spec_check(spec, contract)->Err_0,
            ),
            Self::spec_check(spec, contract) is Ok ==> (r matches Ok(plan) && plan.wf()
                && plan.spec_source() == spec && plan.spec_contract() == contract
                && plan.spec_function() == function),
    {
        match Self::check(&spec, &contract) {
            Err(error) => {
                return Err(error);
            },
            Ok(()) => {},
        }
        let (parameters, input_count, output_count) = plan_parameters(&spec.parameters);
        if spec.parameter_aggregates.len() != parameters.len() {
            return Err(Win32Error::AggregateCountMismatch);
        }
        Ok(CallPlan { spec, function, parameters, input_count, output_count, contract })
    }

    /// Builds a plan whose contract states nothing.
    pub fn new(spec: CallPlanSpec, function: usize) -> (r: Result<CallPlan, Win32Error>)
        ensures
            spec_validate_spec(spec) is Err ==> r == Err::<CallPlan, Win32Error>(
                spec_validate_spec(spec)->Err_0,
            ),
            r matches Ok(plan) ==> plan.wf() && plan.spec_source() == spec
                && plan.spec_contract().outputs@.len() == 0
                && plan.spec_contract().resource_effects@.len() == 0
                && plan.spec_function() == function,
            spec_validate_spec(spec) is Ok ==> r is Ok,
    {
        let contract = CallContract::empty();
        proof {
            if spec_validate_spec(spec) is Ok {
                assert(spec_validate(contract, spec) is Ok) by {
                    assert(crate::win32_contract::rules_error(contract, spec, 0) is None);
                    assert(!crate::win32_contract::effects_invalid(contract, spec, 0));
                }
            }
        }
        Self::new_with_contract(spec, contract, function)
    }

    pub fn dll(&self) -> (r: &str)
        ensures
            r@ == self.spec_source().dll@,
    {
        self.spec.dll.as_str()
    }

    pub fn entry_point(&self) -> (r: &str)
        ensures
            r@ == self.spec_source().entry_point@,
    {
        self.spec.entry_point.as_str()
    }

    /// The module and export names, as owned strings for an error to carry.
    pub(crate) fn export_names(&self) -> (r: (String, String))
        ensures
            r.0 == self.spec_source().dll,
            r.1 == self.spec_source().entry_point,
    {
        (self.spec.dll.clone(), self.spec.entry_point.clone())
    }

    pub fn function(&self) -> (r: usize)
        ensures
            r == self.spec_function(),
    {
        self.function
    }

    pub fn input_count(&self) -> (r: usize)
        ensures
            r == self.spec_input_count(),
    {
        self.input_count
    }

    pub fn output_count(&self) -> (r: usize)
        ensures
            r == self.spec_output_count(),
    {
        self.output_count
    }

    pub fn calling_convention(&self) -> (r: CallingConvention)
        ensures
            r == self.spec_source().calling_convention,
    {
        self.spec.calling_convention
    }

    pub fn return_type(&self) -> (r: Option<Type>)
        ensures
            r == self.spec_source().return_type,
    {
        self.spec.return_type
    }

    pub fn capture_last_error(&self) -> (r: bool)
        ensures
            r == self.spec_source().capture_last_error,
    {
        self.spec.capture_last_error
    }

    /// The numbered parameters of the plan.
    pub fn parameters(&self) -> (r: &Vec<PlannedParameter>)
        ensures
            r@ == self.spec_parameters(),
    {
        &self.parameters
    }

    /// The specification the plan was built from.
    pub fn source(&self) -> (r: &CallPlanSpec)
        ensures
            *r == self.spec_source(),
    {
        &self.spec
    }

    pub fn contract(&self) -> (r: &CallContract)
        ensures
            *r == self.spec_contract(),
    {
        &self.contract
    }
}

} // verus!
