//! Invoking a flat Win32 plan. A call runs in three steps: `prepare_call`
//! checks the arguments, locks their resources and builds the native input and
//! output storage; the caller then performs the native call; `complete_call`
//! classifies the result, commits resource effects and decides what every
//! result becomes, including which native releases must follow; `settle`
//! turns the outcome of those releases into the final result.

use vstd::prelude::*;

use crate::abi::{AbiType, AbiValue};
use crate::error::Win32Error;
use crate::win32::{Cleanup, Direction, NativeAggregateLayout, Type, Value};
use crate::win32_contract::{
    alias_error, effect_invalid, effects_invalid, predicate_error, predicates_error, rule_error,
    rules_error, spec_abi_bits, abi_bits, spec_validate, CallContract, InputPredicate, OutputAction,
    ResourceEffect,
};
use crate::win32_convert::{spec_value_to_abi, spec_word_count, try_zeroed_words, value_to_abi};
use crate::win32_plan::{
    count_inputs, count_outputs, lemma_count_bounded, numbered, parameter_error, parameters_error, spec_validate_spec, CallPlan,
    CallPlanSpec, PlannedParameter,
};
use crate::win32_resource::{OwnedResource, ResourceAccess, ResourceId, ResourceTable};

verus! {

/// Whether every managed resource among the arguments has an owner in the table.
pub open spec fn resources_known(args: Seq<Value>, table: Seq<OwnedResource>) -> bool {
    forall|a: int|
        0 <= a < args.len() ==> (#[trigger] args[a] matches Value::Resource(id) ==> id.0
            < table.len())
}

/// The cleanup of the owner of a managed resource argument.
pub open spec fn owner_cleanup(value: Value, table: Seq<OwnedResource>) -> Cleanup {
    match value {
        Value::Resource(id) => table[id.0 as int].spec_cleanup(),
        _ => Cleanup::NotOwned,
    }
}

/// The value held by the owner of a managed resource argument.
pub open spec fn owner_bits(value: Value, table: Seq<OwnedResource>) -> Option<usize> {
    match value {
        Value::Resource(id) => Some(table[id.0 as int].spec_value()),
        _ => None,
    }
}

// ---------------------------------------------------------------------------
// Facts that every accepted plan satisfies.

proof fn lemma_parameters_valid(spec: CallPlanSpec, n: nat)
    requires
        parameters_error(spec, n) is None,
    ensures
        forall|k: int| 0 <= k < n ==> parameter_error(spec, k) is None,
    decreases n,
{
    if n > 0 {
        lemma_parameters_valid(spec, (n - 1) as nat);
    }
}

proof fn lemma_rules_valid(contract: CallContract, spec: CallPlanSpec, n: nat)
    requires
        rules_error(contract, spec, n) is None,
    ensures
        forall|r: int| 0 <= r < n ==> rule_error(contract, spec, r) is None,
    decreases n,
{
    if n > 0 {
        lemma_rules_valid(contract, spec, (n - 1) as nat);
    }
}

proof fn lemma_count_outputs_step(parameters: Seq<Parameter>, k: nat, n: nat)
    requires
        k < n <= parameters.len(),
        parameters[k as int].direction.spec_is_output(),
    ensures
        count_outputs(parameters, k) < count_outputs(parameters, n),
    decreases n - k,
{
    if k + 1 < n {
        lemma_count_outputs_step(parameters, k, (n - 1) as nat);
    }
}

proof fn lemma_count_inputs_step(parameters: Seq<Parameter>, k: nat, n: nat)
    requires
        k < n <= parameters.len(),
        parameters[k as int].direction.spec_is_input(),
    ensures
        count_inputs(parameters, k) < count_inputs(parameters, n),
    decreases n - k,
{
    if k + 1 < n {
        lemma_count_inputs_step(parameters, k, (n - 1) as nat);
    }
}

use crate::win32::Parameter;

/// The facts of an accepted plan that invocation relies on.
pub open spec fn plan_facts(plan: CallPlan) -> bool {
    let spec = plan.spec_source();
    let planned = plan.spec_parameters();
    &&& planned.len() == spec.parameters@.len()
    &&& spec.parameter_aggregates@.len() == spec.parameters@.len()
    &&& forall|k: int|
        0 <= k < planned.len() ==> {
            &&& (#[trigger] planned[k]).spec == spec.parameters@[k]
            &&& parameter_error(spec, k) is None
            &&& (planned[k].input_index is Some <==> planned[k].spec.direction.spec_is_input())
            &&& (planned[k].output_index is Some <==> planned[k].spec.direction.spec_is_output())
            &&& (planned[k].input_index matches Some(i) ==> i < plan.spec_input_count())
            &&& (planned[k].output_index matches Some(o) ==> o < plan.spec_output_count())
        }
    &&& forall|k: int, j: int|
        0 <= k < j < planned.len() && (#[trigger] planned[k]).output_index is Some && (
        #[trigger] planned[j]).output_index is Some ==> planned[k].output_index->0
            < planned[j].output_index->0
    &&& forall|r: int|
        0 <= r < plan.spec_contract().outputs@.len() ==> rule_error(plan.spec_contract(), spec, r)
            is None
    &&& forall|e: int|
        0 <= e < plan.spec_contract().resource_effects@.len() ==> !effect_invalid(
            plan.spec_contract(),
            spec,
            e,
        )
}

proof fn lemma_plan_facts(plan: CallPlan)
    requires
        plan.wf(),
    ensures
        plan_facts(plan),
{
    let spec = plan.spec_source();
    let params = spec.parameters@;
    let planned = plan.spec_parameters();
    lemma_parameters_valid(spec, params.len());
    lemma_rules_valid(plan.spec_contract(), spec, plan.spec_contract().outputs@.len());
    assert(numbered(params, planned));
    assert forall|k: int| 0 <= k <= params.len() implies #[trigger] count_inputs(params, k as nat) <= k
        && count_outputs(params, k as nat) <= k by {
        lemma_count_bounded(params, k as nat);
    }
    assert forall|k: int| 0 <= k < planned.len() implies {
        &&& ((#[trigger] planned[k]).input_index matches Some(i) ==> i < plan.spec_input_count())
        &&& (planned[k].output_index matches Some(o) ==> o < plan.spec_output_count())
    } by {
        if params[k].direction.spec_is_input() {
            lemma_count_inputs_step(params, k as nat, params.len());
        }
        if params[k].direction.spec_is_output() {
            lemma_count_outputs_step(params, k as nat, params.len());
        }
    }
    assert forall|k: int, j: int|
        0 <= k < j < planned.len() && (#[trigger] planned[k]).output_index is Some && (
        #[trigger] planned[j]).output_index is Some implies planned[k].output_index->0
        < planned[j].output_index->0 by {
        lemma_count_outputs_step(params, k as nat, j as nat);
        lemma_count_bounded(params, k as nat);
        lemma_count_bounded(params, j as nat);
    }
    assert(planned.len() == spec.parameters@.len());
    assert(spec.parameter_aggregates@.len() == spec.parameters@.len());
    assert(forall|k: int|
        0 <= k < planned.len() ==> {
            &&& (#[trigger] planned[k]).spec == spec.parameters@[k]
            &&& parameter_error(spec, k) is None
            &&& (planned[k].input_index is Some <==> planned[k].spec.direction.spec_is_input())
            &&& (planned[k].output_index is Some <==> planned[k].spec.direction.spec_is_output())
        });
    assert(forall|r: int|
        0 <= r < plan.spec_contract().outputs@.len() ==> rule_error(plan.spec_contract(), spec, r)
            is None);
}

// ---------------------------------------------------------------------------
// Preparation.

/// The error of the consumption check for parameter `k`.
pub open spec fn consuming_error_at(
    plan: CallPlan,
    args: Seq<Value>,
    table: Seq<OwnedResource>,
    k: int,
) -> Option<Win32Error> {
    let p = plan.spec_parameters()[k];
    if !p.spec.consumes_resource {
        None
    } else {
        match args[p.input_index->0 as int] {
            Value::Resource(id) => if table[id.0 as int].spec_cleanup() != p.spec.resource_cleanup {
                Some(Win32Error::ConsumingCleanupMismatch)
            } else {
                None
            },
            _ => Some(Win32Error::ConsumingNeedsResource),
        }
    }
}

pub open spec fn consuming_error(plan: CallPlan, args: Seq<Value>, table: Seq<OwnedResource>, n: nat) -> Option<
    Win32Error,
>
    decreases n,
{
    if n == 0 {
        None
    } else {
        match consuming_error(plan, args, table, (n - 1) as nat) {
            Some(e) => Some(e),
            None => consuming_error_at(plan, args, table, n - 1),
        }
    }
}

/// Whether one managed resource occupies two arguments.
pub open spec fn duplicate_resources(args: Seq<Value>) -> bool {
    exists|i: int, j: int|
        0 <= i < j < args.len() && (#[trigger] args[i] matches Value::Resource(a) && (
        #[trigger] args[j]) matches Value::Resource(b) && a == b)
}

/// How a call uses the resource passed as input argument `a`.
pub open spec fn access_for(plan: CallPlan, a: usize) -> ResourceAccess {
    let planned = plan.spec_parameters();
    if exists|k: int|
        0 <= k < planned.len() && (#[trigger] planned[k]).input_index == Some(a)
            && planned[k].spec.consumes_resource {
        ResourceAccess::Consume
    } else if exists|k: int|
        0 <= k < planned.len() && (#[trigger] planned[k]).input_index == Some(a)
            && plan.spec_contract().spec_changes_resource(k as usize) {
        ResourceAccess::MutateState("file completion modes")
    } else {
        ResourceAccess::Borrow
    }
}

pub open spec fn lock_error_at(plan: CallPlan, args: Seq<Value>, table: Seq<OwnedResource>, a: int) -> Option<
    Win32Error,
> {
    match args[a] {
        Value::Resource(id) => match table[id.0 as int].spec_lock_for_call(
            access_for(plan, a as usize),
        ) {
            Err(e) => Some(e),
            Ok(_) => None,
        },
        _ => None,
    }
}

pub open spec fn lock_error(plan: CallPlan, args: Seq<Value>, table: Seq<OwnedResource>, n: nat) -> Option<
    Win32Error,
>
    decreases n,
{
    if n == 0 {
        None
    } else {
        match lock_error(plan, args, table, (n - 1) as nat) {
            Some(e) => Some(e),
            None => lock_error_at(plan, args, table, n - 1),
        }
    }
}

/// The native input storage of parameter `k`: none for outputs and
/// aggregates, the converted argument otherwise.
pub open spec fn input_slot(plan: CallPlan, args: Seq<Value>, table: Seq<OwnedResource>, k: int) -> Result<
    Option<AbiValue>,
    Win32Error,
> {
    let p = plan.spec_parameters()[k];
    if plan.spec_source().parameter_aggregates@[k] is Some {
        Ok(None)
    } else {
        match p.input_index {
            None => Ok(None),
            Some(i) => match spec_value_to_abi(
                p.spec.typ,
                args[i as int],
                p.spec.nullable,
                p.spec.resource_cleanup,
                owner_cleanup(args[i as int], table),
                owner_bits(args[i as int], table),
            ) {
                Ok(v) => Ok(Some(v)),
                Err(e) => Err(e),
            },
        }
    }
}

pub open spec fn input_storage(plan: CallPlan, args: Seq<Value>, table: Seq<OwnedResource>, n: nat) -> Result<
    Seq<Option<AbiValue>>,
    Win32Error,
>
    decreases n,
{
    if n == 0 {
        Ok(Seq::empty())
    } else {
        match input_storage(plan, args, table, (n - 1) as nat) {
            Err(e) => Err(e),
            Ok(s) => match input_slot(plan, args, table, n - 1) {
                Err(e) => Err(e),
                Ok(x) => Ok(s.push(x)),
            },
        }
    }
}

/// The initial native storage of an output parameter `k`: the converted
/// argument for in/out parameters, zero for pure outputs.
pub open spec fn output_slot(plan: CallPlan, args: Seq<Value>, table: Seq<OwnedResource>, k: int) -> Result<
    AbiValue,
    Win32Error,
> {
    let p = plan.spec_parameters()[k];
    if p.spec.direction == Direction::InOut {
        let i = p.input_index->0 as int;
        spec_value_to_abi(
            p.spec.typ,
            args[i],
            p.spec.nullable,
            p.spec.resource_cleanup,
            owner_cleanup(args[i], table),
            owner_bits(args[i], table),
        )
    } else {
        Ok(p.spec.typ.spec_abi_type().spec_default_value())
    }
}

pub open spec fn output_storage(plan: CallPlan, args: Seq<Value>, table: Seq<OwnedResource>, n: nat) -> Result<
    Seq<AbiValue>,
    Win32Error,
>
    decreases n,
{
    if n == 0 {
        Ok(Seq::empty())
    } else {
        match output_storage(plan, args, table, (n - 1) as nat) {
            Err(e) => Err(e),
            Ok(s) => if plan.spec_parameters()[n - 1].spec.direction.spec_is_output() {
                match output_slot(plan, args, table, n - 1) {
                    Err(e) => Err(e),
                    Ok(x) => Ok(s.push(x)),
                }
            } else {
                Ok(s)
            },
        }
    }
}

/// The error of the by-value aggregate argument of parameter `k`.
pub open spec fn aggregate_error_at(plan: CallPlan, args: Seq<Value>, k: int) -> Option<Win32Error> {
    let p = plan.spec_parameters()[k];
    if p.output_index is Some {
        None
    } else {
        match plan.spec_source().parameter_aggregates@[k] {
            None => None,
            Some(expected) => match args[p.input_index->0 as int] {
                Value::Aggregate { layout, pointer } => if !layout.same_as(expected) || pointer
                    == 0 {
                    Some(Win32Error::AggregateIdentityMismatch)
                } else {
                    None
                },
                _ => Some(Win32Error::AggregateArgumentMismatch),
            },
        }
    }
}

pub open spec fn aggregate_error(plan: CallPlan, args: Seq<Value>, n: nat) -> Option<Win32Error>
    decreases n,
{
    if n == 0 {
        None
    } else {
        match aggregate_error(plan, args, (n - 1) as nat) {
            Some(e) => Some(e),
            None => aggregate_error_at(plan, args, n - 1),
        }
    }
}

/// The error with which preparing a call is refused, in the order of the checks.
pub open spec fn prepare_error(plan: CallPlan, args: Seq<Value>, table: Seq<OwnedResource>) -> Option<
    Win32Error,
> {
    let n = plan.spec_parameters().len();
    if args.len() != plan.spec_input_count() {
        Some(
            Win32Error::ArgumentCount {
                dll: plan.spec_source().dll,
                entry_point: plan.spec_source().entry_point,
                expected: plan.spec_input_count(),
                received: args.len() as usize,
            },
        )
    } else if consuming_error(plan, args, table, n) is Some {
        consuming_error(plan, args, table, n)
    } else if duplicate_resources(args) {
        Some(Win32Error::DuplicateResource)
    } else if lock_error(plan, args, table, args.len()) is Some {
        lock_error(plan, args, table, args.len())
    } else if input_storage(plan, args, table, n) is Err {
        Some(input_storage(plan, args, table, n)->Err_0)
    } else if output_storage(plan, args, table, n) is Err {
        Some(output_storage(plan, args, table, n)->Err_0)
    } else {
        aggregate_error(plan, args, n)
    }
}

/// The native storage of an accepted call.
#[derive(Debug)]
pub struct PreparedCall {
    /// The native input of each parameter, in parameter order.
    pub inputs: Vec<Option<AbiValue>>,
    /// The initial storage of each output slot, in output order.
    pub outputs: Vec<AbiValue>,
    /// Zeroed storage for a by-value aggregate return.
    pub return_words: Option<Vec<u64>>,
}

/// Whether input storage has the shape that a plan gives it.
pub open spec fn inputs_shaped(plan: CallPlan, inputs: Seq<Option<AbiValue>>) -> bool {
    let planned = plan.spec_parameters();
    &&& inputs.len() == planned.len()
    &&& forall|k: int|
        0 <= k < inputs.len() ==> {
            &&& ((#[trigger] inputs[k]) is Some <==> (planned[k].input_index is Some
                && plan.spec_source().parameter_aggregates@[k] is None))
            &&& (inputs[k] matches Some(v) ==> v.abi_type() == planned[k].spec.typ.spec_abi_type())
        }
}

/// Whether output storage has the shape that a plan gives it.
pub open spec fn outputs_shaped(plan: CallPlan, outputs: Seq<AbiValue>) -> bool {
    let planned = plan.spec_parameters();
    &&& outputs.len() == plan.spec_output_count()
    &&& forall|k: int|
        0 <= k < planned.len() ==> ((#[trigger] planned[k]).output_index matches Some(o) ==> outputs[o as int].abi_type()
            == planned[k].spec.typ.spec_abi_type())
}

proof fn lemma_consuming_persists(
    plan: CallPlan,
    args: Seq<Value>,
    table: Seq<OwnedResource>,
    n: nat,
    m: nat,
)
    requires
        n <= m,
        consuming_error(plan, args, table, n) is Some,
    ensures
        consuming_error(plan, args, table, m) == consuming_error(plan, args, table, n),
    decreases m - n,
{
    if n < m {
        lemma_consuming_persists(plan, args, table, n, (m - 1) as nat);
    }
}

proof fn lemma_lock_persists(
    plan: CallPlan,
    args: Seq<Value>,
    table: Seq<OwnedResource>,
    n: nat,
    m: nat,
)
    requires
        n <= m,
        lock_error(plan, args, table, n) is Some,
    ensures
        lock_error(plan, args, table, m) == lock_error(plan, args, table, n),
    decreases m - n,
{
    if n < m {
        lemma_lock_persists(plan, args, table, n, (m - 1) as nat);
    }
}

proof fn lemma_inputs_persist(
    plan: CallPlan,
    args: Seq<Value>,
    table: Seq<OwnedResource>,
    n: nat,
    m: nat,
)
    requires
        n <= m,
        input_storage(plan, args, table, n) is Err,
    ensures
        input_storage(plan, args, table, m) == input_storage(plan, args, table, n),
    decreases m - n,
{
    if n < m {
        lemma_inputs_persist(plan, args, table, n, (m - 1) as nat);
    }
}

proof fn lemma_outputs_persist(
    plan: CallPlan,
    args: Seq<Value>,
    table: Seq<OwnedResource>,
    n: nat,
    m: nat,
)
    requires
        n <= m,
        output_storage(plan, args, table, n) is Err,
    ensures
        output_storage(plan, args, table, m) == output_storage(plan, args, table, n),
    decreases m - n,
{
    if n < m {
        lemma_outputs_persist(plan, args, table, n, (m - 1) as nat);
    }
}

proof fn lemma_aggregates_persist(plan: CallPlan, args: Seq<Value>, n: nat, m: nat)
    requires
        n <= m,
        aggregate_error(plan, args, n) is Some,
    ensures
        aggregate_error(plan, args, m) == aggregate_error(plan, args, n),
    decreases m - n,
{
    if n < m {
        lemma_aggregates_persist(plan, args, n, (m - 1) as nat);
    }
}

/// The common precondition of the preparation steps.
pub open spec fn prepare_ready(plan: CallPlan, args: Seq<Value>, table: ResourceTable) -> bool {
    &&& plan.wf()
    &&& plan_facts(plan)
    &&& table.wf()
    &&& resources_known(args, table@)
    &&& args.len() == plan.spec_input_count()
}

fn check_consumption(plan: &CallPlan, args: &Vec<Value>, table: &ResourceTable) -> (r: Result<
    (),
    Win32Error,
>)
    requires
        prepare_ready(*plan, args@, *table),
    ensures
        r is Ok <==> consuming_error(*plan, args@, table@, plan.spec_parameters().len()) is None,
        r matches Err(e) ==> consuming_error(*plan, args@, table@, plan.spec_parameters().len())
            == Some(e),
        r is Ok ==> r == Ok::<(), Win32Error>(()),
{
    let parameters = plan.parameters();
    let mut k: usize = 0;
    while k < parameters.len()
        invariant
            prepare_ready(*plan, args@, *table),
            parameters@ == plan.spec_parameters(),
            k <= parameters@.len(),
            consuming_error(*plan, args@, table@, k as nat) is None,
        decreases parameters@.len() - k,
    {
        let p = parameters[k];
        if p.spec.consumes_resource {
            let i = match p.input_index {
                Some(i) => i,
                None => {
                    assert(false);
                    0
                },
            };
            let error = match &args[i] {
                Value::Resource(id) => {
                    if table.get(*id).cleanup() != p.spec.resource_cleanup {
                        Some(Win32Error::ConsumingCleanupMismatch)
                    } else {
                        None
                    }
                },
                _ => Some(Win32Error::ConsumingNeedsResource),
            };
            match error {
                Some(e) => {
                    assert(consuming_error(*plan, args@, table@, (k + 1) as nat) == Some(e));
                    proof {
                        lemma_consuming_persists(
                            *plan,
                            args@,
                            table@,
                            (k + 1) as nat,
                            parameters@.len(),
                        );
                    }
                    return Err(e);
                },
                None => {},
            }
        }
        k = k + 1;
    }
    Ok(())
}

fn has_duplicate_resources(args: &Vec<Value>) -> (r: bool)
    ensures
        r == duplicate_resources(args@),
{
    let mut j: usize = 0;
    while j < args.len()
        invariant
            j <= args@.len(),
            forall|a: int, b: int|
                0 <= a < b < j ==> !(#[trigger] args@[a] matches Value::Resource(x) && (
                #[trigger] args@[b]) matches Value::Resource(y) && x == y),
        decreases args@.len() - j,
    {
        match &args[j] {
            Value::Resource(y) => {
                let mut i: usize = 0;
                while i < j
                    invariant
                        i <= j < args@.len(),
                        args@[j as int] == Value::Resource(*y),
                        forall|a: int|
                            0 <= a < i ==> !(#[trigger] args@[a] matches Value::Resource(x) && x
                                == *y),
                    decreases j - i,
                {
                    match &args[i] {
                        Value::Resource(x) => {
                            if x.0 == y.0 {
                                assert(args@[i as int] matches Value::Resource(x) && args@[j as int] matches Value::Resource(y) && x == y);
                                return true;
                            }
                        },
                        _ => {},
                    }
                    i = i + 1;
                }
            },
            _ => {},
        }
        j = j + 1;
    }
    false
}

fn access_of(plan: &CallPlan, a: usize) -> (r: ResourceAccess)
    ensures
        r == access_for(*plan, a),
{
    let parameters = plan.parameters();
    let mut k: usize = 0;
    while k < parameters.len()
        invariant
            parameters@ == plan.spec_parameters(),
            k <= parameters@.len(),
            forall|j: int|
                0 <= j < k ==> !((#[trigger] parameters@[j]).input_index == Some(a)
                    && parameters@[j].spec.consumes_resource),
        decreases parameters@.len() - k,
    {
        if parameters[k].input_index == Some(a) && parameters[k].spec.consumes_resource {
            assert(parameters@[k as int].input_index == Some(a) && parameters@[k as int].spec.consumes_resource);
            return ResourceAccess::Consume;
        }
        k = k + 1;
    }
    let contract = plan.contract();
    let mut k: usize = 0;
    while k < parameters.len()
        invariant
            parameters@ == plan.spec_parameters(),
            *contract == plan.spec_contract(),
            k <= parameters@.len(),
            forall|j: int|
                0 <= j < parameters@.len() ==> !((#[trigger] parameters@[j]).input_index == Some(a)
                    && parameters@[j].spec.consumes_resource),
            forall|j: int|
                0 <= j < k ==> !((#[trigger] parameters@[j]).input_index == Some(a)
                    && contract.spec_changes_resource(j as usize)),
        decreases parameters@.len() - k,
    {
        if parameters[k].input_index == Some(a) && contract.changes_resource(k) {
            assert(parameters@[k as int].input_index == Some(a) && contract.spec_changes_resource(k));
            return ResourceAccess::MutateState("file completion modes");
        }
        k = k + 1;
    }
    ResourceAccess::Borrow
}

fn check_locks(plan: &CallPlan, args: &Vec<Value>, table: &ResourceTable) -> (r: Result<
    (),
    Win32Error,
>)
    requires
        prepare_ready(*plan, args@, *table),
    ensures
        r is Ok <==> lock_error(*plan, args@, table@, args@.len()) is None,
        r matches Err(e) ==> lock_error(*plan, args@, table@, args@.len()) == Some(e),
        r is Ok ==> r == Ok::<(), Win32Error>(()),
{
    let mut a: usize = 0;
    while a < args.len()
        invariant
            prepare_ready(*plan, args@, *table),
            a <= args@.len(),
            lock_error(*plan, args@, table@, a as nat) is None,
        decreases args@.len() - a,
    {
        match &args[a] {
            Value::Resource(id) => {
                let access = access_of(plan, a);
                match table.get(*id).lock_for_call(access) {
                    Err(e) => {
                        assert(lock_error(*plan, args@, table@, (a + 1) as nat) == Some(e));
                        proof {
                            lemma_lock_persists(*plan, args@, table@, (a + 1) as nat, args@.len());
                        }
                        return Err(e);
                    },
                    Ok(_) => {},
                }
            },
            _ => {},
        }
        a = a + 1;
    }
    Ok(())
}

fn owner_of(value: &Value, table: &ResourceTable) -> (r: (Cleanup, Option<usize>))
    requires
        table.wf(),
        value matches Value::Resource(id) ==> id.0 < table@.len(),
    ensures
        r.0 == owner_cleanup(*value, table@),
        r.1 == owner_bits(*value, table@),
{
    match value {
        Value::Resource(id) => {
            let owner = table.get(*id);
            (owner.cleanup(), Some(owner.raw()))
        },
        _ => (Cleanup::NotOwned, None),
    }
}

fn build_inputs(plan: &CallPlan, args: &Vec<Value>, table: &ResourceTable) -> (r: Result<
    Vec<Option<AbiValue>>,
    Win32Error,
>)
    requires
        prepare_ready(*plan, args@, *table),
    ensures
        r is Ok <==> input_storage(*plan, args@, table@, plan.spec_parameters().len()) is Ok,
        r matches Err(e) ==> input_storage(*plan, args@, table@, plan.spec_parameters().len())
            == Err::<Seq<Option<AbiValue>>, Win32Error>(e),
        r matches Ok(v) ==> input_storage(*plan, args@, table@, plan.spec_parameters().len())
            == Ok::<Seq<Option<AbiValue>>, Win32Error>(v@) && inputs_shaped(*plan, v@),
{
    let parameters = plan.parameters();
    let aggregates = &plan.source().parameter_aggregates;
    let mut inputs: Vec<Option<AbiValue>> = Vec::new();
    let mut k: usize = 0;
    while k < parameters.len()
        invariant
            prepare_ready(*plan, args@, *table),
            parameters@ == plan.spec_parameters(),
            *aggregates == plan.spec_source().parameter_aggregates,
            k <= parameters@.len(),
            input_storage(*plan, args@, table@, k as nat) == Ok::<
                Seq<Option<AbiValue>>,
                Win32Error,
            >(inputs@),
            inputs@.len() == k,
            forall|j: int|
                0 <= j < k ==> {
                    &&& ((#[trigger] inputs@[j]) is Some <==> (parameters@[j].input_index is Some
                        && aggregates@[j] is None))
                    &&& (inputs@[j] matches Some(v) ==> v.abi_type()
                        == parameters@[j].spec.typ.spec_abi_type())
                },
        decreases parameters@.len() - k,
    {
        let p = parameters[k];
        let slot: Option<AbiValue> = if aggregates[k].is_some() {
            None
        } else {
            match p.input_index {
                None => None,
                Some(i) => {
                    let (cleanup, bits) = owner_of(&args[i], table);
                    match value_to_abi(
                        p.spec.typ,
                        &args[i],
                        p.spec.nullable,
                        p.spec.resource_cleanup,
                        cleanup,
                        bits,
                    ) {
                        Ok(v) => Some(v),
                        Err(e) => {
                            assert(input_storage(*plan, args@, table@, (k + 1) as nat) == Err::<
                                Seq<Option<AbiValue>>,
                                Win32Error,
                            >(e));
                            proof {
                                lemma_inputs_persist(
                                    *plan,
                                    args@,
                                    table@,
                                    (k + 1) as nat,
                                    parameters@.len(),
                                );
                            }
                            return Err(e);
                        },
                    }
                },
            }
        };
        inputs.push(slot);
        k = k + 1;
    }
    Ok(inputs)
}

fn build_outputs(plan: &CallPlan, args: &Vec<Value>, table: &ResourceTable) -> (r: Result<
    Vec<AbiValue>,
    Win32Error,
>)
    requires
        prepare_ready(*plan, args@, *table),
    ensures
        r is Ok <==> output_storage(*plan, args@, table@, plan.spec_parameters().len()) is Ok,
        r matches Err(e) ==> output_storage(*plan, args@, table@, plan.spec_parameters().len())
            == Err::<Seq<AbiValue>, Win32Error>(e),
        r matches Ok(v) ==> output_storage(*plan, args@, table@, plan.spec_parameters().len())
            == Ok::<Seq<AbiValue>, Win32Error>(v@) && outputs_shaped(*plan, v@),
{
    let parameters = plan.parameters();
    let mut outputs: Vec<AbiValue> = Vec::new();
    let mut k: usize = 0;
    while k < parameters.len()
        invariant
            prepare_ready(*plan, args@, *table),
            parameters@ == plan.spec_parameters(),
            k <= parameters@.len(),
            output_storage(*plan, args@, table@, k as nat) == Ok::<Seq<AbiValue>, Win32Error>(
                outputs@,
            ),
            outputs@.len() == count_outputs(plan.spec_source().parameters@, k as nat),
            forall|j: int|
                0 <= j < k ==> ((#[trigger] parameters@[j]).output_index matches Some(o)
                    ==> outputs@[o as int].abi_type() == parameters@[j].spec.typ.spec_abi_type()),
        decreases parameters@.len() - k,
    {
        let p = parameters[k];
        if p.spec.direction.is_output() {
            let slot = if p.spec.direction == Direction::InOut {
                let i = match p.input_index {
                    Some(i) => i,
                    None => {
                        assert(false);
                        0
                    },
                };
                let (cleanup, bits) = owner_of(&args[i], table);
                match value_to_abi(
                    p.spec.typ,
                    &args[i],
                    p.spec.nullable,
                    p.spec.resource_cleanup,
                    cleanup,
                    bits,
                ) {
                    Ok(v) => v,
                    Err(e) => {
                        assert(output_storage(*plan, args@, table@, (k + 1) as nat) == Err::<
                            Seq<AbiValue>,
                            Win32Error,
                        >(e));
                        proof {
                            lemma_outputs_persist(
                                *plan,
                                args@,
                                table@,
                                (k + 1) as nat,
                                parameters@.len(),
                            );
                        }
                        return Err(e);
                    },
                }
            } else {
                p.spec.typ.default_abi_value()
            };
            let ghost before = outputs@;
            outputs.push(slot);
            proof {
                let params = plan.spec_source().parameters@;
                assert(parameters@[k as int].output_index == Some(
                    count_outputs(params, k as nat) as usize,
                ));
                lemma_count_bounded(params, k as nat);
                assert forall|j: int|
                    0 <= j < k + 1 && (#[trigger] parameters@[j]).output_index is Some implies outputs@[parameters@[j].output_index->0 as int].abi_type()
                        == parameters@[j].spec.typ.spec_abi_type() by {
                    if j < k {
                        assert(parameters@[j].output_index->0 < parameters@[k as int].output_index->0);
                        assert(outputs@[parameters@[j].output_index->0 as int] == before[parameters@[j].output_index->0 as int]);
                    }
                }
            }
        }
        k = k + 1;
    }
    Ok(outputs)
}

fn check_aggregates(plan: &CallPlan, args: &Vec<Value>, table: &ResourceTable) -> (r: Result<
    (),
    Win32Error,
>)
    requires
        prepare_ready(*plan, args@, *table),
    ensures
        r is Ok <==> aggregate_error(*plan, args@, plan.spec_parameters().len()) is None,
        r matches Err(e) ==> aggregate_error(*plan, args@, plan.spec_parameters().len()) == Some(
            e,
        ),
        r is Ok ==> r == Ok::<(), Win32Error>(()),
{
    let parameters = plan.parameters();
    let aggregates = &plan.source().parameter_aggregates;
    let mut k: usize = 0;
    while k < parameters.len()
        invariant
            prepare_ready(*plan, args@, *table),
            parameters@ == plan.spec_parameters(),
            *aggregates == plan.spec_source().parameter_aggregates,
            k <= parameters@.len(),
            aggregate_error(*plan, args@, k as nat) is None,
        decreases parameters@.len() - k,
    {
        let p = parameters[k];
        if p.output_index.is_none() {
            match &aggregates[k] {
                Some(expected) => {
                    let i = match p.input_index {
                        Some(i) => i,
                        None => {
                            assert(false);
                            0
                        },
                    };
                    let error = match &args[i] {
                        Value::Aggregate { layout, pointer } => {
                            if !layout.same_layout(expected) || *pointer == 0 {
                                Some(Win32Error::AggregateIdentityMismatch)
                            } else {
                                None
                            }
                        },
                        _ => Some(Win32Error::AggregateArgumentMismatch),
                    };
                    match error {
                        Some(e) => {
                            assert(aggregate_error(*plan, args@, (k + 1) as nat) == Some(e));
                            proof {
                                lemma_aggregates_persist(
                                    *plan,
                                    args@,
                                    (k + 1) as nat,
                                    parameters@.len(),
                                );
                            }
                            return Err(e);
                        },
                        None => {},
                    }
                },
                None => {},
            }
        }
        k = k + 1;
    }
    Ok(())
}

impl CallPlan {
    /// Checks a call's arguments against the plan, locks their managed
    /// resources for the call and builds its native storage, before anything
    /// is dispatched.
    pub fn prepare_call(&self, args: &Vec<Value>, table: &ResourceTable) -> (r: Result<
        PreparedCall,
        Win32Error,
    >)
        requires
            self.wf(),
            table.wf(),
            resources_known(args@, table@),
        ensures
            r is Ok <==> prepare_error(*self, args@, table@) is None,
            r matches Err(e) ==> prepare_error(*self, args@, table@) == Some(e),
            r matches Ok(prepared) ==> {
                &&& input_storage(*self, args@, table@, self.spec_parameters().len()) == Ok::<
                    Seq<Option<AbiValue>>,
                    Win32Error,
                >(prepared.inputs@)
                &&& output_storage(*self, args@, table@, self.spec_parameters().len()) == Ok::<
                    Seq<AbiValue>,
                    Win32Error,
                >(prepared.outputs@)
                &&& inputs_shaped(*self, prepared.inputs@)
                &&& outputs_shaped(*self, prepared.outputs@)
                &&& match self.spec_source().return_aggregate {
                    Some(layout) => prepared.return_words matches Some(words) && words@.len()
                        == spec_word_count(layout.spec_size()) && forall|i: int|
                        0 <= i < words@.len() ==> words@[i] == 0,
                    None => prepared.return_words is None,
                }
            },
    {
        proof {
            lemma_plan_facts(*self);
        }
        if args.len() != self.input_count() {
            let (dll, entry_point) = self.export_names();
            return Err(
                Win32Error::ArgumentCount {
                    dll,
                    entry_point,
                    expected: self.input_count(),
                    received: args.len(),
                },
            );
        }
        match check_consumption(self, args, table) {
            Err(e) => {
                return Err(e);
            },
            Ok(()) => {},
        }
        if has_duplicate_resources(args) {
            return Err(Win32Error::DuplicateResource);
        }
        match check_locks(self, args, table) {
            Err(e) => {
                return Err(e);
            },
            Ok(()) => {},
        }
        let inputs = match build_inputs(self, args, table) {
            Err(e) => {
                return Err(e);
            },
            Ok(inputs) => inputs,
        };
        let outputs = match build_outputs(self, args, table) {
            Err(e) => {
                return Err(e);
            },
            Ok(outputs) => outputs,
        };
        match check_aggregates(self, args, table) {
            Err(e) => {
                return Err(e);
            },
            Ok(()) => {},
        }
        let return_words = match &self.source().return_aggregate {
            Some(layout) => Some(try_zeroed_words(layout.size())),
            None => None,
        };
        Ok(PreparedCall { inputs, outputs, return_words })
    }
}

// ---------------------------------------------------------------------------
// Completion.

/// What the native call produced: its direct return (none for void and
/// aggregate returns), the bytes of an aggregate return, the final storage of
/// each output slot, and the thread's last error read right after the call.
#[derive(Debug)]
pub struct NativeResult {
    pub return_value: Option<AbiValue>,
    pub return_bytes: Vec<u8>,
    pub outputs: Vec<AbiValue>,
    pub last_error: Option<u32>,
}

/// A native release that must follow a call.
#[derive(Clone, Copy, Debug, PartialEq, Eq, Structural)]
pub struct Release {
    pub value: usize,
    pub cleanup: Cleanup,
}

/// The result of a flat Win32 call.
#[derive(Debug)]
pub struct CallResult {
    pub return_value: Option<Value>,
    pub outputs: Vec<Value>,
    pub last_error: Option<u32>,
    pub succeeded: bool,
}

/// The outcome of completing a call: the result, the native releases that
/// must be performed now, in order, and whether a failed release decides the
/// result (see [`CallPlan::settle`]).
#[derive(Debug)]
pub struct Completion {
    pub result: Result<CallResult, Win32Error>,
    pub releases: Vec<Release>,
    pub report_releases: bool,
}

/// Whether a native result has the shapes that the plan gives it.
pub open spec fn native_shaped(plan: CallPlan, native: NativeResult) -> bool {
    let spec = plan.spec_source();
    &&& outputs_shaped(plan, native.outputs@)
    &&& (native.last_error is Some <==> spec.capture_last_error)
    &&& match spec.return_aggregate {
        Some(layout) => native.return_value is None && native.return_bytes@.len()
            == layout.spec_size(),
        None => match spec.return_type {
            Some(typ) => native.return_value matches Some(v) && v.abi_type()
                == typ.spec_abi_type(),
            None => native.return_value is None,
        },
    }
}

/// Whether output rule `r` applies: its input condition held before the call
/// and its return condition, if any, holds of the returned bits.
pub open spec fn rule_applies(
    plan: CallPlan,
    conditions: Seq<bool>,
    raw_return: Option<AbiValue>,
    r: int,
) -> bool {
    &&& conditions[r]
    &&& match plan.spec_contract().outputs@[r].when.return_value {
        None => true,
        Some(expected) => raw_return matches Some(v) && spec_abi_bits(v) == Some(expected),
    }
}

/// The action that the applying rules among the first `n` give output slot `o`.
pub open spec fn action_after(
    plan: CallPlan,
    conditions: Seq<bool>,
    raw_return: Option<AbiValue>,
    n: nat,
    o: usize,
) -> Option<OutputAction>
    decreases n,
{
    if n == 0 {
        None
    } else {
        let rule = plan.spec_contract().outputs@[n - 1];
        if rule_applies(plan, conditions, raw_return, n - 1)
            && plan.spec_parameters()[rule.parameter as int].output_index == Some(o) {
            Some(rule.action)
        } else {
            action_after(plan, conditions, raw_return, (n - 1) as nat, o)
        }
    }
}

pub open spec fn slot_action(
    plan: CallPlan,
    conditions: Seq<bool>,
    raw_return: Option<AbiValue>,
    o: usize,
) -> Option<OutputAction> {
    action_after(plan, conditions, raw_return, plan.spec_contract().outputs@.len(), o)
}

/// What the output of parameter `k` becomes.
pub open spec fn slot_decoded(
    plan: CallPlan,
    args: Seq<Value>,
    inputs: Seq<Option<AbiValue>>,
    native: NativeResult,
    conditions: Seq<bool>,
    succeeded: bool,
    k: int,
) -> Result<crate::win32_convert::Decoded, Win32Error> {
    let p = plan.spec_parameters()[k];
    let o = p.output_index->0;
    match slot_action(plan, conditions, native.return_value, o) {
        Some(OutputAction::Unavailable) => Ok(Decoded::Plain(Value::Unavailable)),
        Some(OutputAction::AliasInput { parameter }) => if !succeeded {
            Ok(Decoded::Plain(Value::Handle(0)))
        } else {
            let expected = spec_abi_bits(inputs[parameter as int]->0);
            if spec_abi_bits(native.outputs@[o as int]) != expected {
                Err(Win32Error::AliasOutputMismatch)
            } else {
                Ok(
                    Decoded::Plain(
                        match args[plan.spec_parameters()[parameter as int].input_index->0 as int] {
                            Value::Resource(id) => Value::Resource(id),
                            _ => Value::Handle(expected->0 as usize),
                        },
                    ),
                )
            }
        },
        None => spec_finalize_value(p.spec.typ, native.outputs@[o as int], p.spec.cleanup, succeeded, true),
    }
}

/// The decoded output slots of the first `n` parameters, or the parameter
/// whose output could not be decoded and why.
pub open spec fn decoded_slots(
    plan: CallPlan,
    args: Seq<Value>,
    inputs: Seq<Option<AbiValue>>,
    native: NativeResult,
    conditions: Seq<bool>,
    succeeded: bool,
    n: nat,
) -> Result<Seq<Decoded>, (nat, Win32Error)>
    decreases n,
{
    if n == 0 {
        Ok(Seq::empty())
    } else {
        match decoded_slots(plan, args, inputs, native, conditions, succeeded, (n - 1) as nat) {
            Err(failure) => Err(failure),
            Ok(s) => if plan.spec_parameters()[n - 1].output_index is Some {
                match slot_decoded(plan, args, inputs, native, conditions, succeeded, n - 1) {
                    Err(e) => Err(((n - 1) as nat, e)),
                    Ok(d) => Ok(s.push(d)),
                }
            } else {
                Ok(s)
            },
        }
    }
}

/// The owners once the successful call's resource effects are applied.
pub open spec fn effects_applied(
    plan: CallPlan,
    args: Seq<Value>,
    inputs: Seq<Option<AbiValue>>,
    table: Seq<OwnedResource>,
    n: nat,
) -> Seq<OwnedResource>
    decreases n,
{
    if n == 0 {
        table
    } else {
        let t = effects_applied(plan, args, inputs, table, (n - 1) as nat);
        match plan.spec_contract().resource_effects@[n - 1] {
            ResourceEffect::AddFileCompletionModes { handle_parameter, flags_parameter } => {
                let a = plan.spec_parameters()[handle_parameter as int].input_index->0;
                match args[a as int] {
                    Value::Resource(id) => match inputs[flags_parameter as int] {
                        Some(AbiValue::U8(flags)) => t.update(
                            id.0 as int,
                            t[id.0 as int].spec_with_recorded_modes(flags as u32),
                        ),
                        _ => t,
                    },
                    _ => t,
                }
            },
        }
    }
}

/// The owners once the successful call's consumed resources are marked closed.
pub open spec fn consumption_applied(
    plan: CallPlan,
    args: Seq<Value>,
    table: Seq<OwnedResource>,
    n: nat,
) -> Seq<OwnedResource>
    decreases n,
{
    if n == 0 {
        table
    } else {
        let t = consumption_applied(plan, args, table, (n - 1) as nat);
        let p = plan.spec_parameters()[n - 1];
        if p.spec.consumes_resource {
            match args[p.input_index->0 as int] {
                Value::Resource(id) => t.update(id.0 as int, t[id.0 as int].spec_consumed()),
                _ => t,
            }
        } else {
            t
        }
    }
}

/// The owners after the native call: effects and consumption take place
/// only when the call succeeded.
pub open spec fn committed_table(
    plan: CallPlan,
    args: Seq<Value>,
    inputs: Seq<Option<AbiValue>>,
    table: Seq<OwnedResource>,
    succeeded: bool,
) -> Seq<OwnedResource> {
    if succeeded {
        consumption_applied(
            plan,
            args,
            effects_applied(plan, args, inputs, table, plan.spec_contract().resource_effects@.len()),
            plan.spec_parameters().len(),
        )
    } else {
        table
    }
}

/// What the direct (non-aggregate) return becomes.
pub open spec fn return_decoded(plan: CallPlan, native: NativeResult, succeeded: bool) -> Option<
    Decoded,
> {
    let spec = plan.spec_source();
    match (spec.return_type, native.return_value) {
        (Some(typ), Some(v)) => match spec_finalize_value(
            typ,
            v,
            spec.return_cleanup,
            succeeded,
            false,
        ) {
            Ok(d) => Some(d),
            Err(_) => None,
        },
        _ => None,
    }
}

/// The releases of the owned results of a failed call, in slot order.
pub open spec fn failure_releases(slots: Seq<Decoded>) -> Seq<Release>
    decreases slots.len(),
{
    if slots.len() == 0 {
        Seq::empty()
    } else {
        let rest = failure_releases(slots.drop_last());
        match slots.last() {
            Decoded::Release { value, cleanup } => rest.push(Release { value, cleanup }),
            _ => rest,
        }
    }
}

/// The releases of results adopted before a later failure, in slot order.
pub open spec fn adopted_releases(slots: Seq<Decoded>) -> Seq<Release>
    decreases slots.len(),
{
    if slots.len() == 0 {
        Seq::empty()
    } else {
        let rest = adopted_releases(slots.drop_last());
        match slots.last() {
            Decoded::Adopt { value, cleanup } => rest.push(Release { value, cleanup }),
            _ => rest,
        }
    }
}

/// The address bits of a pointer-shaped storage value.
pub open spec fn pointer_bits(value: AbiValue) -> usize {
    match value {
        AbiValue::Pointer(bits) => bits,
        _ => 0,
    }
}

/// The release still owed for the output of parameter `k` when decoding stops
/// before reaching it: owned slots without an action are released.
pub open spec fn pending_release(
    plan: CallPlan,
    native: NativeResult,
    conditions: Seq<bool>,
    k: int,
) -> Option<Release> {
    let p = plan.spec_parameters()[k];
    match p.output_index {
        None => None,
        Some(o) => {
            let bits = pointer_bits(native.outputs@[o as int]);
            if slot_action(plan, conditions, native.return_value, o) is None
                && p.spec.cleanup.spec_needs_release(bits) {
                Some(Release { value: bits, cleanup: p.spec.cleanup })
            } else {
                None
            }
        },
    }
}

/// The pending releases of parameters `from..n`, in parameter order.
pub open spec fn pending_releases(
    plan: CallPlan,
    native: NativeResult,
    conditions: Seq<bool>,
    from: nat,
    n: nat,
) -> Seq<Release>
    decreases n,
{
    if n <= from {
        Seq::empty()
    } else {
        let rest = pending_releases(plan, native, conditions, from, (n - 1) as nat);
        match pending_release(plan, native, conditions, n - 1) {
            Some(release) => rest.push(release),
            None => rest,
        }
    }
}

/// The number of adopted results among the first `i` decoded slots.
pub open spec fn adopt_count(slots: Seq<Decoded>, i: nat) -> nat
    decreases i,
{
    if i == 0 {
        0
    } else {
        adopt_count(slots, (i - 1) as nat) + if slots[i - 1] is Adopt {
            1nat
        } else {
            0nat
        }
    }
}

/// The value that a decoded result becomes when adoptions receive identities
/// starting at `next`.
pub open spec fn materialized(d: Decoded, next: usize) -> Value {
    match d {
        Decoded::Plain(v) => v,
        Decoded::Release { .. } => Value::Handle(0),
        Decoded::Adopt { .. } => Value::Resource(ResourceId(next)),
    }
}

use crate::win32_convert::{spec_finalize_value, spec_success_matches, finalize_value, success_matches, Decoded};

proof fn lemma_finalize_total(
    typ: Type,
    value: AbiValue,
    cleanup: Cleanup,
    succeeded: bool,
    cleanup_on_failure: bool,
)
    requires
        value.abi_type() == typ.spec_abi_type(),
        cleanup.spec_owns_resource() ==> typ.spec_is_pointer_like(),
    ensures
        spec_finalize_value(typ, value, cleanup, succeeded, cleanup_on_failure) is Ok,
        !succeeded ==> !(spec_finalize_value(typ, value, cleanup, succeeded, cleanup_on_failure)->Ok_0 is Adopt),
        succeeded ==> !(spec_finalize_value(typ, value, cleanup, succeeded, cleanup_on_failure)->Ok_0 is Release),
        !cleanup_on_failure ==> !(spec_finalize_value(typ, value, cleanup, succeeded, cleanup_on_failure)->Ok_0 is Release),
{
}

proof fn lemma_alias_facts(
    plan: CallPlan,
    conditions: Seq<bool>,
    raw_return: Option<AbiValue>,
    n: nat,
    o: usize,
    p: usize,
)
    requires
        plan_facts(plan),
        n <= plan.spec_contract().outputs@.len(),
        action_after(plan, conditions, raw_return, n, o) == Some(
            OutputAction::AliasInput { parameter: p },
        ),
    ensures
        p < plan.spec_parameters().len(),
        plan.spec_parameters()[p as int].spec.typ == Type::Handle,
        plan.spec_parameters()[p as int].spec.direction == Direction::In,
    decreases n,
{
    let rule = plan.spec_contract().outputs@[n - 1];
    if rule_applies(plan, conditions, raw_return, n - 1)
        && plan.spec_parameters()[rule.parameter as int].output_index == Some(o) {
        assert(rule_error(plan.spec_contract(), plan.spec_source(), n - 1) is None);
        assert(plan.spec_parameters()[rule.parameter as int].spec == plan.spec_source().parameters@[rule.parameter as int]);
    } else {
        lemma_alias_facts(plan, conditions, raw_return, (n - 1) as nat, o, p);
    }
}

proof fn lemma_action_slot(
    plan: CallPlan,
    conditions: Seq<bool>,
    raw_return: Option<AbiValue>,
    n: nat,
    o: usize,
)
    requires
        plan_facts(plan),
        n <= plan.spec_contract().outputs@.len(),
        action_after(plan, conditions, raw_return, n, o) is Some,
    ensures
        o < plan.spec_output_count(),
    decreases n,
{
    let rule = plan.spec_contract().outputs@[n - 1];
    if rule_applies(plan, conditions, raw_return, n - 1)
        && plan.spec_parameters()[rule.parameter as int].output_index == Some(o) {
        assert(rule_error(plan.spec_contract(), plan.spec_source(), n - 1) is None);
    } else {
        lemma_action_slot(plan, conditions, raw_return, (n - 1) as nat, o);
    }
}

fn select_actions(plan: &CallPlan, conditions: &Vec<bool>, raw_return: &Option<AbiValue>) -> (r:
    Vec<Option<OutputAction>>)
    requires
        plan.wf(),
        plan_facts(*plan),
        conditions@.len() == plan.spec_contract().outputs@.len(),
    ensures
        r@.len() == plan.spec_output_count(),
        forall|o: int|
            0 <= o < r@.len() ==> #[trigger] r@[o] == slot_action(*plan, conditions@, *raw_return, o as usize),
{
    let mut actions: Vec<Option<OutputAction>> = Vec::new();
    let mut o: usize = 0;
    while o < plan.output_count()
        invariant
            o <= plan.spec_output_count(),
            actions@.len() == o,
            forall|j: int| 0 <= j < o ==> #[trigger] actions@[j] == None::<OutputAction>,
        decreases plan.spec_output_count() - o,
    {
        actions.push(None);
        o = o + 1;
    }
    let rules = &plan.contract().outputs;
    let parameters = plan.parameters();
    let mut r: usize = 0;
    while r < rules.len()
        invariant
            plan.wf(),
            plan_facts(*plan),
            *rules == plan.spec_contract().outputs,
            parameters@ == plan.spec_parameters(),
            conditions@.len() == rules@.len(),
            r <= rules@.len(),
            actions@.len() == plan.spec_output_count(),
            forall|j: int|
                0 <= j < actions@.len() ==> #[trigger] actions@[j] == action_after(
                    *plan,
                    conditions@,
                    *raw_return,
                    r as nat,
                    j as usize,
                ),
        decreases rules@.len() - r,
    {
        let rule = &rules[r];
        let applies = conditions[r] && match rule.when.return_value {
            None => true,
            Some(expected) => match raw_return {
                Some(v) => match abi_bits(v) {
                    Some(bits) => bits == expected,
                    None => false,
                },
                None => false,
            },
        };
        assert(applies == rule_applies(*plan, conditions@, *raw_return, r as int));
        if applies {
            assert(rule_error(plan.spec_contract(), plan.spec_source(), r as int) is None);
            let o = match parameters[rule.parameter].output_index {
                Some(o) => o,
                None => {
                    assert(false);
                    0
                },
            };
            actions.set(o, Some(rule.action));
        }
        r = r + 1;
    }
    actions
}

fn apply_effects(
    plan: &CallPlan,
    args: &Vec<Value>,
    inputs: &Vec<Option<AbiValue>>,
    table: &mut ResourceTable,
)
    requires
        plan.wf(),
        plan_facts(*plan),
        old(table).wf(),
        resources_known(args@, old(table)@),
        args@.len() == plan.spec_input_count(),
        inputs_shaped(*plan, inputs@),
    ensures
        final(table).wf(),
        final(table)@.len() == old(table)@.len(),
        final(table)@ == effects_applied(
            *plan,
            args@,
            inputs@,
            old(table)@,
            plan.spec_contract().resource_effects@.len(),
        ),
{
    let effects = &plan.contract().resource_effects;
    let parameters = plan.parameters();
    let mut e: usize = 0;
    while e < effects.len()
        invariant
            plan.wf(),
            plan_facts(*plan),
            *effects == plan.spec_contract().resource_effects,
            parameters@ == plan.spec_parameters(),
            args@.len() == plan.spec_input_count(),
            inputs_shaped(*plan, inputs@),
            e <= effects@.len(),
            table.wf(),
            table@.len() == old(table)@.len(),
            resources_known(args@, table@),
            table@ == effects_applied(*plan, args@, inputs@, old(table)@, e as nat),
        decreases effects@.len() - e,
    {
        let ResourceEffect::AddFileCompletionModes { handle_parameter, flags_parameter } =
            effects[e];
        assert(!effect_invalid(plan.spec_contract(), plan.spec_source(), e as int));
        let a = match parameters[handle_parameter].input_index {
            Some(a) => a,
            None => {
                assert(false);
                0
            },
        };
        match &args[a] {
            Value::Resource(id) => {
                match &inputs[flags_parameter] {
                    Some(AbiValue::U8(flags)) => {
                        let mut owner = table.get(*id);
                        proof {
                            owner.lemma_updates_keep_identity(*flags as u32);
                        }
                        owner.record_completion_modes(*flags as u32);
                        table.set(*id, owner);
                    },
                    _ => {},
                }
            },
            _ => {},
        }
        e = e + 1;
    }
}

fn apply_consumption(plan: &CallPlan, args: &Vec<Value>, table: &mut ResourceTable)
    requires
        plan.wf(),
        plan_facts(*plan),
        old(table).wf(),
        resources_known(args@, old(table)@),
        args@.len() == plan.spec_input_count(),
    ensures
        final(table).wf(),
        final(table)@.len() == old(table)@.len(),
        final(table)@ == consumption_applied(*plan, args@, old(table)@, plan.spec_parameters().len()),
{
    let parameters = plan.parameters();
    let mut k: usize = 0;
    while k < parameters.len()
        invariant
            plan.wf(),
            plan_facts(*plan),
            parameters@ == plan.spec_parameters(),
            args@.len() == plan.spec_input_count(),
            k <= parameters@.len(),
            table.wf(),
            table@.len() == old(table)@.len(),
            resources_known(args@, table@),
            table@ == consumption_applied(*plan, args@, old(table)@, k as nat),
        decreases parameters@.len() - k,
    {
        let p = parameters[k];
        if p.spec.consumes_resource {
            let a = match p.input_index {
                Some(a) => a,
                None => {
                    assert(false);
                    0
                },
            };
            match &args[a] {
                Value::Resource(id) => {
                    let mut owner = table.get(*id);
                    proof {
                        owner.lemma_updates_keep_identity(0);
                    }
                    owner.commit_consumption();
                    table.set(*id, owner);
                },
                _ => {},
            }
        }
        k = k + 1;
    }
}

fn copy_bytes(bytes: &Vec<u8>) -> (r: Vec<u8>)
    ensures
        r@ == bytes@,
{
    let mut copy: Vec<u8> = Vec::new();
    let mut i: usize = 0;
    while i < bytes.len()
        invariant
            i <= bytes@.len(),
            copy@ == bytes@.subrange(0, i as int),
        decreases bytes@.len() - i,
    {
        copy.push(bytes[i]);
        i = i + 1;
    }
    assert(copy@ =~= bytes@);
    copy
}

fn collect_pending(
    plan: &CallPlan,
    native: &NativeResult,
    conditions: Ghost<Seq<bool>>,
    actions: &Vec<Option<OutputAction>>,
    from: usize,
) -> (r: Vec<Release>)
    requires
        plan.wf(),
        plan_facts(*plan),
        outputs_shaped(*plan, native.outputs@),
        actions@.len() == plan.spec_output_count(),
        forall|o: int|
            0 <= o < actions@.len() ==> #[trigger] actions@[o] == slot_action(
                *plan,
                conditions@,
                native.return_value,
                o as usize,
            ),
        from <= plan.spec_parameters().len(),
    ensures
        r@ == pending_releases(*plan, *native, conditions@, from as nat, plan.spec_parameters().len()),
{
    let parameters = plan.parameters();
    let mut releases: Vec<Release> = Vec::new();
    let mut k: usize = from;
    assert(releases@ =~= pending_releases(*plan, *native, conditions@, from as nat, from as nat));
    while k < parameters.len()
        invariant
            plan_facts(*plan),
            parameters@ == plan.spec_parameters(),
            outputs_shaped(*plan, native.outputs@),
            actions@.len() == plan.spec_output_count(),
            forall|o: int|
                0 <= o < actions@.len() ==> #[trigger] actions@[o] == slot_action(
                    *plan,
                    conditions@,
                    native.return_value,
                    o as usize,
                ),
            from <= k <= parameters@.len(),
            releases@ == pending_releases(*plan, *native, conditions@, from as nat, k as nat),
        decreases parameters@.len() - k,
    {
        let p = parameters[k];
        match p.output_index {
            Some(o) => {
                let bits = match native.outputs[o] {
                    AbiValue::Pointer(bits) => bits,
                    _ => 0,
                };
                if actions[o].is_none() && p.spec.cleanup.needs_release(bits) {
                    releases.push(Release { value: bits, cleanup: p.spec.cleanup });
                }
            },
            None => {},
        }
        k = k + 1;
    }
    releases
}

proof fn lemma_adopt_count_push(slots: Seq<Decoded>, d: Decoded, i: nat)
    requires
        i <= slots.len(),
    ensures
        adopt_count(slots.push(d), i) == adopt_count(slots, i),
    decreases i,
{
    if i > 0 {
        lemma_adopt_count_push(slots, d, (i - 1) as nat);
    }
}

proof fn lemma_adopt_count_bounded(slots: Seq<Decoded>, i: nat)
    requires
        i <= slots.len(),
    ensures
        adopt_count(slots, i) <= i,
    decreases i,
{
    if i > 0 {
        lemma_adopt_count_bounded(slots, (i - 1) as nat);
    }
}

proof fn lemma_adopted_releases_len(slots: Seq<Decoded>)
    ensures
        adopted_releases(slots).len() == adopt_count(slots, slots.len()),
    decreases slots.len(),
{
    if slots.len() > 0 {
        lemma_adopted_releases_len(slots.drop_last());
        lemma_adopt_count_push(slots.drop_last(), slots.last(), (slots.len() - 1) as nat);
        assert(slots.drop_last().push(slots.last()) =~= slots);
    }
}

/// The decoded outputs of a call whose every output slot was decoded.
struct DecodedOutputs {
    values: Vec<Value>,
    adoptions: Vec<Release>,
    releases: Vec<Release>,
}

/// The common precondition of the completion steps.
pub open spec fn complete_ready(
    plan: CallPlan,
    args: Seq<Value>,
    inputs: Seq<Option<AbiValue>>,
    conditions: Seq<bool>,
    native: NativeResult,
) -> bool {
    &&& plan.wf()
    &&& plan_facts(plan)
    &&& args.len() == plan.spec_input_count()
    &&& inputs_shaped(plan, inputs)
    &&& conditions.len() == plan.spec_contract().outputs@.len()
    &&& native_shaped(plan, native)
}

fn decode_outputs(
    plan: &CallPlan,
    args: &Vec<Value>,
    inputs: &Vec<Option<AbiValue>>,
    native: &NativeResult,
    conditions: Ghost<Seq<bool>>,
    actions: &Vec<Option<OutputAction>>,
    succeeded: bool,
    base: usize,
) -> (r: (Result<DecodedOutputs, (usize, Win32Error, Vec<Release>)>, Ghost<Seq<Decoded>>))
    requires
        complete_ready(*plan, args@, inputs@, conditions@, *native),
        actions@.len() == plan.spec_output_count(),
        forall|o: int|
            0 <= o < actions@.len() ==> #[trigger] actions@[o] == slot_action(
                *plan,
                conditions@,
                native.return_value,
                o as usize,
            ),
        base + plan.spec_output_count() <= usize::MAX,
    ensures
        r.0 matches Ok(d) ==> {
            &&& decoded_slots(
                *plan,
                args@,
                inputs@,
                *native,
                conditions@,
                succeeded,
                plan.spec_parameters().len(),
            ) == Ok::<Seq<Decoded>, (nat, Win32Error)>(r.1@)
            &&& r.1@.len() == plan.spec_output_count()
            &&& d.values@.len() == r.1@.len()
            &&& forall|i: int|
                0 <= i < r.1@.len() ==> #[trigger] d.values@[i] == materialized(
                    r.1@[i],
                    (base + adopt_count(r.1@, i as nat)) as usize,
                )
            &&& d.adoptions@ == adopted_releases(r.1@)
            &&& d.releases@ == failure_releases(r.1@)
        },
        r.0 matches Err(failure) ==> {
            &&& decoded_slots(
                *plan,
                args@,
                inputs@,
                *native,
                conditions@,
                succeeded,
                plan.spec_parameters().len(),
            ) == Err::<Seq<Decoded>, (nat, Win32Error)>((failure.0 as nat, failure.1))
            &&& decoded_slots(*plan, args@, inputs@, *native, conditions@, succeeded, failure.0 as nat)
                == Ok::<Seq<Decoded>, (nat, Win32Error)>(r.1@)
            &&& failure.2@ == adopted_releases(r.1@)
            &&& failure.0 < plan.spec_parameters().len()
        },
{
    let parameters = plan.parameters();
    let mut values: Vec<Value> = Vec::new();
    let mut adoptions: Vec<Release> = Vec::new();
    let mut releases: Vec<Release> = Vec::new();
    let mut adopted: usize = 0;
    let ghost mut slots: Seq<Decoded> = Seq::empty();
    let mut k: usize = 0;
    while k < parameters.len()
        invariant
            complete_ready(*plan, args@, inputs@, conditions@, *native),
            parameters@ == plan.spec_parameters(),
            actions@.len() == plan.spec_output_count(),
            forall|o: int|
                0 <= o < actions@.len() ==> #[trigger] actions@[o] == slot_action(
                    *plan,
                    conditions@,
                    native.return_value,
                    o as usize,
                ),
            base + plan.spec_output_count() <= usize::MAX,
            k <= parameters@.len(),
            decoded_slots(*plan, args@, inputs@, *native, conditions@, succeeded, k as nat) == Ok::<
                Seq<Decoded>,
                (nat, Win32Error),
            >(slots),
            slots.len() == count_outputs(plan.spec_source().parameters@, k as nat),
            values@.len() == slots.len(),
            adopted == adopt_count(slots, slots.len()),
            forall|i: int|
                0 <= i < slots.len() ==> #[trigger] values@[i] == materialized(
                    slots[i],
                    (base + adopt_count(slots, i as nat)) as usize,
                ),
            adoptions@ == adopted_releases(slots),
            releases@ == failure_releases(slots),
        decreases parameters@.len() - k,
    {
        proof {
            lemma_count_bounded(plan.spec_source().parameters@, k as nat);
            lemma_adopt_count_bounded(slots, slots.len());
        }
        let p = parameters[k];
        match p.output_index {
            None => {},
            Some(o) => {
                proof {
                    lemma_count_outputs_step(
                        plan.spec_source().parameters@,
                        k as nat,
                        parameters@.len(),
                    );
                }
                let d: Decoded = match &actions[o] {
                    Some(OutputAction::Unavailable) => Decoded::Plain(Value::Unavailable),
                    Some(OutputAction::AliasInput { parameter }) => {
                        if !succeeded {
                            Decoded::Plain(Value::Handle(0))
                        } else {
                            proof {
                                lemma_alias_facts(
                                    *plan,
                                    conditions@,
                                    native.return_value,
                                    plan.spec_contract().outputs@.len(),
                                    o,
                                    *parameter,
                                );
                            }
                            let expected = match &inputs[*parameter] {
                                Some(v) => abi_bits(v),
                                None => {
                                    assert(false);
                                    None
                                },
                            };
                            let actual = abi_bits(&native.outputs[o]);
                            let same = match (actual, expected) {
                                (Some(a), Some(b)) => a == b,
                                (None, None) => true,
                                _ => false,
                            };
                            if !same {
                                assert(decoded_slots(
                                    *plan,
                                    args@,
                                    inputs@,
                                    *native,
                                    conditions@,
                                    succeeded,
                                    (k + 1) as nat,
                                ) == Err::<Seq<Decoded>, (nat, Win32Error)>(
                                    (k as nat, Win32Error::AliasOutputMismatch),
                                ));
                                proof {
                                    lemma_decoded_persists(
                                        *plan,
                                        args@,
                                        inputs@,
                                        *native,
                                        conditions@,
                                        succeeded,
                                        (k + 1) as nat,
                                        parameters@.len(),
                                    );
                                }
                                return (
                                    Err((k, Win32Error::AliasOutputMismatch, adoptions)),
                                    Ghost(slots),
                                );
                            }
                            let bits = match expected {
                                Some(bits) => bits,
                                None => {
                                    assert(false);
                                    0
                                },
                            };
                            let ia = match parameters[*parameter].input_index {
                                Some(ia) => ia,
                                None => {
                                    assert(false);
                                    0
                                },
                            };
                            match &args[ia] {
                                Value::Resource(id) => Decoded::Plain(Value::Resource(*id)),
                                _ => Decoded::Plain(Value::Handle(bits as usize)),
                            }
                        }
                    },
                    None => {
                        proof {
                            lemma_finalize_total(
                                p.spec.typ,
                                native.outputs@[o as int],
                                p.spec.cleanup,
                                succeeded,
                                true,
                            );
                        }
                        match finalize_value(
                            p.spec.typ,
                            native.outputs[o],
                            p.spec.cleanup,
                            succeeded,
                            true,
                        ) {
                            Ok(d) => d,
                            Err(_) => {
                                assert(false);
                                Decoded::Plain(Value::Unavailable)
                            },
                        }
                    },
                };
                let ghost gd = d;
                assert(slot_decoded(*plan, args@, inputs@, *native, conditions@, succeeded, k as int)
                    == Ok::<Decoded, Win32Error>(gd));
                match d {
                    Decoded::Plain(v) => {
                        values.push(v);
                    },
                    Decoded::Adopt { value, cleanup } => {
                        values.push(Value::Resource(ResourceId(base + adopted)));
                        adoptions.push(Release { value, cleanup });
                        adopted = adopted + 1;
                    },
                    Decoded::Release { value, cleanup } => {
                        values.push(Value::Handle(0));
                        releases.push(Release { value, cleanup });
                    },
                }
                proof {
                    let old_slots = slots;
                    slots = slots.push(gd);
                    assert(slots.drop_last() =~= old_slots);
                    assert forall|i: nat| i <= old_slots.len() implies adopt_count(slots, i)
                        == adopt_count(old_slots, i) by {
                        lemma_adopt_count_push(old_slots, gd, i);
                    }
                }
            },
        }
        k = k + 1;
    }
    (Ok(DecodedOutputs { values, adoptions, releases }), Ghost(slots))
}

proof fn lemma_decoded_persists(
    plan: CallPlan,
    args: Seq<Value>,
    inputs: Seq<Option<AbiValue>>,
    native: NativeResult,
    conditions: Seq<bool>,
    succeeded: bool,
    n: nat,
    m: nat,
)
    requires
        n <= m,
        decoded_slots(plan, args, inputs, native, conditions, succeeded, n) is Err,
    ensures
        decoded_slots(plan, args, inputs, native, conditions, succeeded, m) == decoded_slots(
            plan,
            args,
            inputs,
            native,
            conditions,
            succeeded,
            n,
        ),
    decreases m - n,
{
    if n < m {
        lemma_decoded_persists(plan, args, inputs, native, conditions, succeeded, n, (m - 1) as nat);
    }
}

/// Whether a decoded result is adopted.
pub open spec fn is_adoption(d: Option<Decoded>) -> bool {
    d matches Some(Decoded::Adopt { .. })
}

/// The first identity given to adopted output slots.
pub open spec fn adoption_base(
    plan: CallPlan,
    native: NativeResult,
    succeeded: bool,
    mid_len: nat,
) -> nat {
    if plan.spec_source().return_aggregate is None && is_adoption(
        return_decoded(plan, native, succeeded),
    ) {
        mid_len + 1
    } else {
        mid_len
    }
}

/// The release owed for an adopted direct return when a later step fails.
pub open spec fn return_adoption_release(plan: CallPlan, native: NativeResult, succeeded: bool) -> Seq<
    Release,
> {
    if plan.spec_source().return_aggregate is None {
        match return_decoded(plan, native, succeeded) {
            Some(Decoded::Adopt { value, cleanup }) => seq![Release { value, cleanup }],
            _ => Seq::empty(),
        }
    } else {
        Seq::empty()
    }
}

/// What the caller receives as the call's return value.
pub open spec fn return_delivered(
    plan: CallPlan,
    native: NativeResult,
    succeeded: bool,
    mid_len: nat,
    delivered: Option<Value>,
) -> bool {
    match plan.spec_source().return_aggregate {
        Some(layout) => delivered matches Some(Value::OwnedAggregate { layout: l, bytes }) && l.same_as(
            layout,
        ) && bytes@ == native.return_bytes@,
        None => match return_decoded(plan, native, succeeded) {
            Some(d) => delivered == Some(materialized(d, mid_len as usize)),
            None => delivered is None,
        },
    }
}

impl CallPlan {
    /// Evaluates the contract's output conditions on the input storage, before
    /// the native call may change what its pointers refer to.
    /// `leading_units[r][k]` is the first character unit stored at the
    /// pointer of predicate `k` of rule `r` (see [`CallPlan::text_probe`]).
    pub fn evaluate_conditions(
        &self,
        inputs: &Vec<Option<AbiValue>>,
        leading_units: &Vec<Vec<u16>>,
    ) -> (r: Vec<bool>)
        requires
            self.wf(),
            inputs_shaped(*self, inputs@),
            leading_units@.len() == self.spec_contract().outputs@.len(),
            forall|i: int|
                0 <= i < leading_units@.len() ==> (#[trigger] leading_units@[i])@.len()
                    == self.spec_contract().outputs@[i].when.inputs@.len(),
        ensures
            r@.len() == self.spec_contract().outputs@.len(),
            forall|i: int|
                0 <= i < r@.len() ==> #[trigger] r@[i] == self.spec_contract().outputs@[i].when.spec_matches_inputs(
                    inputs@,
                    leading_units@[i]@,
                ),
    {
        proof {
            lemma_plan_facts(*self);
        }
        let rules = &self.contract().outputs;
        let mut conditions: Vec<bool> = Vec::new();
        let mut i: usize = 0;
        while i < rules.len()
            invariant
                self.wf(),
                plan_facts(*self),
                *rules == self.spec_contract().outputs,
                inputs_shaped(*self, inputs@),
                leading_units@.len() == rules@.len(),
                forall|j: int|
                    0 <= j < leading_units@.len() ==> (#[trigger] leading_units@[j])@.len()
                        == rules@[j].when.inputs@.len(),
                i <= rules@.len(),
                conditions@.len() == i,
                forall|j: int|
                    0 <= j < i ==> #[trigger] conditions@[j] == rules@[j].when.spec_matches_inputs(
                        inputs@,
                        leading_units@[j]@,
                    ),
            decreases rules@.len() - i,
        {
            proof {
                assert(rule_error(self.spec_contract(), self.spec_source(), i as int) is None);
                lemma_predicates_in_range(
                    self.spec_source(),
                    rules@[i as int].when.inputs@,
                    rules@[i as int].when.inputs@.len(),
                );
            }
            let holds = rules[i].when.matches_inputs(inputs, &leading_units[i]);
            conditions.push(holds);
            i = i + 1;
        }
        conditions
    }

    /// Which memory a `NullOrEmpty` predicate reads: the pointer and the
    /// width in bytes of its first character unit, when the predicate is
    /// `NullOrEmpty` and its pointer is not null.
    pub fn text_probe(&self, inputs: &Vec<Option<AbiValue>>, rule: usize, predicate: usize) -> (r:
        Option<(usize, u8)>)
        requires
            self.wf(),
            inputs_shaped(*self, inputs@),
            rule < self.spec_contract().outputs@.len(),
            predicate < self.spec_contract().outputs@[rule as int].when.inputs@.len(),
        ensures
            match self.spec_contract().outputs@[rule as int].when.inputs@[predicate as int] {
                InputPredicate::NullOrEmpty { parameter, element_width } => match inputs@[parameter as int] {
                    Some(AbiValue::Pointer(p)) => if p != 0 {
                        r == Some((p, element_width))
                    } else {
                        r is None
                    },
                    _ => r is None,
                },
                _ => r is None,
            },
    {
        proof {
            lemma_plan_facts(*self);
            assert(rule_error(self.spec_contract(), self.spec_source(), rule as int) is None);
            lemma_predicates_in_range(
                self.spec_source(),
                self.spec_contract().outputs@[rule as int].when.inputs@,
                self.spec_contract().outputs@[rule as int].when.inputs@.len(),
            );
        }
        match &self.contract().outputs[rule].when.inputs[predicate] {
            InputPredicate::NullOrEmpty { parameter, element_width } => match &inputs[*parameter] {
                Some(AbiValue::Pointer(p)) => {
                    if *p != 0 {
                        Some((*p, *element_width))
                    } else {
                        None
                    }
                },
                _ => None,
            },
            _ => None,
        }
    }

    /// Completes a call from what the native function produced: classifies
    /// it by the success rule, applies the contract's output rules, commits
    /// resource effects and consumption of a successful call, and decides what
    /// every result becomes. Adopted results receive new owners in `table`.
    pub fn complete_call(
        &self,
        args: &Vec<Value>,
        table: &mut ResourceTable,
        prepared: &PreparedCall,
        conditions: &Vec<bool>,
        native: &NativeResult,
    ) -> (c: Completion)
        requires
            complete_ready(*self, args@, prepared.inputs@, conditions@, *native),
            old(table).wf(),
            resources_known(args@, old(table)@),
            old(table)@.len() + self.spec_output_count() + 1 <= usize::MAX,
        ensures
            final(table).wf(),
            ({
                let classified = spec_success_matches(
                    self.spec_source().success_rule,
                    native.return_value,
                );
                let n = self.spec_parameters().len();
                match classified {
                    Err(e) => c.result == Err::<CallResult, Win32Error>(e) && c.releases@.len() == 0
                        && !c.report_releases && final(table)@ == old(table)@,
                    Ok(succeeded) => {
                        let mid = committed_table(
                            *self,
                            args@,
                            prepared.inputs@,
                            old(table)@,
                            succeeded,
                        );
                        let base = adoption_base(*self, *native, succeeded, mid.len());
                        match decoded_slots(
                            *self,
                            args@,
                            prepared.inputs@,
                            *native,
                            conditions@,
                            succeeded,
                            n,
                        ) {
                            Err((k0, e)) => {
                                &&& c.result == Err::<CallResult, Win32Error>(e)
                                &&& !c.report_releases
                                &&& final(table)@ == mid
                                &&& c.releases@ == adopted_releases(
                                    decoded_slots(
                                        *self,
                                        args@,
                                        prepared.inputs@,
                                        *native,
                                        conditions@,
                                        succeeded,
                                        k0,
                                    )->Ok_0,
                                ) + return_adoption_release(*self, *native, succeeded)
                                    + pending_releases(*self, *native, conditions@, k0 + 1, n)
                            },
                            Ok(slots) => {
                                &&& c.result matches Ok(result)
                                &&& result.succeeded == succeeded
                                &&& result.last_error == if self.spec_source().capture_last_error {
                                    native.last_error
                                } else {
                                    None::<u32>
                                }
                                &&& (result.last_error is Some
                                    <==> self.spec_source().capture_last_error)
                                &&& return_delivered(
                                    *self,
                                    *native,
                                    succeeded,
                                    mid.len(),
                                    result.return_value,
                                )
                                &&& result.outputs@.len() == slots.len()
                                &&& slots.len() == self.spec_output_count()
                                &&& forall|i: int|
                                    0 <= i < slots.len() ==> #[trigger] result.outputs@[i]
                                        == materialized(
                                        slots[i],
                                        (base + adopt_count(slots, i as nat)) as usize,
                                    )
                                &&& c.report_releases == !succeeded
                                &&& c.releases@ == failure_releases(slots)
                                &&& final(table)@.len() == base + adopted_releases(slots).len()
                                &&& forall|j: int|
                                    0 <= j < mid.len() ==> #[trigger] final(table)@[j] == mid[j]
                                &&& (match return_decoded(*self, *native, succeeded) {
                                    Some(Decoded::Adopt { value, cleanup }) => self.spec_source().return_aggregate
                                        is Some || final(table)@[mid.len() as int].is_fresh(
                                        value,
                                        cleanup,
                                    ),
                                    _ => true,
                                })
                                &&& forall|j: int|
                                    0 <= j < adopted_releases(slots).len() ==> final(table)@[base
                                        + j].is_fresh(
                                        (#[trigger] adopted_releases(slots)[j]).value,
                                        adopted_releases(slots)[j].cleanup,
                                    )
                            },
                        }
                    },
                }
            }),
    {
        proof {
            lemma_plan_facts(*self);
        }
        let raw: Option<&AbiValue> = match &native.return_value {
            Some(v) => Some(v),
            None => None,
        };
        let succeeded = match success_matches(self.source().success_rule, raw) {
            Ok(succeeded) => succeeded,
            Err(e) => {
                return Completion { result: Err(e), releases: Vec::new(), report_releases: false };
            },
        };
        let actions = select_actions(self, conditions, &native.return_value);
        let ghost before = table@;
        if succeeded {
            apply_effects(self, args, &prepared.inputs, table);
            apply_consumption(self, args, table);
        }
        let ghost mid = table@;
        assert(mid == committed_table(*self, args@, prepared.inputs@, before, succeeded));
        let mid_len = table.len();
        let spec = self.source();
        let return_decoded_value: Option<Decoded> = if spec.return_aggregate.is_some() {
            None
        } else {
            match (spec.return_type, &native.return_value) {
                (Some(typ), Some(v)) => {
                    proof {
                        lemma_finalize_total(typ, *v, spec.return_cleanup, succeeded, false);
                    }
                    match finalize_value(typ, *v, spec.return_cleanup, succeeded, false) {
                        Ok(d) => Some(d),
                        Err(_) => {
                            assert(false);
                            None
                        },
                    }
                },
                _ => None,
            }
        };
        let return_adopts = match &return_decoded_value {
            Some(Decoded::Adopt { .. }) => true,
            _ => false,
        };
        let base = if return_adopts {
            mid_len + 1
        } else {
            mid_len
        };
        let (decoded, Ghost(slots)) = decode_outputs(
            self,
            args,
            &prepared.inputs,
            native,
            Ghost(conditions@),
            &actions,
            succeeded,
            base,
        );
        match decoded {
            Err((k0, e, adoptions)) => {
                let mut releases = adoptions;
                match &return_decoded_value {
                    Some(Decoded::Adopt { value, cleanup }) => {
                        releases.push(Release { value: *value, cleanup: *cleanup });
                    },
                    _ => {},
                }
                let ghost head = releases@;
                let pending = collect_pending(self, native, Ghost(conditions@), &actions, k0 + 1);
                let mut pending = pending;
                releases.append(&mut pending);
                assert(head == adopted_releases(slots) + return_adoption_release(
                    *self,
                    *native,
                    succeeded,
                ));
                Completion { result: Err(e), releases, report_releases: false }
            },
            Ok(outputs) => {
                let return_value: Option<Value> = match &spec.return_aggregate {
                    Some(layout) => Some(
                        Value::OwnedAggregate {
                            layout: layout.duplicate(),
                            bytes: copy_bytes(&native.return_bytes),
                        },
                    ),
                    None => match return_decoded_value {
                        Some(Decoded::Plain(v)) => Some(v),
                        Some(Decoded::Adopt { value, cleanup }) => {
                            let id = table.insert(OwnedResource::new(value, cleanup));
                            Some(Value::Resource(id))
                        },
                        Some(Decoded::Release { .. }) => Some(Value::Handle(0)),
                        None => None,
                    },
                };
                let ghost after_return = table@;
                assert(after_return.len() == base);
                let adoptions = &outputs.adoptions;
                let mut j: usize = 0;
                proof {
                    lemma_adopted_releases_len(slots);
                    lemma_adopt_count_bounded(slots, slots.len());
                }
                while j < adoptions.len()
                    invariant
                        table.wf(),
                        table@.len() == base + j,
                        j <= adoptions@.len(),
                        base + adoptions@.len() <= usize::MAX,
                        after_return.len() == base,
                        forall|i: int| 0 <= i < after_return.len() ==> #[trigger] table@[i] == after_return[i],
                        forall|i: int|
                            0 <= i < j ==> table@[base + i].is_fresh(
                                (#[trigger] adoptions@[i]).value,
                                adoptions@[i].cleanup,
                            ),
                    decreases adoptions@.len() - j,
                {
                    let a = adoptions[j];
                    table.insert(OwnedResource::new(a.value, a.cleanup));
                    j = j + 1;
                }
                let last_error = if spec.capture_last_error {
                    native.last_error
                } else {
                    None
                };
                let DecodedOutputs { values, adoptions: _, releases } = outputs;
                Completion {
                    result: Ok(CallResult { return_value, outputs: values, last_error, succeeded }),
                    releases,
                    report_releases: !succeeded,
                }
            },
        }
    }

    /// The final result of a call, given the outcome of each release that
    /// [`CallPlan::complete_call`] asked for (an HRESULT on failure). When the
    /// releases are reported, the first failed release decides the result.
    pub fn settle(completion: Completion, outcomes: &Vec<Result<(), i32>>) -> (r: Result<
        CallResult,
        Win32Error,
    >)
        requires
            outcomes@.len() == completion.releases@.len(),
        ensures
            completion.report_releases && (exists|i: int|
                0 <= i < outcomes@.len() && #[trigger] outcomes@[i] is Err) ==> r == Err::<
                CallResult,
                Win32Error,
            >(Win32Error::Native(outcomes@[first_failure(outcomes@, outcomes@.len()) as int]->Err_0)),
            !(completion.report_releases && (exists|i: int|
                0 <= i < outcomes@.len() && #[trigger] outcomes@[i] is Err)) ==> r
                == completion.result,
    {
        if completion.report_releases {
            let mut i: usize = 0;
            while i < outcomes.len()
                invariant
                    completion.report_releases,
                    i <= outcomes@.len(),
                    forall|j: int| 0 <= j < i ==> !(#[trigger] outcomes@[j] is Err),
                    first_failure(outcomes@, i as nat) == i,
                decreases outcomes@.len() - i,
            {
                match outcomes[i] {
                    Err(code) => {
                        assert(outcomes@[i as int] is Err);
                        proof {
                            lemma_first_failure(outcomes@, i as nat, outcomes@.len());
                        }
                        return Err(Win32Error::Native(code));
                    },
                    Ok(()) => {},
                }
                i = i + 1;
            }
        }
        completion.result
    }
}

/// The index of the first failed outcome among the first `n`, or `n`.
pub open spec fn first_failure(outcomes: Seq<Result<(), i32>>, n: nat) -> nat
    decreases n,
{
    if n == 0 {
        0
    } else if first_failure(outcomes, (n - 1) as nat) < n - 1 {
        first_failure(outcomes, (n - 1) as nat)
    } else if outcomes[n - 1] is Err {
        (n - 1) as nat
    } else {
        n
    }
}

proof fn lemma_first_failure(outcomes: Seq<Result<(), i32>>, i: nat, n: nat)
    requires
        i < n <= outcomes.len(),
        outcomes[i as int] is Err,
        first_failure(outcomes, i) == i,
    ensures
        first_failure(outcomes, n) == i,
    decreases n - i,
{
    if n > i + 1 {
        lemma_first_failure(outcomes, i, (n - 1) as nat);
    }
}

proof fn lemma_predicates_in_range(spec: CallPlanSpec, predicates: Seq<InputPredicate>, n: nat)
    requires
        predicates_error(spec, predicates, n) is None,
        n <= predicates.len(),
    ensures
        forall|k: int|
            0 <= k < n ==> (#[trigger] predicates[k]).spec_parameter() < spec.parameters@.len(),
    decreases n,
{
    if n > 0 {
        lemma_predicates_in_range(spec, predicates, (n - 1) as nat);
    }
}


/// A call that did not succeed consumes nothing: the owners it was handed
/// stay as they were.
pub proof fn lemma_failed_call_consumes_nothing(
    plan: CallPlan,
    args: Seq<Value>,
    inputs: Seq<Option<AbiValue>>,
    table: Seq<OwnedResource>,
)
    ensures
        committed_table(plan, args, inputs, table, false) == table,
{
}


proof fn lemma_effects_evolve(
    plan: CallPlan,
    args: Seq<Value>,
    inputs: Seq<Option<AbiValue>>,
    table: Seq<OwnedResource>,
    n: nat,
)
    requires
        plan.wf(),
        plan_facts(plan),
        args.len() == plan.spec_input_count(),
        resources_known(args, table),
        n <= plan.spec_contract().resource_effects@.len(),
    ensures
        effects_applied(plan, args, inputs, table, n).len() == table.len(),
        forall|j: int|
            0 <= j < table.len() ==> #[trigger] effects_applied(plan, args, inputs, table, n)[j].spec_evolves_from(
                table[j],
            ),
    decreases n,
{
    if n > 0 {
        lemma_effects_evolve(plan, args, inputs, table, (n - 1) as nat);
        let t = effects_applied(plan, args, inputs, table, (n - 1) as nat);
        assert(!effect_invalid(plan.spec_contract(), plan.spec_source(), n - 1));
        match plan.spec_contract().resource_effects@[n - 1] {
            ResourceEffect::AddFileCompletionModes { handle_parameter, flags_parameter } => {
                let a = plan.spec_parameters()[handle_parameter as int].input_index->0;
                match args[a as int] {
                    Value::Resource(id) => match inputs[flags_parameter as int] {
                        Some(AbiValue::U8(flags)) => {
                            t[id.0 as int].lemma_updates_keep_identity(flags as u32);
                            assert forall|j: int| 0 <= j < table.len() implies #[trigger] effects_applied(
                                plan,
                                args,
                                inputs,
                                table,
                                n,
                            )[j].spec_evolves_from(table[j]) by {
                                assert(t[j].spec_evolves_from(table[j]));
                            }
                        },
                        _ => {},
                    },
                    _ => {},
                }
            },
        }
    }
}

proof fn lemma_consumption_evolves(plan: CallPlan, args: Seq<Value>, table: Seq<OwnedResource>, n: nat)
    requires
        plan.wf(),
        plan_facts(plan),
        args.len() == plan.spec_input_count(),
        resources_known(args, table),
        n <= plan.spec_parameters().len(),
    ensures
        consumption_applied(plan, args, table, n).len() == table.len(),
        forall|j: int|
            0 <= j < table.len() ==> #[trigger] consumption_applied(plan, args, table, n)[j].spec_evolves_from(
                table[j],
            ),
    decreases n,
{
    if n > 0 {
        lemma_consumption_evolves(plan, args, table, (n - 1) as nat);
        let t = consumption_applied(plan, args, table, (n - 1) as nat);
        let p = plan.spec_parameters()[n - 1];
        if p.spec.consumes_resource {
            match args[p.input_index->0 as int] {
                Value::Resource(id) => {
                    t[id.0 as int].lemma_updates_keep_identity(0);
                    assert forall|j: int| 0 <= j < table.len() implies #[trigger] consumption_applied(
                        plan,
                        args,
                        table,
                        n,
                    )[j].spec_evolves_from(table[j]) by {
                        assert(t[j].spec_evolves_from(table[j]));
                    }
                },
                _ => {},
            }
        }
    }
}

proof fn lemma_consumed_owner_closed(
    plan: CallPlan,
    args: Seq<Value>,
    table: Seq<OwnedResource>,
    k: int,
    id: ResourceId,
    n: nat,
)
    requires
        plan.wf(),
        plan_facts(plan),
        args.len() == plan.spec_input_count(),
        resources_known(args, table),
        0 <= k < n <= plan.spec_parameters().len(),
        plan.spec_parameters()[k].spec.consumes_resource,
        args[plan.spec_parameters()[k].input_index->0 as int] == Value::Resource(id),
    ensures
        consumption_applied(plan, args, table, n)[id.0 as int].spec_value() == 0,
    decreases n,
{
    let a = plan.spec_parameters()[k].input_index->0;
    assert(args[a as int] matches Value::Resource(_));
    lemma_consumption_evolves(plan, args, table, (n - 1) as nat);
    let t = consumption_applied(plan, args, table, (n - 1) as nat);
    let p = plan.spec_parameters()[n - 1];
    if n - 1 == k {
        t[id.0 as int].lemma_updates_keep_identity(0);
    } else {
        lemma_consumed_owner_closed(plan, args, table, k, id, (n - 1) as nat);
        if p.spec.consumes_resource {
            match args[p.input_index->0 as int] {
                Value::Resource(other) => {
                    t[other.0 as int].lemma_updates_keep_identity(0);
                },
                _ => {},
            }
        }
    }
}

/// Across a call, every owner handed to it keeps its identity and cleanup
/// kind and its value stays or becomes zero; nothing changes unless the call
/// succeeded. Together with `complete_call`, which leaves the committed
/// owners in place and only appends adopted ones, and `lemma_owner_history`,
/// a closed or consumed owner stays closed across any later calls.
pub proof fn lemma_call_owners_evolve(
    plan: CallPlan,
    args: Seq<Value>,
    inputs: Seq<Option<AbiValue>>,
    table: Seq<OwnedResource>,
    succeeded: bool,
)
    requires
        plan.wf(),
        args.len() == plan.spec_input_count(),
        resources_known(args, table),
    ensures
        committed_table(plan, args, inputs, table, succeeded).len() == table.len(),
        forall|j: int|
            0 <= j < table.len() ==> #[trigger] committed_table(plan, args, inputs, table, succeeded)[j].spec_evolves_from(
                table[j],
            ),
        !succeeded ==> committed_table(plan, args, inputs, table, succeeded) == table,
        succeeded ==> forall|k: int, id: ResourceId|
            0 <= k < plan.spec_parameters().len() && plan.spec_parameters()[k].spec.consumes_resource
                && #[trigger] args[plan.spec_parameters()[k].input_index->0 as int] == Value::Resource(id)
                ==> (#[trigger] committed_table(plan, args, inputs, table, succeeded)[id.0 as int]).spec_value()
                == 0,
{
    lemma_plan_facts(plan);
    if succeeded {
        let m = plan.spec_contract().resource_effects@.len();
        lemma_effects_evolve(plan, args, inputs, table, m);
        let t = effects_applied(plan, args, inputs, table, m);
        assert(resources_known(args, t));
        lemma_consumption_evolves(plan, args, t, plan.spec_parameters().len());
        assert forall|j: int| 0 <= j < table.len() implies #[trigger] committed_table(
            plan,
            args,
            inputs,
            table,
            succeeded,
        )[j].spec_evolves_from(table[j]) by {
            assert(t[j].spec_evolves_from(table[j]));
            assert(consumption_applied(plan, args, t, plan.spec_parameters().len())[j].spec_evolves_from(
                t[j],
            ));
            assert(committed_table(plan, args, inputs, table, succeeded) == consumption_applied(
                plan,
                args,
                t,
                plan.spec_parameters().len(),
            ));
        }
        assert forall|k: int, id: ResourceId|
            0 <= k < plan.spec_parameters().len() && plan.spec_parameters()[k].spec.consumes_resource
                && #[trigger] args[plan.spec_parameters()[k].input_index->0 as int] == Value::Resource(id)
                implies (#[trigger] committed_table(plan, args, inputs, table, succeeded)[id.0 as int]).spec_value()
                == 0 by {
            lemma_consumed_owner_closed(plan, args, t, k, id, plan.spec_parameters().len());
        }
    }
}

proof fn lemma_input_storage_slots(plan: CallPlan, args: Seq<Value>, table: Seq<OwnedResource>, n: nat, k: int)
    requires
        0 <= k < n,
        input_storage(plan, args, table, n) is Ok,
    ensures
        input_slot(plan, args, table, k) is Ok,
    decreases n,
{
    if k < n - 1 {
        lemma_input_storage_slots(plan, args, table, (n - 1) as nat, k);
    }
}

/// A closed or consumed owner cannot be used again: any call that passes it
/// to a direct input parameter is refused before anything is dispatched.
pub proof fn lemma_closed_owner_is_not_reused(
    plan: CallPlan,
    args: Seq<Value>,
    table: Seq<OwnedResource>,
    k: int,
    id: ResourceId,
)
    requires
        0 <= k < plan.spec_parameters().len(),
        plan.spec_source().parameter_aggregates@[k] is None,
        plan.spec_parameters()[k].input_index matches Some(i) && args[i as int] == Value::Resource(
            id,
        ),
        table[id.0 as int].spec_value() == 0,
    ensures
        prepare_error(plan, args, table) is Some,
{
    let n = plan.spec_parameters().len();
    if input_storage(plan, args, table, n) is Ok {
        lemma_input_storage_slots(plan, args, table, n, k);
        let p = plan.spec_parameters()[k];
        let i = p.input_index->0;
        crate::win32_convert::lemma_resource_needs_open_handle(
            p.spec.typ,
            id,
            p.spec.nullable,
            p.spec.resource_cleanup,
            owner_cleanup(args[i as int], table),
        );
    }
}

proof fn lemma_consumption_keeps_files(plan: CallPlan, args: Seq<Value>, table: Seq<OwnedResource>, n: nat)
    requires
        plan.wf(),
        plan_facts(plan),
        args.len() == plan.spec_input_count(),
        resources_known(args, table),
        n <= plan.spec_parameters().len(),
    ensures
        forall|j: int|
            0 <= j < table.len() ==> (#[trigger] consumption_applied(plan, args, table, n)[j]).spec_file()
                == table[j].spec_file(),
    decreases n,
{
    if n > 0 {
        lemma_consumption_keeps_files(plan, args, table, (n - 1) as nat);
        lemma_consumption_evolves(plan, args, table, (n - 1) as nat);
        let t = consumption_applied(plan, args, table, (n - 1) as nat);
        let p = plan.spec_parameters()[n - 1];
        if p.spec.consumes_resource {
            match args[p.input_index->0 as int] {
                Value::Resource(id) => {
                    t[id.0 as int].lemma_updates_keep_identity(0);
                    assert forall|j: int| 0 <= j < table.len() implies (#[trigger] consumption_applied(
                        plan,
                        args,
                        table,
                        n,
                    )[j]).spec_file() == table[j].spec_file() by {
                        assert(t[j].spec_file() == table[j].spec_file());
                    }
                },
                _ => {},
            }
        }
    }
}

proof fn lemma_lock_error_slots(plan: CallPlan, args: Seq<Value>, table: Seq<OwnedResource>, n: nat, a: int)
    requires
        0 <= a < n,
        lock_error(plan, args, table, n) is None,
    ensures
        lock_error_at(plan, args, table, a) is None,
    decreases n,
{
    if a < n - 1 {
        lemma_lock_error_slots(plan, args, table, (n - 1) as nat, a);
    }
}

/// A contracted completion-mode effect on a file: while asynchronous leases
/// are retained the call is refused before dispatch; a call that did not
/// succeed leaves the file as it was; and a successful call whose contract
/// holds just this effect adds the flags to the known modes (unknown modes
/// stay unknown).
pub proof fn lemma_completion_mode_effect(
    plan: CallPlan,
    args: Seq<Value>,
    inputs: Seq<Option<AbiValue>>,
    table: Seq<OwnedResource>,
    e: int,
    id: ResourceId,
)
    requires
        plan.wf(),
        args.len() == plan.spec_input_count(),
        resources_known(args, table),
        0 <= e < plan.spec_contract().resource_effects@.len(),
        ({
            let ResourceEffect::AddFileCompletionModes { handle_parameter, .. } =
                plan.spec_contract().resource_effects@[e];
            plan.spec_parameters()[handle_parameter as int].input_index matches Some(a)
                && args[a as int] == Value::Resource(id)
        }),
    ensures
        table[id.0 as int].spec_retained() != 0 ==> prepare_error(plan, args, table) is Some,
        committed_table(plan, args, inputs, table, false)[id.0 as int] == table[id.0 as int],
        ({
            let ResourceEffect::AddFileCompletionModes { flags_parameter, .. } =
                plan.spec_contract().resource_effects@[e];
            match inputs[flags_parameter as int] {
                Some(AbiValue::U8(x)) => plan.spec_contract().resource_effects@.len() == 1
                    ==> committed_table(plan, args, inputs, table, true)[id.0 as int].spec_file().spec_completion_modes()
                    == crate::win32_resource::spec_modes_after(
                    table[id.0 as int].spec_file().spec_completion_modes(),
                    seq![x as u32],
                ),
                _ => true,
            }
        }),
{
    lemma_plan_facts(plan);
    let ResourceEffect::AddFileCompletionModes { handle_parameter: h, flags_parameter: f } =
        plan.spec_contract().resource_effects@[e];
    let a = plan.spec_parameters()[h as int].input_index->0;
    assert(!effect_invalid(plan.spec_contract(), plan.spec_source(), e));
    assert(args[a as int] matches Value::Resource(_));
    if table[id.0 as int].spec_retained() != 0 && prepare_error(plan, args, table) is None {
        lemma_lock_error_slots(plan, args, table, args.len(), a as int);
        let planned = plan.spec_parameters();
        assert(planned[h as int].input_index == Some(a));
        assert(plan.spec_contract().spec_changes_resource(h)) by {
            assert(match plan.spec_contract().resource_effects@[e] {
                ResourceEffect::AddFileCompletionModes { handle_parameter, .. } => handle_parameter
                    == h,
            });
        }
        assert(access_for(plan, a) != ResourceAccess::Borrow);
    }
    let m = plan.spec_contract().resource_effects@.len();
    if m == 1 {
        match inputs[f as int] {
            Some(AbiValue::U8(x)) => {
                assert(e == 0);
                let t = effects_applied(plan, args, inputs, table, 1);
                assert(effects_applied(plan, args, inputs, table, 0) == table);
                table[id.0 as int].lemma_updates_keep_identity(x as u32);
                assert(t[id.0 as int] == table[id.0 as int].spec_with_recorded_modes(x as u32));
                lemma_effects_evolve(plan, args, inputs, table, 1);
                assert(resources_known(args, t));
                lemma_consumption_keeps_files(plan, args, t, plan.spec_parameters().len());
                assert(committed_table(plan, args, inputs, table, true) == consumption_applied(
                    plan,
                    args,
                    t,
                    plan.spec_parameters().len(),
                ));
            },
            _ => {},
        }
    }
}

} // verus!
