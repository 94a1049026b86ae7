use dynwinrt::abi::AbiValue;
use dynwinrt::error::Win32Error;
use dynwinrt::win32::{CallingConvention, Cleanup, Parameter, SuccessRule, Type, Value};
use dynwinrt::win32_contract::{CallContract, Condition, InputPredicate, OutputAction, OutputRule};
use dynwinrt::win32_invoke::{CallResult, NativeResult, PreparedCall, Release};
use dynwinrt::win32_plan::{CallPlan, CallPlanSpec};
use dynwinrt::win32_resource::{CloseStep, OwnedResource, ResourceId, ResourceTable};

fn handle_input(cleanup: Cleanup) -> Parameter {
    Parameter {
        resource_cleanup: cleanup,
        ..Parameter::input(Type::Handle, false)
    }
}

fn spec(parameters: Vec<Parameter>) -> CallPlanSpec {
    CallPlanSpec {
        dll: "kernel32.dll".into(),
        entry_point: "GetLastError".into(),
        parameter_aggregates: vec![None; parameters.len()],
        parameters,
        return_type: Some(Type::I32),
        return_cleanup: Cleanup::NotOwned,
        success_rule: SuccessRule::ReturnZero,
        capture_last_error: false,
        calling_convention: CallingConvention::System,
        return_aggregate: None,
    }
}

fn plan(parameters: Vec<Parameter>, contract: CallContract) -> CallPlan {
    CallPlan::new_with_contract(spec(parameters), contract, 0).unwrap()
}

fn alias_contract(width: u8) -> CallContract {
    CallContract {
        outputs: vec![OutputRule {
            parameter: 2,
            when: Condition {
                inputs: vec![InputPredicate::NullOrEmpty {
                    parameter: 1,
                    element_width: width,
                }],
                return_value: None,
            },
            action: OutputAction::AliasInput { parameter: 0 },
        }],
        ..CallContract::empty()
    }
}

fn alias_parameters(cleanup: Cleanup) -> Vec<Parameter> {
    vec![
        handle_input(cleanup),
        Parameter::input(Type::Pointer, true),
        Parameter::output(Type::Handle, cleanup),
    ]
}

/// A simulated native function: its return value and output slots, given
/// the prepared native inputs.
fn native_returning(status: i32, outputs: Vec<AbiValue>) -> NativeResult {
    NativeResult {
        return_value: Some(AbiValue::I32(status)),
        return_bytes: Vec::new(),
        outputs,
        last_error: None,
    }
}

/// Runs a call; text conditions see empty strings.
fn call(
    plan: &CallPlan,
    table: &mut ResourceTable,
    args: &[Value],
    native: impl FnOnce(&PreparedCall) -> NativeResult,
) -> (Result<CallResult, Win32Error>, Vec<Release>) {
    let args = args.to_vec();
    let prepared = match plan.prepare_call(&args, table) {
        Ok(prepared) => prepared,
        Err(error) => return (Err(error), Vec::new()),
    };
    let leading: Vec<Vec<u16>> = plan
        .contract()
        .outputs
        .iter()
        .map(|rule| vec![0; rule.when.inputs.len()])
        .collect();
    let conditions = plan.evaluate_conditions(&prepared.inputs, &leading);
    let native = native(&prepared);
    let completion = plan.complete_call(&args, table, &prepared, &conditions, &native);
    let releases = completion.releases.clone();
    let outcomes = vec![Ok(()); releases.len()];
    (CallPlan::settle(completion, &outcomes), releases)
}

fn pointer_input(prepared: &PreparedCall, index: usize) -> usize {
    match prepared.inputs[index] {
        Some(AbiValue::Pointer(value)) => value,
        other => panic!("{other:?}"),
    }
}

fn allocation(table: &mut ResourceTable, address: usize) -> ResourceId {
    table.insert(OwnedResource::adopt(address, Cleanup::CoTaskMemFree).unwrap())
}

/// Closes an owner, returning the native release it needed, if any.
fn close(table: &mut ResourceTable, id: ResourceId) -> Option<usize> {
    let mut owner = table.get(id);
    let released = match owner.begin_close().unwrap() {
        CloseStep::Done => None,
        CloseStep::Release { value, .. } => {
            owner.finish_close(Ok(())).unwrap();
            Some(value)
        }
    };
    table.set(id, owner);
    released
}

#[test]
fn aliases_share_owner_close_state_and_exactly_one_cleanup() {
    for width in [1, 2] {
        for null in [false, true] {
            let mut table = ResourceTable::new();
            let owner = allocation(&mut table, 0xA000);
            let string = if null { Value::Null } else { Value::Pointer(0xB000) };
            let call_plan = plan(alias_parameters(Cleanup::CoTaskMemFree), alias_contract(width));
            let (result, releases) = call(&call_plan, &mut table, &[Value::Resource(owner), string], |prepared| {
                native_returning(0, vec![AbiValue::Pointer(pointer_input(prepared, 0))])
            });
            let result = result.unwrap();
            let alias = result.outputs[0].resource().unwrap();
            assert_eq!(alias, owner);
            let mut cleanups: Vec<usize> = releases.iter().map(|release| release.value).collect();
            cleanups.extend(close(&mut table, alias));
            assert!(table.get(owner).is_closed());
            assert!(table.get(owner).lease(Cleanup::CoTaskMemFree).is_err());
            cleanups.extend(close(&mut table, owner));
            assert_eq!(cleanups, vec![0xA000]);
        }
    }
}

#[test]
fn dropping_an_alias_keeps_the_original_owner_live() {
    let mut table = ResourceTable::new();
    let owner = allocation(&mut table, 0xA000);
    let call_plan = plan(alias_parameters(Cleanup::CoTaskMemFree), alias_contract(2));
    let (result, releases) = call(&call_plan, &mut table, &[Value::Resource(owner), Value::Null], |prepared| {
        native_returning(0, vec![AbiValue::Pointer(pointer_input(prepared, 0))])
    });
    drop(result.unwrap());
    assert!(releases.is_empty());
    assert!(!table.get(owner).is_closed());
    assert_eq!(close(&mut table, owner), Some(0xA000));
}

#[test]
fn aliases_of_borrowed_inputs_remain_borrowed() {
    let mut table = ResourceTable::new();
    let call_plan = plan(alias_parameters(Cleanup::RegCloseKey), alias_contract(2));
    let (result, releases) = call(&call_plan, &mut table, &[Value::Handle(0x8000_0002), Value::Null], |prepared| {
        native_returning(0, vec![AbiValue::Pointer(pointer_input(prepared, 0))])
    });
    let result = result.unwrap();
    assert!(matches!(result.outputs[0], Value::Handle(0x8000_0002)));
    assert!(releases.is_empty());
    assert_eq!(table.len(), 0);
}

#[test]
fn failed_and_mismatched_alias_outputs_never_close_the_input() {
    let mut table = ResourceTable::new();
    let owner = allocation(&mut table, 0xA000);
    let call_plan = plan(alias_parameters(Cleanup::CoTaskMemFree), alias_contract(1));
    let (result, releases) = call(&call_plan, &mut table, &[Value::Resource(owner), Value::Null], |prepared| {
        native_returning(5, vec![AbiValue::Pointer(pointer_input(prepared, 0))])
    });
    let result = result.unwrap();
    assert!(!result.succeeded);
    assert!(matches!(result.outputs[0], Value::Handle(0)));
    assert!(releases.is_empty());
    let (error, releases) = call(&call_plan, &mut table, &[Value::Resource(owner), Value::Null], |prepared| {
        native_returning(0, vec![AbiValue::Pointer(pointer_input(prepared, 0) + 1)])
    });
    assert!(error.unwrap_err().message().contains("does not equal"));
    assert!(!table.get(owner).is_closed());
    assert!(releases.iter().all(|release| release.value != 0xA000));
    assert_eq!(close(&mut table, owner), Some(0xA000));
}

#[test]
fn conditions_snapshot_inputs_before_native_mutation() {
    let mut table = ResourceTable::new();
    let owner = allocation(&mut table, 0xA000);
    let call_plan = plan(alias_parameters(Cleanup::CoTaskMemFree), alias_contract(1));
    let mut text = [0u8; 2];
    let (result, _) = call(&call_plan, &mut table, &[Value::Resource(owner), Value::Pointer(0xB000)], |prepared| {
        text[0] = b'x';
        native_returning(0, vec![AbiValue::Pointer(pointer_input(prepared, 0))])
    });
    assert_eq!(text[0], b'x');
    assert_eq!(result.unwrap().outputs[0].resource(), Some(owner));
}

#[test]
fn unavailable_outputs_are_not_decoded_for_the_contracted_input_and_status() {
    let call_plan = plan(
        vec![
            Parameter::input(Type::Handle, false),
            Parameter::input(Type::I32, false),
            Parameter::input_output(Type::U32, false, Cleanup::NotOwned),
        ],
        CallContract {
            outputs: vec![OutputRule {
                parameter: 2,
                when: Condition {
                    inputs: vec![InputPredicate::BitsIn {
                        parameter: 0,
                        mask: u32::MAX as u64,
                        values: vec![0x8000_0004],
                    }],
                    return_value: Some(234),
                },
                action: OutputAction::Unavailable,
            }],
            ..CallContract::empty()
        },
    );
    for (handle, status, unavailable) in [
        (0x8000_0004usize, 234, true),
        (0xffff_ffff_8000_0004usize, 234, true),
        (0x8000_0004, 0, false),
        (0x8000_0002, 234, false),
    ] {
        for capacity in [1, 64] {
            let mut table = ResourceTable::new();
            let (result, _) = call(
                &call_plan,
                &mut table,
                &[Value::Handle(handle), Value::I32(status), Value::U32(capacity)],
                |prepared| native_returning(status, prepared.outputs.clone()),
            );
            let result = result.unwrap();
            if unavailable {
                assert!(matches!(result.outputs[0], Value::Unavailable));
            } else {
                assert!(matches!(result.outputs[0], Value::U32(value) if value == capacity));
            }
        }
    }
}

#[test]
fn unavailable_owned_output_is_neither_adopted_nor_cleaned_up() {
    let mut table = ResourceTable::new();
    let owner = allocation(&mut table, 0xA000);
    let call_plan = plan(
        vec![
            handle_input(Cleanup::CoTaskMemFree),
            Parameter::output(Type::Handle, Cleanup::CoTaskMemFree),
        ],
        CallContract {
            outputs: vec![OutputRule {
                parameter: 1,
                when: Condition {
                    inputs: Vec::new(),
                    return_value: Some(234),
                },
                action: OutputAction::Unavailable,
            }],
            ..CallContract::empty()
        },
    );
    let (result, releases) = call(&call_plan, &mut table, &[Value::Resource(owner)], |prepared| {
        native_returning(234, vec![AbiValue::Pointer(pointer_input(prepared, 0))])
    });
    assert!(matches!(result.unwrap().outputs[0], Value::Unavailable));
    assert!(releases.is_empty());
    assert_eq!(table.len(), 1);
    assert_eq!(close(&mut table, owner), Some(0xA000));
}
