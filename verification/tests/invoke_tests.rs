use dynwinrt::abi::AbiValue;
use dynwinrt::error::Win32Error;
use dynwinrt::win32::{
    CallingConvention, Cleanup, Direction, Parameter, SuccessRule, Type, Value,
};
use dynwinrt::win32_invoke::{CallResult, NativeResult, PreparedCall, Release};
use dynwinrt::win32_plan::{CallPlan, CallPlanSpec};
use dynwinrt::win32_resource::{CloseStep, OwnedResource, ResourceAccess, ResourceTable};

fn plan(parameters: Vec<Parameter>, return_type: Option<Type>, rule: SuccessRule) -> CallPlan {
    CallPlan::new(
        CallPlanSpec {
            dll: "kernel32.dll".into(),
            entry_point: "GetLastError".into(),
            parameter_aggregates: vec![None; parameters.len()],
            parameters,
            return_type,
            return_cleanup: Cleanup::NotOwned,
            success_rule: rule,
            capture_last_error: false,
            calling_convention: CallingConvention::System,
            return_aggregate: None,
        },
        0,
    )
    .unwrap()
}

/// Runs a call whose native function is simulated by `native`, which sees
/// the prepared native storage; every release the library asks for succeeds.
fn call(
    plan: &CallPlan,
    table: &mut ResourceTable,
    args: &[Value],
    native: impl FnOnce(&PreparedCall) -> NativeResult,
) -> (Result<CallResult, Win32Error>, Vec<Release>) {
    let args = args.to_vec();
    let prepared = match plan.prepare_call(&args, table) {
        Ok(prepared) => prepared,
        Err(error) => return (Err(error), Vec::new()),
    };
    let leading: Vec<Vec<u16>> = plan
        .contract()
        .outputs
        .iter()
        .map(|rule| vec![0; rule.when.inputs.len()])
        .collect();
    let conditions = plan.evaluate_conditions(&prepared.inputs, &leading);
    let native = native(&prepared);
    let completion = plan.complete_call(&args, table, &prepared, &conditions, &native);
    let releases = completion.releases.clone();
    let outcomes = vec![Ok(()); releases.len()];
    (CallPlan::settle(completion, &outcomes), releases)
}

fn returning(value: AbiValue, outputs: Vec<AbiValue>) -> NativeResult {
    NativeResult {
        return_value: Some(value),
        return_bytes: Vec::new(),
        outputs,
        last_error: None,
    }
}

#[test]
fn every_success_rule_classifies_native_results_without_erasing_them() {
    for rule in [
        SuccessRule::Always,
        SuccessRule::ReturnZero,
        SuccessRule::ReturnNonZero,
        SuccessRule::HResultSucceeded,
        SuccessRule::SignedNonNegative,
    ] {
        let plan = plan(vec![Parameter::input(Type::I32, false)], Some(Type::I32), rule);
        let mut table = ResourceTable::new();
        for input in [i32::MIN, -1, 0, 1, i32::MAX] {
            let (result, _) = call(&plan, &mut table, &[Value::I32(input)], |prepared| {
                returning(prepared.inputs[0].unwrap(), Vec::new())
            });
            let result = result.unwrap();
            let expected = match rule {
                SuccessRule::Always => true,
                SuccessRule::ReturnZero => input == 0,
                SuccessRule::ReturnNonZero => input != 0,
                SuccessRule::HResultSucceeded | SuccessRule::SignedNonNegative => input >= 0,
                _ => unreachable!(),
            };
            assert_eq!(result.succeeded, expected, "{rule:?}, {input}");
            assert!(matches!(result.return_value, Some(Value::I32(value)) if value == input));
            assert!(result.outputs.is_empty());
            assert_eq!(result.last_error, None);
        }
    }
    let valid = 0x5000usize;
    for rule in [
        SuccessRule::Always,
        SuccessRule::ReturnZero,
        SuccessRule::ReturnNonZero,
        SuccessRule::ReturnNonNull,
        SuccessRule::ReturnValidHandle,
    ] {
        let plan = plan(vec![Parameter::input(Type::Handle, true)], Some(Type::Handle), rule);
        let mut table = ResourceTable::new();
        for input in [0, valid, usize::MAX] {
            let (result, _) = call(&plan, &mut table, &[Value::Handle(input)], |prepared| {
                returning(prepared.inputs[0].unwrap(), Vec::new())
            });
            let result = result.unwrap();
            let expected = match rule {
                SuccessRule::Always => true,
                SuccessRule::ReturnZero => input == 0,
                SuccessRule::ReturnNonZero | SuccessRule::ReturnNonNull => input != 0,
                SuccessRule::ReturnValidHandle => input != 0 && input != usize::MAX,
                _ => unreachable!(),
            };
            assert_eq!(result.succeeded, expected, "{rule:?}, {input}");
            assert!(matches!(result.return_value, Some(Value::Handle(value)) if value == input));
        }
    }
}

#[test]
fn mixed_directions_keep_native_output_order_and_original_inputs() {
    let plan = plan(
        vec![
            Parameter::input(Type::I32, false),
            Parameter::output(Type::U8, Cleanup::NotOwned),
            Parameter::input(Type::U64, false),
            Parameter::input_output(Type::I16, false, Cleanup::NotOwned),
            Parameter::output(Type::F64, Cleanup::NotOwned),
            Parameter::input_output(Type::Pointer, true, Cleanup::NotOwned),
        ],
        Some(Type::I32),
        SuccessRule::HResultSucceeded,
    );
    let mut table = ResourceTable::new();
    let pointer = 0x7000usize;
    let inputs = [
        Value::I32(23),
        Value::U64(7),
        Value::I16(-12),
        Value::Pointer(pointer),
    ];
    let mut dispatches = 0;
    let (result, _) = call(&plan, &mut table, &inputs, |prepared| {
        dispatches += 1;
        let input = match prepared.inputs[0] {
            Some(AbiValue::I32(value)) => value,
            other => panic!("{other:?}"),
        };
        let wide = match prepared.inputs[2] {
            Some(AbiValue::U64(value)) => value,
            other => panic!("{other:?}"),
        };
        let (byte, narrow, floating) = match prepared.outputs.as_slice() {
            [AbiValue::U8(byte), AbiValue::I16(narrow), AbiValue::F64(floating), AbiValue::Pointer(_)] => {
                (*byte, *narrow, f64::from_bits(*floating))
            }
            other => panic!("{other:?}"),
        };
        if byte != 0 || floating != 0.0 {
            return returning(AbiValue::I32(0x80070057u32 as i32), prepared.outputs.clone());
        }
        returning(
            AbiValue::I32(1),
            vec![
                AbiValue::U8(wide as u8),
                AbiValue::I16(narrow + input as i16),
                AbiValue::F64(6.25f64.to_bits()),
                AbiValue::Pointer(0),
            ],
        )
    });
    let result = result.unwrap();
    assert!(result.succeeded);
    assert_eq!((plan.input_count(), plan.output_count()), (4, 4));
    assert!(matches!(result.return_value, Some(Value::I32(1))));
    assert!(matches!(result.outputs.as_slice(), [
        Value::U8(7), Value::I16(11), Value::F64(value), Value::Pointer(0),
    ] if f64::from_bits(*value) == 6.25));
    assert!(matches!(inputs[2], Value::I16(-12)));
    assert!(matches!(inputs[3], Value::Pointer(value) if value == pointer));
    let (short, _) = call(&plan, &mut table, &inputs[..3], |_| panic!("dispatched"));
    assert!(short.is_err());
    let mut wrong = inputs.clone();
    wrong[1] = Value::U32(7);
    let (wrong, _) = call(&plan, &mut table, &wrong, |_| panic!("dispatched"));
    assert!(wrong.is_err());
    assert_eq!(dispatches, 1);
}

fn consuming(cleanup: Cleanup) -> Parameter {
    Parameter {
        typ: Type::Handle,
        direction: Direction::In,
        nullable: false,
        cleanup: Cleanup::NotOwned,
        consumes_resource: true,
        resource_cleanup: cleanup,
    }
}

#[test]
fn registry_handle_output_is_adopted_only_on_success() {
    let open = CallPlan::new(
        CallPlanSpec {
            dll: "advapi32.dll".into(),
            entry_point: "RegOpenKeyExW".into(),
            parameters: vec![
                Parameter::input(Type::Handle, false),
                Parameter::input(Type::Pointer, false),
                Parameter::input(Type::U32, false),
                Parameter::input(Type::U32, false),
                Parameter::output(Type::Handle, Cleanup::RegCloseKey),
            ],
            return_type: Some(Type::I32),
            return_cleanup: Cleanup::NotOwned,
            success_rule: SuccessRule::ReturnZero,
            capture_last_error: false,
            calling_convention: CallingConvention::System,
            parameter_aggregates: vec![None; 5],
            return_aggregate: None,
        },
        0,
    )
    .unwrap();
    let arguments = |path: usize| {
        [
            Value::Handle(0x80000002),
            Value::Pointer(path),
            Value::U32(0),
            Value::U32(0x20019),
        ]
    };
    let mut table = ResourceTable::new();
    let (opened, releases) = call(&open, &mut table, &arguments(0x1000), |_| {
        returning(AbiValue::I32(0), vec![AbiValue::Pointer(0x4242)])
    });
    let opened = opened.unwrap();
    assert!(opened.succeeded);
    assert!(releases.is_empty());
    let resource = opened.outputs[0].resource().unwrap();
    assert_ne!(table.get(resource).raw(), 0);
    assert_eq!(table.get(resource).cleanup(), Cleanup::RegCloseKey);

    let wrong_cleanup = CallPlan::new(
        CallPlanSpec {
            dll: "kernel32.dll".into(),
            entry_point: "CloseHandle".into(),
            parameters: vec![consuming(Cleanup::CloseHandle)],
            return_type: Some(Type::Bool32),
            return_cleanup: Cleanup::NotOwned,
            success_rule: SuccessRule::ReturnNonZero,
            capture_last_error: true,
            calling_convention: CallingConvention::System,
            parameter_aggregates: vec![None],
            return_aggregate: None,
        },
        0,
    )
    .unwrap();
    let (error, _) = call(&wrong_cleanup, &mut table, &[Value::Resource(resource)], |_| {
        panic!("dispatched")
    });
    assert!(error.unwrap_err().message().contains("cleanup kind does not match"));
    assert!(!table.get(resource).is_closed());

    let close = CallPlan::new(
        CallPlanSpec {
            dll: "advapi32.dll".into(),
            entry_point: "RegCloseKey".into(),
            parameters: vec![consuming(Cleanup::RegCloseKey)],
            return_type: Some(Type::I32),
            return_cleanup: Cleanup::NotOwned,
            success_rule: SuccessRule::ReturnZero,
            capture_last_error: false,
            calling_convention: CallingConvention::System,
            parameter_aggregates: vec![None],
            return_aggregate: None,
        },
        0,
    )
    .unwrap();
    let raw = table.get(resource).raw();
    let (raw_error, _) = call(&close, &mut table, &[Value::Handle(raw)], |_| panic!("dispatched"));
    assert!(raw_error.unwrap_err().message().contains("require a managed resource object"));
    assert!(!table.get(resource).is_closed());
    let (closed, _) = call(&close, &mut table, &[Value::Resource(resource)], |prepared| {
        assert_eq!(prepared.inputs[0], Some(AbiValue::Pointer(0x4242)));
        returning(AbiValue::I32(0), Vec::new())
    });
    assert!(closed.unwrap().succeeded);
    assert!(table.get(resource).is_closed());

    let (failed, releases) = call(&open, &mut table, &arguments(0x2000), |_| {
        returning(AbiValue::I32(2), vec![AbiValue::Pointer(0)])
    });
    let failed = failed.unwrap();
    assert!(!failed.succeeded);
    assert!(releases.is_empty());
    assert!(matches!(failed.outputs[0], Value::Handle(0)));
}

#[test]
fn duplicate_resources_reject_before_dispatch() {
    let mut table = ResourceTable::new();
    let a = table.insert(OwnedResource::adopt(0x10, Cleanup::CloseHandle).unwrap());
    let b = table.insert(OwnedResource::adopt(0x20, Cleanup::CloseHandle).unwrap());
    let mut parameter = Parameter::input(Type::Handle, false);
    parameter.resource_cleanup = Cleanup::CloseHandle;
    let plan = plan(vec![parameter; 2], Some(Type::Bool32), SuccessRule::Always);
    let (error, _) = call(&plan, &mut table, &[Value::Resource(a), Value::Resource(a)], |_| {
        panic!("dispatched")
    });
    assert!(error.unwrap_err().message().contains("multiple parameters"));
    for (first, second) in [(a, b), (b, a)] {
        let (result, _) = call(&plan, &mut table, &[Value::Resource(first), Value::Resource(second)], |prepared| {
            let different = prepared.inputs[0] != prepared.inputs[1];
            returning(AbiValue::I32(i32::from(different)), Vec::new())
        });
        assert!(matches!(result.unwrap().return_value, Some(Value::Bool(true))));
    }
}

#[test]
fn async_leases_keep_resources_open_and_active_counts_balance_once() {
    let mut resource = OwnedResource::adopt(0x30, Cleanup::CloseHandle).unwrap();
    assert!(resource.async_lease(Cleanup::GlobalFree).is_err());
    assert!(!resource.has_async_leases());
    let mut first = resource.async_lease(Cleanup::CloseHandle).unwrap();
    let mut second = resource.async_lease(Cleanup::CloseHandle).unwrap();
    first.mark_active(&mut resource);
    first.mark_active(&mut resource);
    second.mark_active(&mut resource);
    assert_eq!(resource.active_async_io_count(), 2);
    assert_eq!(resource.async_lease_count(), 2);
    assert!(resource.begin_close().is_err());
    assert!(resource.lock_for_call(ResourceAccess::Consume).is_err());
    first.mark_inactive(&mut resource);
    first.mark_inactive(&mut resource);
    assert_eq!(resource.active_async_io_count(), 1);
    resource.release_async_lease(first);
    assert_eq!(resource.async_lease_count(), 1);
    let raw = resource.raw();
    assert!(resource.begin_close().is_err());
    second.mark_inactive(&mut resource);
    resource.release_async_lease(second);
    assert_eq!(resource.async_lease_count(), 0);
    assert_eq!(resource.active_async_io_count(), 0);
    assert_eq!(
        resource.begin_close(),
        Ok(CloseStep::Release { value: raw, cleanup: Cleanup::CloseHandle })
    );
}

fn plan_returning(
    parameters: Vec<Parameter>,
    return_type: Type,
    return_cleanup: Cleanup,
    rule: SuccessRule,
) -> CallPlan {
    CallPlan::new(
        CallPlanSpec {
            dll: "kernel32.dll".into(),
            entry_point: "GetLastError".into(),
            parameter_aggregates: vec![None; parameters.len()],
            parameters,
            return_type: Some(return_type),
            return_cleanup,
            success_rule: rule,
            capture_last_error: false,
            calling_convention: CallingConvention::System,
            return_aggregate: None,
        },
        0,
    )
    .unwrap()
}

#[test]
fn owning_multi_outputs_cleanup_on_failure_and_last_alias_drop() {
    let plan = plan_returning(
        vec![
            Parameter::output(Type::Pointer, Cleanup::CoTaskMemFree),
            Parameter::output(Type::U32, Cleanup::NotOwned),
            Parameter::input(Type::I32, false),
            Parameter::output(Type::Pointer, Cleanup::CoTaskMemFree),
        ],
        Type::I32,
        Cleanup::NotOwned,
        SuccessRule::HResultSucceeded,
    );
    let (first, last) = (0x1100usize, 0x2200usize);
    for status in [0, 1, 0x80004005u32 as i32] {
        let mut table = ResourceTable::new();
        let (result, releases) = call(&plan, &mut table, &[Value::I32(status)], |prepared| {
            assert_eq!(prepared.inputs[2], Some(AbiValue::I32(status)));
            returning(
                AbiValue::I32(status),
                vec![AbiValue::Pointer(first), AbiValue::U32(7), AbiValue::Pointer(last)],
            )
        });
        let result = result.unwrap();
        assert!(matches!(result.outputs[1], Value::U32(7)));
        assert_eq!(result.succeeded, status >= 0);
        if status < 0 {
            assert!(matches!(result.outputs[0], Value::Handle(0)));
            assert!(matches!(result.outputs[2], Value::Handle(0)));
            assert_eq!(
                releases,
                vec![
                    Release { value: first, cleanup: Cleanup::CoTaskMemFree },
                    Release { value: last, cleanup: Cleanup::CoTaskMemFree },
                ]
            );
            assert_eq!(table.len(), 0);
        } else {
            assert!(releases.is_empty());
            let owner = result.outputs[0].resource().unwrap();
            let other = result.outputs[2].resource().unwrap();
            assert_eq!(table.get(owner).raw(), first);
            assert_eq!(table.get(other).raw(), last);
            assert_eq!(table.get(other).cleanup(), Cleanup::CoTaskMemFree);
        }
    }
}

#[test]
fn consumption_requires_ownership_and_native_success_and_rejects_reuse() {
    let mut table = ResourceTable::new();
    let raw = 0x3300usize;
    let resource = table.insert(OwnedResource::adopt(raw, Cleanup::CloseHandle).unwrap());
    let parameter = Parameter {
        consumes_resource: true,
        resource_cleanup: Cleanup::CloseHandle,
        ..Parameter::input(Type::Handle, false)
    };
    let plan = plan_returning(vec![parameter], Type::Bool32, Cleanup::NotOwned, SuccessRule::ReturnNonZero);
    let mut dispatches = 0;
    let (error, _) = call(&plan, &mut table, &[Value::Handle(raw)], |_| panic!("dispatched"));
    assert!(error.unwrap_err().message().contains("managed resource"));
    let (failed, _) = call(&plan, &mut table, &[Value::Resource(resource)], |prepared| {
        dispatches += 1;
        assert_eq!(prepared.inputs[0], Some(AbiValue::Pointer(raw)));
        returning(AbiValue::I32(0), Vec::new())
    });
    let failed = failed.unwrap();
    assert!(!failed.succeeded);
    assert!(matches!(failed.return_value, Some(Value::Bool(false))));
    assert_eq!(table.get(resource).raw(), raw);
    let (closed, _) = call(&plan, &mut table, &[Value::Resource(resource)], |_| {
        dispatches += 1;
        returning(AbiValue::I32(1), Vec::new())
    });
    assert!(closed.unwrap().succeeded);
    assert!(table.get(resource).is_closed());
    let (reused, _) = call(&plan, &mut table, &[Value::Resource(resource)], |_| panic!("dispatched"));
    assert!(reused.unwrap_err().message().contains("closed"));
    assert_eq!(dispatches, 2);
    assert!(table.get(resource).begin_close().is_ok());
}

#[test]
fn direct_owned_returns_adopt_only_valid_success_and_borrowed_returns_never_cleanup() {
    let plan = plan_returning(
        vec![Parameter::input(Type::U32, false)],
        Type::Handle,
        Cleanup::CloseHandle,
        SuccessRule::ReturnValidHandle,
    );
    let create = |which: u32| match which {
        0 => 0usize,
        1 => usize::MAX,
        _ => 0x4400,
    };
    let mut table = ResourceTable::new();
    for sentinel in [0, 1] {
        let (failed, releases) = call(&plan, &mut table, &[Value::U32(sentinel)], |_| {
            returning(AbiValue::Pointer(create(sentinel)), Vec::new())
        });
        let failed = failed.unwrap();
        assert!(!failed.succeeded);
        assert!(matches!(failed.return_value, Some(Value::Handle(0))));
        assert!(releases.is_empty());
    }
    let (result, releases) = call(&plan, &mut table, &[Value::U32(2)], |_| {
        returning(AbiValue::Pointer(create(2)), Vec::new())
    });
    let result = result.unwrap();
    assert!(result.succeeded);
    assert!(releases.is_empty());
    let owner = result.return_value.as_ref().unwrap().resource().unwrap();
    let raw = table.get(owner).raw();
    assert_ne!(raw, 0);
    assert_eq!(table.get(owner).cleanup(), Cleanup::CloseHandle);

    let borrowed = plan_returning(
        vec![Parameter::input(Type::Handle, false)],
        Type::Handle,
        Cleanup::NotOwned,
        SuccessRule::Always,
    );
    let (result, releases) = call(&borrowed, &mut table, &[Value::Handle(raw)], |prepared| {
        returning(prepared.inputs[0].unwrap(), Vec::new())
    });
    assert!(matches!(result.unwrap().return_value, Some(Value::Handle(value)) if value == raw));
    assert!(releases.is_empty());
    assert_eq!(table.get(owner).raw(), raw);
}

#[test]
fn void_exports_capture_last_error_without_a_synthetic_return() {
    let plan = CallPlan::new(
        CallPlanSpec {
            dll: "kernel32.dll".into(),
            entry_point: "SetLastError".into(),
            parameters: vec![Parameter::input(Type::U32, false)],
            return_type: None,
            return_cleanup: Cleanup::NotOwned,
            success_rule: SuccessRule::Always,
            capture_last_error: true,
            calling_convention: CallingConvention::System,
            parameter_aggregates: vec![None],
            return_aggregate: None,
        },
        0,
    )
    .unwrap();
    let mut table = ResourceTable::new();
    let (result, releases) = call(&plan, &mut table, &[Value::U32(1234)], |prepared| {
        let code = match prepared.inputs[0] {
            Some(AbiValue::U32(code)) => code,
            ref other => panic!("unexpected native argument {other:?}"),
        };
        NativeResult {
            return_value: None,
            return_bytes: Vec::new(),
            outputs: Vec::new(),
            last_error: Some(code),
        }
    });
    let result = result.unwrap();
    assert!(result.succeeded);
    assert!(result.return_value.is_none());
    assert!(result.outputs.is_empty());
    assert_eq!(result.last_error, Some(1234));
    assert!(releases.is_empty());
}

#[test]
fn errors_before_dispatch_have_no_cleanup_recovery_resources() {
    let plan = CallPlan::new(
        CallPlanSpec {
            dll: "kernel32.dll".into(),
            entry_point: "CreateEventW".into(),
            parameters: vec![Parameter::output(Type::Handle, Cleanup::CloseHandle); 2],
            return_type: Some(Type::Handle),
            return_cleanup: Cleanup::CloseHandle,
            success_rule: SuccessRule::ReturnNonNull,
            capture_last_error: false,
            calling_convention: CallingConvention::System,
            parameter_aggregates: vec![None; 2],
            return_aggregate: None,
        },
        0,
    )
    .unwrap();
    let mut table = ResourceTable::new();
    let (error, releases) = call(&plan, &mut table, &[Value::U32(1)], |_| {
        panic!("dispatched")
    });
    let error = error.unwrap_err();
    assert!(error.message().contains("expects 0 inputs"));
    assert_eq!(
        error.message(),
        "kernel32.dll!CreateEventW expects 0 inputs, received 1"
    );
    assert!(releases.is_empty());
    assert_eq!(table.len(), 0);
    assert!(table.releases_owed().is_empty());
}

#[test]
fn discarded_tables_owe_the_releases_of_open_owners_only() {
    let mut table = ResourceTable::new();
    let open = table.insert(OwnedResource::adopt(0x41, Cleanup::CloseHandle).unwrap());
    let closed = table.insert(OwnedResource::adopt(0x42, Cleanup::LocalFree).unwrap());
    let mut owner = table.get(closed);
    assert_eq!(
        owner.begin_close(),
        Ok(CloseStep::Release { value: 0x42, cleanup: Cleanup::LocalFree })
    );
    owner.finish_close(Ok(())).unwrap();
    table.set(closed, owner);
    let _ = open;
    table.insert(OwnedResource::adopt(0x43, Cleanup::RegCloseKey).unwrap());
    assert_eq!(
        table.releases_owed(),
        vec![(0x41, Cleanup::CloseHandle), (0x43, Cleanup::RegCloseKey)]
    );
}
