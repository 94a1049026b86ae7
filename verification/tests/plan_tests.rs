use dynwinrt::abi::AbiValue;
use dynwinrt::win32::{
    CallingConvention, Cleanup, FfiScalar, NativeAggregateLayout, Parameter, SuccessRule, Type,
    Value, MAX_NATIVE_AGGREGATE_SIZE,
};
use dynwinrt::win32::scalar_struct_layout;
use dynwinrt::win32_contract::{
    CallContract, Condition, InputPredicate, OutputAction, OutputRule, ResourceEffect,
};
use dynwinrt::win32_convert::{finalize_value, value_to_abi, Decoded};
use dynwinrt::win32_invoke::NativeResult;
use dynwinrt::win32_plan::{validate_spec, CallPlan, CallPlanSpec};
use dynwinrt::win32_resource::ResourceTable;

fn handle_input(cleanup: Cleanup) -> Parameter {
    Parameter {
        resource_cleanup: cleanup,
        ..Parameter::input(Type::Handle, false)
    }
}

fn spec(parameters: Vec<Parameter>) -> CallPlanSpec {
    CallPlanSpec {
        dll: "kernel32.dll".into(),
        entry_point: "GetLastError".into(),
        parameter_aggregates: vec![None; parameters.len()],
        parameters,
        return_type: Some(Type::I32),
        return_cleanup: Cleanup::NotOwned,
        success_rule: SuccessRule::ReturnZero,
        capture_last_error: false,
        calling_convention: CallingConvention::System,
        return_aggregate: None,
    }
}

fn alias_contract(width: u8) -> CallContract {
    CallContract {
        outputs: vec![OutputRule {
            parameter: 2,
            when: Condition {
                inputs: vec![InputPredicate::NullOrEmpty {
                    parameter: 1,
                    element_width: width,
                }],
                return_value: None,
            },
            action: OutputAction::AliasInput { parameter: 0 },
        }],
        ..CallContract::empty()
    }
}

fn alias_parameters(cleanup: Cleanup) -> Vec<Parameter> {
    vec![
        handle_input(cleanup),
        Parameter::input(Type::Pointer, true),
        Parameter::output(Type::Handle, cleanup),
    ]
}

fn mul_div_plan() -> CallPlan {
    CallPlan::new(
        CallPlanSpec {
            dll: "kernel32.dll".into(),
            entry_point: "MulDiv".into(),
            parameters: vec![
                Parameter::input(Type::I32, false),
                Parameter::input(Type::I32, false),
                Parameter::input(Type::I32, false),
            ],
            return_type: Some(Type::I32),
            return_cleanup: Cleanup::NotOwned,
            success_rule: SuccessRule::Always,
            capture_last_error: false,
            calling_convention: CallingConvention::System,
            parameter_aggregates: vec![None; 3],
            return_aggregate: None,
        },
        0,
    )
    .unwrap()
}

#[test]
fn malformed_contracts_fail_before_module_resolution() {
    let make_spec = || {
        let mut spec = spec(alias_parameters(Cleanup::RegCloseKey));
        spec.dll = "absent-dynwinrt-test.dll".into();
        spec
    };
    let mut cases = Vec::new();
    let mut invalid = alias_contract(1);
    invalid.outputs[0].parameter = 9;
    cases.push(invalid);
    let mut invalid = alias_contract(1);
    invalid.outputs.push(invalid.outputs[0].clone());
    cases.push(invalid);
    cases.push(alias_contract(4));
    let mut invalid = alias_contract(1);
    invalid.outputs[0].action = OutputAction::AliasInput { parameter: 1 };
    cases.push(invalid);
    let mut invalid = alias_contract(1);
    invalid.outputs[0].when.inputs = vec![InputPredicate::BitsIn {
        parameter: 0,
        mask: 0xff,
        values: vec![0x100],
    }];
    cases.push(invalid);
    let mut invalid = alias_contract(1);
    invalid.outputs[0].when.return_value = Some(u64::MAX);
    cases.push(invalid);
    cases.push(CallContract {
        resource_effects: vec![ResourceEffect::AddFileCompletionModes {
            handle_parameter: 0,
            flags_parameter: 1,
        }],
        ..CallContract::empty()
    });
    for invalid in cases {
        let error = CallPlan::new_with_contract(make_spec(), invalid, 0).unwrap_err();
        assert!(
            !error.message().contains("absent-dynwinrt-test"),
            "{error:?}"
        );
    }
}

#[test]
fn native_handle_conditions_preserve_the_complete_pointer_width() {
    let condition = Condition {
        inputs: vec![InputPredicate::HandleIn {
            parameter: 0,
            values: vec![-2147483646],
        }],
        return_value: None,
    };
    assert!(condition.matches_inputs(
        &vec![Some(AbiValue::Pointer((-2147483646isize) as usize))],
        &vec![0]
    ));
    assert!(!condition.matches_inputs(&vec![Some(AbiValue::Pointer(0x8000_0002usize))], &vec![0]));
}

#[test]
fn required_pointer_categories_reject_null_bits_without_rejecting_handle_sentinels() {
    for (typ, null) in [
        (Type::Pointer, Value::Pointer(0)),
        (Type::FunctionPointer, Value::FunctionPointer(0)),
    ] {
        assert!(
            value_to_abi(typ, &null, false, Cleanup::NotOwned, Cleanup::NotOwned, None).is_err(),
            "{typ:?}"
        );
        assert!(
            value_to_abi(typ, &Value::Null, false, Cleanup::NotOwned, Cleanup::NotOwned, None)
                .is_err()
        );
        assert!(matches!(
            value_to_abi(typ, &null, true, Cleanup::NotOwned, Cleanup::NotOwned, None).unwrap(),
            AbiValue::Pointer(0)
        ));
        assert!(
            value_to_abi(typ, &Value::Null, true, Cleanup::NotOwned, Cleanup::NotOwned, None)
                .is_ok()
        );
    }
    assert!(value_to_abi(
        Type::Handle,
        &Value::Handle(0),
        false,
        Cleanup::NotOwned,
        Cleanup::NotOwned,
        None
    )
    .is_ok());
    assert!(value_to_abi(
        Type::Handle,
        &Value::Handle(usize::MAX),
        false,
        Cleanup::NotOwned,
        Cleanup::NotOwned,
        None
    )
    .is_ok());
}

#[test]
fn invalid_plan_contracts_fail_before_module_loading_or_native_dispatch() {
    let base = || CallPlanSpec {
        dll: "kernel32.dll".into(),
        entry_point: "GetLastError".into(),
        parameters: Vec::new(),
        return_type: Some(Type::U32),
        return_cleanup: Cleanup::NotOwned,
        success_rule: SuccessRule::Always,
        capture_last_error: false,
        calling_convention: CallingConvention::System,
        parameter_aggregates: Vec::new(),
        return_aggregate: None,
    };
    let mutations: &[fn(&mut CallPlanSpec)] = &[
        |spec| spec.dll = r"..\kernel32.dll".into(),
        |spec| spec.entry_point = "GetLastError\0other".into(),
        |spec| spec.parameter_aggregates.push(None),
        |spec| {
            spec.parameters = vec![Parameter::input(Type::U32, false); 1025];
            spec.parameter_aggregates = vec![None; 1025];
        },
        |spec| spec.return_cleanup = Cleanup::CoTaskMemFree,
        |spec| {
            spec.return_type = None;
            spec.success_rule = SuccessRule::ReturnZero;
        },
        |spec| spec.success_rule = SuccessRule::HResultSucceeded,
        |spec| spec.success_rule = SuccessRule::ReturnValidHandle,
        |spec| {
            spec.return_type = Some(Type::F64);
            spec.success_rule = SuccessRule::ReturnNonZero;
        },
        |spec| {
            spec.parameters.push(Parameter::input(Type::I32, true));
            spec.parameter_aggregates.push(None);
        },
        |spec| {
            let mut parameter = Parameter::input(Type::Pointer, false);
            parameter.cleanup = Cleanup::CoTaskMemFree;
            spec.parameters.push(parameter);
            spec.parameter_aggregates.push(None);
        },
        |spec| {
            let mut parameter = Parameter::input(Type::Handle, false);
            parameter.consumes_resource = true;
            spec.parameters.push(parameter);
            spec.parameter_aggregates.push(None);
        },
        |spec| {
            let mut parameter = Parameter::output(Type::Handle, Cleanup::NotOwned);
            parameter.resource_cleanup = Cleanup::CloseHandle;
            spec.parameters.push(parameter);
            spec.parameter_aggregates.push(None);
        },
    ];
    for (index, mutate) in mutations.iter().enumerate() {
        let mut spec = base();
        mutate(&mut spec);
        assert!(validate_spec(&spec).is_err(), "invalid contract case {index}");
    }
    assert!(validate_spec(&base()).is_ok());
}

#[test]
fn bounded_native_layout_rejects_invalid_identity_extent_and_alignment() {
    for (identity, size, alignment) in [
        ("", 8, 8),
        ("  ", 8, 8),
        ("Tests.Empty", 0, 8),
        ("Tests.Unaligned", 8, 0),
        ("Tests.NonPower", 12, 3),
        ("Tests.BadExtent", 12, 8),
        ("Tests.OverAligned", 16, 16),
    ] {
        assert!(NativeAggregateLayout::new(
            identity.to_string(),
            size,
            alignment,
            vec![FfiScalar::U64],
        )
        .is_err());
    }
}

#[test]
fn native_aggregate_layout_rejects_excessive_sizes() {
    let error = NativeAggregateLayout::new(
        "Tests.Huge".to_string(),
        MAX_NATIVE_AGGREGATE_SIZE + 8,
        8,
        vec![FfiScalar::U64],
    )
    .unwrap_err();
    assert!(error.message().contains("invalid native aggregate"));
}

#[test]
fn failed_direct_handle_sentinel_is_never_cleaned() {
    let value = finalize_value(
        Type::Handle,
        AbiValue::Pointer(usize::MAX),
        Cleanup::CloseHandle,
        false,
        false,
    )
    .unwrap();
    assert!(matches!(value, Decoded::Plain(Value::Handle(0))));
}

#[test]
fn immutable_plan_rejects_wrong_argument_kind_before_dispatch() {
    let plan = mul_div_plan();
    let table = ResourceTable::new();
    let error = plan
        .prepare_call(&vec![Value::U32(100), Value::I32(3), Value::I32(2)], &table)
        .unwrap_err();
    assert!(error.message().contains("does not match I32"));
}

#[test]
fn immutable_plan_invokes_exact_scalar_signature() {
    let plan = mul_div_plan();
    let mut table = ResourceTable::new();
    let args = vec![Value::I32(100), Value::I32(3), Value::I32(2)];
    let prepared = plan.prepare_call(&args, &table).unwrap();
    let scalar = |slot: &Option<AbiValue>| match slot {
        Some(AbiValue::I32(v)) => *v as i64,
        other => panic!("unexpected input {other:?}"),
    };
    let product = scalar(&prepared.inputs[0]) * scalar(&prepared.inputs[1]);
    let native = NativeResult {
        return_value: Some(AbiValue::I32((product / scalar(&prepared.inputs[2])) as i32)),
        return_bytes: Vec::new(),
        outputs: Vec::new(),
        last_error: None,
    };
    let completion = plan.complete_call(&args, &mut table, &prepared, &Vec::new(), &native);
    assert!(completion.releases.is_empty());
    let result = CallPlan::settle(completion, &Vec::new()).unwrap();
    assert!(matches!(result.return_value, Some(Value::I32(150))));
    assert!(result.outputs.is_empty());
    assert!(result.succeeded);
}

#[test]
fn argument_counts_are_checked_before_dispatch() {
    let plan = mul_div_plan();
    let table = ResourceTable::new();
    let error = plan.prepare_call(&vec![Value::I32(1)], &table).unwrap_err();
    assert_eq!(error.message(), "kernel32.dll!MulDiv expects 3 inputs, received 1");
    assert_eq!(plan.input_count(), 3);
    assert_eq!(plan.output_count(), 0);
    assert_eq!(plan.dll(), "kernel32.dll");
    assert_eq!(plan.entry_point(), "MulDiv");
}

#[test]
fn aggregate_layouts_follow_the_c_layout_of_their_elements() {
    assert_eq!(scalar_struct_layout(&vec![FfiScalar::U8]), Some((1, 1)));
    assert_eq!(scalar_struct_layout(&vec![FfiScalar::U8, FfiScalar::U32]), Some((8, 4)));
    assert_eq!(
        scalar_struct_layout(&vec![FfiScalar::U16, FfiScalar::F64, FfiScalar::U8]),
        Some((24, 8))
    );
    assert_eq!(
        scalar_struct_layout(&vec![FfiScalar::U32, FfiScalar::U16, FfiScalar::U16, FfiScalar::Pointer]),
        Some((16, 8))
    );
    let guid = vec![
        FfiScalar::U32, FfiScalar::U16, FfiScalar::U16, FfiScalar::U8, FfiScalar::U8,
        FfiScalar::U8, FfiScalar::U8, FfiScalar::U8, FfiScalar::U8, FfiScalar::U8, FfiScalar::U8,
    ];
    assert_eq!(scalar_struct_layout(&guid), Some((16, 4)));
    assert!(NativeAggregateLayout::new("Windows.Guid".to_string(), 16, 4, guid).is_ok());
    let error = NativeAggregateLayout::new("Tests.Byte".to_string(), 8, 8, vec![FfiScalar::U8])
        .unwrap_err();
    assert!(error.message().contains("disagrees with the target ABI"));
    assert!(NativeAggregateLayout::new("Tests.Byte".to_string(), 1, 1, vec![FfiScalar::U8]).is_ok());
}
