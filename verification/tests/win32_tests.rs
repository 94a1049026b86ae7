use dynwinrt::abi::AbiValue;
use dynwinrt::win32::SuccessRule;
use dynwinrt::win32_convert::success_matches;
use dynwinrt::win32_module::is_bare_system_module_name;

#[test]
fn system32_policy_rejects_paths() {
    assert!(!is_bare_system_module_name(r"C:\Windows\System32\kernel32.dll"));
    assert!(is_bare_system_module_name("kernel32.dll"));
}

#[test]
fn hresult_success_rule_accepts_s_false_and_rejects_failures() {
    assert!(success_matches(SuccessRule::HResultSucceeded, Some(&AbiValue::I32(1))).unwrap());
    assert!(!success_matches(SuccessRule::HResultSucceeded, Some(&AbiValue::I32(-1))).unwrap());
}
