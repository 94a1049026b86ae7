use dynwinrt::winapp::{
    bootstrap_dll_path, bootstrap_version, is_runtime_package, package_buffer_words,
    version_component, BootstrapError, VersionPart, WinAppSdkBootstrapOptions,
};

#[test]
fn bootstrap_version_preserves_release_and_minimum_version() {
    let options = WinAppSdkBootstrapOptions {
        major_version: 2,
        minor_version: 2,
        build_version: 3,
        revision_version: 4,
        bootstrap_dll_path: None,
    };

    let (major_minor, minimum) = bootstrap_version(&options).unwrap();

    assert_eq!(major_minor, 0x0002_0002);
    assert_eq!(minimum.Major, 2);
    assert_eq!(minimum.Minor, 2);
    assert_eq!(minimum.Build, 3);
    assert_eq!(minimum.Revision, 4);
}

#[test]
fn bootstrap_version_rejects_components_larger_than_u16() {
    let options = WinAppSdkBootstrapOptions {
        major_version: u16::MAX as u32 + 1,
        minor_version: 0,
        build_version: 0,
        revision_version: 0,
        bootstrap_dll_path: None,
    };

    assert!(bootstrap_version(&options).is_err());
}

#[test]
fn bootstrap_version_reports_the_first_component_that_does_not_fit() {
    let options = WinAppSdkBootstrapOptions {
        major_version: 1,
        minor_version: 8,
        build_version: 70000,
        revision_version: 70000,
        bootstrap_dll_path: None,
    };
    let error = bootstrap_version(&options).unwrap_err();
    assert_eq!(error, BootstrapError::VersionComponent(VersionPart::Build));
    assert_eq!(error.code(), 0x80070057u32 as i32);
    assert!(error.message().contains("build version component"));
    assert_eq!(version_component(65535, VersionPart::Minor), Ok(65535));
    assert_eq!(
        version_component(65536, VersionPart::Minor),
        Err(BootstrapError::VersionComponent(VersionPart::Minor))
    );
    let release = WinAppSdkBootstrapOptions::release(1, 8);
    assert_eq!(bootstrap_version(&release).unwrap().0, 0x0001_0008);
}

#[test]
fn bootstrap_path_prefers_the_options_and_refuses_blank_paths() {
    assert_eq!(
        bootstrap_dll_path(Some("a.dll".to_string()), Some("b.dll".to_string())).unwrap(),
        "a.dll"
    );
    assert_eq!(bootstrap_dll_path(None, Some("b.dll".to_string())).unwrap(), "b.dll");
    assert_eq!(
        bootstrap_dll_path(Some("  ".to_string()), Some("b.dll".to_string())),
        Err(BootstrapError::MissingBootstrapPath)
    );
    assert_eq!(bootstrap_dll_path(None, None), Err(BootstrapError::MissingBootstrapPath));
    assert_eq!(
        BootstrapError::MissingBootstrapPath.code(),
        0x80070057u32 as i32
    );
}

#[test]
fn runtime_packages_are_recognized_by_their_name_prefix() {
    assert!(is_runtime_package(
        "Microsoft.WindowsAppRuntime.1.8_8000.616.304.0_x64__8wekyb3d8bbwe"
    ));
    assert!(!is_runtime_package("Microsoft.WindowsAppRuntime"));
    assert!(!is_runtime_package("Contoso.App_1.0.0.0_x64__abc"));
    let word = std::mem::size_of::<usize>();
    assert_eq!(package_buffer_words(0), 0);
    assert_eq!(package_buffer_words(1), 1);
    assert_eq!(package_buffer_words(word as u32), 1);
    assert_eq!(package_buffer_words(word as u32 + 1), 2);
}
