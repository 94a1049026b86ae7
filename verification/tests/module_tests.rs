use dynwinrt::error::Win32Error;
use dynwinrt::win32_module::{is_bare_system_module_name, module_key, ModuleCache, SystemModule};

#[test]
fn module_names_fail_before_native_loading() {
    let mut cache = ModuleCache::new();
    for dll in [
        "",
        "mfplat",
        r"C:\Windows\System32\mfplat.dll",
        r"..\mfplat.dll",
        "../mfplat.dll",
        "bad\0.dll",
    ] {
        assert!(cache
            .get_or_load(dll, |_| panic!("invalid DLL name reached the loader"))
            .is_err());
    }
    assert!(is_bare_system_module_name("kernel32.dll"));
    assert!(is_bare_system_module_name("winspool.drv"));
}

#[test]
fn failed_loads_are_not_cached_and_names_share_one_module() {
    let mut cache = ModuleCache::new();
    let failure = cache.get_or_load("kernel32.dll", |_| Err(Win32Error::Native(0x8007007Eu32 as i32)));
    assert_eq!(failure.unwrap_err(), Win32Error::Native(0x8007007Eu32 as i32));
    let mut loaded_as = String::new();
    let module = cache
        .get_or_load("KERNEL32.dll", |name| {
            loaded_as = name.to_string();
            Ok(SystemModule::new(name.to_string(), 0x7ff0_0000))
        })
        .unwrap();
    assert_eq!(loaded_as, "kernel32.dll");
    let reused = cache
        .get_or_load("kernel32.DLL", |_| panic!("cached module loaded again"))
        .unwrap();
    assert_eq!(reused.handle(), module.handle());
    assert_eq!(reused.name(), "kernel32.dll");
    assert_eq!(module_key("WinSpool.Drv").unwrap(), "winspool.drv");
    assert_eq!(module_key("a/b.dll"), Err(Win32Error::InvalidModuleName));
}

#[test]
fn publishing_a_second_module_under_a_cached_key_returns_the_cached_one() {
    let mut cache = ModuleCache::new();
    let (first, loser) = cache.publish("user32.dll".to_string(), SystemModule::new("user32.dll".to_string(), 1));
    assert!(loser.is_none());
    let (second, loser) = cache.publish("user32.dll".to_string(), SystemModule::new("user32.dll".to_string(), 2));
    assert_eq!(second.handle(), first.handle());
    assert_eq!(loser.unwrap().handle(), 2);
    assert_eq!(cache.lookup(&"user32.dll".to_string()).unwrap().handle(), 1);
    assert!(cache.lookup(&"gdi32.dll".to_string()).is_none());
}

#[test]
fn missing_exports_name_the_export_and_the_module() {
    let error = Win32Error::ExportNotFound {
        export: "NoSuchExport".to_string(),
        module: "kernel32.dll".to_string(),
    };
    assert_eq!(error.message(), "Export `NoSuchExport` was not found in `kernel32.dll`");
    assert_eq!(error.code(), 0x8007007Fu32 as i32);
}
