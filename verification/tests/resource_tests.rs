use dynwinrt::win32::{hresult_from_win32, ReleaseReport};
use dynwinrt::error::Win32Error;
use dynwinrt::win32::Cleanup;
use dynwinrt::win32_resource::{CloseStep, OwnedResource, ResourceAccess, ResourceTable};

fn event() -> OwnedResource {
    OwnedResource::adopt(0x44, Cleanup::CloseHandle).unwrap()
}

fn close(resource: &mut OwnedResource) -> Result<(), Win32Error> {
    match resource.begin_close()? {
        CloseStep::Done => Ok(()),
        CloseStep::Release { .. } => resource.finish_close(Ok(())),
    }
}

#[test]
fn generic_access_excludes_consumption_and_mutation_until_all_retained_leases_drop() {
    let mut owner = event();
    let mut first = owner.async_lease(Cleanup::CloseHandle).unwrap();
    let second = owner.async_lease(Cleanup::CloseHandle).unwrap();
    first.mark_active(&mut owner);
    first.mark_inactive(&mut owner);
    assert!(!owner.has_active_async_io());
    assert!(owner.has_async_leases());
    for access in [ResourceAccess::Consume, ResourceAccess::MutateState("native state")] {
        assert!(owner.lock_for_call(access).is_err());
    }
    assert_eq!(
        owner.lock_for_call(ResourceAccess::MutateState("native state")).unwrap_err().message(),
        "cannot change native state while asynchronous I/O is pending"
    );
    let borrow = owner.lock_for_call(ResourceAccess::Borrow).unwrap();
    assert_eq!(borrow, first.raw());
    assert!(close(&mut owner).is_err());
    owner.release_async_lease(first);
    assert!(owner.lock_for_call(ResourceAccess::Consume).is_err());
    owner.release_async_lease(second);
    owner.lock_for_call(ResourceAccess::MutateState("native state")).unwrap();
    close(&mut owner).unwrap();
    assert!(owner.is_closed());
}

#[test]
fn typed_file_state_shares_owner_identity_without_guessing_unknown_mode_bits() {
    let mut owner = event();
    let other = OwnedResource::adopt(0x48, Cleanup::CloseHandle).unwrap();
    owner.record_completion_modes(1);
    assert_eq!(owner.file_capability().cached_completion_modes(), None);
    owner.set_known_completion_modes(2);
    owner.record_completion_modes(1);
    owner.record_completion_modes(0);
    assert_eq!(owner.file_capability().cached_completion_modes(), Some(3));
    assert_eq!(other.file_capability().cached_completion_modes(), None);
}

#[test]
fn failed_resource_close_retains_exact_value_for_retry() {
    let mut resource = OwnedResource::adopt(0x1234, Cleanup::RegCloseKey).unwrap();
    match resource.begin_close().unwrap() {
        CloseStep::Release { value, cleanup } => {
            assert_eq!(value, 0x1234);
            assert_eq!(cleanup, Cleanup::RegCloseKey);
        }
        CloseStep::Done => panic!("an open resource needs a native release"),
    }
    let error = resource.finish_close(Err(0x80070005u32 as i32)).unwrap_err();
    assert_eq!(error, Win32Error::Native(0x80070005u32 as i32));
    assert_eq!(resource.raw(), 0x1234);
    assert!(!resource.is_closed());
    close(&mut resource).unwrap();
    assert!(resource.is_closed());
    assert_eq!(resource.begin_close().unwrap(), CloseStep::Done);
}

#[test]
fn adoption_requires_a_nonzero_value_and_an_owning_cleanup() {
    assert_eq!(
        OwnedResource::adopt(0, Cleanup::CloseHandle).unwrap_err(),
        Win32Error::InvalidOwnedResource
    );
    assert_eq!(
        OwnedResource::adopt(5, Cleanup::NotOwned).unwrap_err(),
        Win32Error::InvalidOwnedResource
    );
    let resource = OwnedResource::adopt(5, Cleanup::GlobalFree).unwrap();
    assert_eq!(resource.raw(), 5);
    assert_eq!(resource.cleanup(), Cleanup::GlobalFree);
    assert!(resource.lease(Cleanup::CloseHandle).is_err());
    assert_eq!(resource.lease(Cleanup::GlobalFree).unwrap().raw(), 5);
}

#[test]
fn consuming_call_lock_rejects_an_async_lease() {
    let mut resource = OwnedResource::adopt(0x2000, Cleanup::GlobalFree).unwrap();
    let lease = resource.async_lease(Cleanup::GlobalFree).unwrap();
    let error = resource.lock_for_call(ResourceAccess::Consume).unwrap_err();
    assert!(error.message().contains("asynchronous I/O is pending"));
    resource.release_async_lease(lease);
    assert_eq!(resource.lock_for_call(ResourceAccess::Consume).unwrap(), 0x2000);
    close(&mut resource).unwrap();
}

#[test]
fn table_identities_follow_insertion_order() {
    let mut table = ResourceTable::new();
    let a = table.insert(OwnedResource::adopt(1, Cleanup::CloseHandle).unwrap());
    let b = table.insert(OwnedResource::adopt(2, Cleanup::CloseHandle).unwrap());
    assert_eq!(a.0, 0);
    assert_eq!(b.0, 1);
    assert_eq!(table.get(b).raw(), 2);
    assert_eq!(table.get(a).id(), a);
    assert_eq!(table.len(), 2);
}

#[test]
fn native_release_reports_become_hresults() {
    assert_eq!(Cleanup::RegCloseKey.release_outcome(ReleaseReport::Status(0)), Ok(()));
    assert_eq!(
        Cleanup::RegCloseKey.release_outcome(ReleaseReport::Status(6)),
        Err(0x80070006u32 as i32)
    );
    assert_eq!(
        Cleanup::LocalFree.release_outcome(ReleaseReport::Remaining { remaining: 0x10, last_error: 87 }),
        Err(0x80070057u32 as i32)
    );
    assert_eq!(
        Cleanup::GlobalFree.release_outcome(ReleaseReport::Remaining { remaining: 0, last_error: 87 }),
        Ok(())
    );
    assert_eq!(
        Cleanup::CloseHandle.release_outcome(ReleaseReport::Succeeded { succeeded: false, last_error: 6 }),
        Err(0x80070006u32 as i32)
    );
    assert_eq!(Cleanup::CredFree.release_outcome(ReleaseReport::Nothing), Ok(()));
    assert_eq!(hresult_from_win32(0), 0);
    assert_eq!(hresult_from_win32(0x1_0005), 0x80070005u32 as i32);
}
