use dynwinrt::error::Win32Error;
use dynwinrt::win32_io::{submission_step, IoError, SubmitAction, SubmitEvent, SubmitState};
use dynwinrt::win32_io::{CancelRequest, IoCancellation, OperationRegistry};
use dynwinrt::win32::Cleanup;
use dynwinrt::win32_io::{
    classify_submission, completion_result, is_read_eof, prepare_io, validate_capacity,
    validate_operation_buffer, win32_error_code, CapacityPermit, CapacityUsage, IoCompletion,
    IoErrorKind, IoFunction, IoKind, SubmitDecision, Submission, ERROR_HANDLE_EOF,
    ERROR_IO_PENDING, ERROR_OPERATION_ABORTED, MAX_OPERATION_BUFFER_BYTES,
    MAX_PENDING_BUFFER_BYTES, MAX_PENDING_OPERATIONS,
};
use dynwinrt::win32_resource::OwnedResource;

#[test]
fn capacity_bounds_operations_and_native_buffers() {
    validate_capacity(MAX_PENDING_OPERATIONS - 1, 0, 1).unwrap();
    assert!(validate_capacity(MAX_PENDING_OPERATIONS, 0, 1)
        .unwrap_err()
        .message()
        .contains("operation limit"));
    validate_capacity(0, MAX_PENDING_BUFFER_BYTES - 1, 1).unwrap();
    assert!(validate_capacity(0, MAX_PENDING_BUFFER_BYTES, 1)
        .unwrap_err()
        .message()
        .contains("Buffer limit"));
    assert!(validate_operation_buffer(MAX_OPERATION_BUFFER_BYTES + 1)
        .unwrap_err()
        .message()
        .contains("operation Buffer"));
    assert!(validate_capacity(0, usize::MAX, 1)
        .unwrap_err()
        .message()
        .contains("accounting overflow"));
    let mut capacity = CapacityUsage::default();
    let permit = CapacityPermit::acquire(&mut capacity, 16).unwrap();
    assert_eq!(
        capacity,
        CapacityUsage {
            operations: 1,
            buffer_bytes: 16,
        }
    );
    permit.release(&mut capacity);
    assert_eq!(capacity, CapacityUsage::default());
    let hresult = 0x8007_0000u32.wrapping_add(ERROR_IO_PENDING) as i32;
    assert_eq!(win32_error_code(hresult), ERROR_IO_PENDING);
}

#[test]
fn byte_capacity_and_operation_capacity_are_independent_and_failure_is_transactional() {
    let base = MAX_PENDING_BUFFER_BYTES - MAX_OPERATION_BUFFER_BYTES;
    let mut capacity = CapacityUsage {
        operations: 0,
        buffer_bytes: base,
    };
    let permit = CapacityPermit::acquire(&mut capacity, MAX_OPERATION_BUFFER_BYTES).unwrap();
    assert_eq!((capacity.operations, capacity.buffer_bytes), (1, MAX_PENDING_BUFFER_BYTES));
    assert!(CapacityPermit::acquire(&mut capacity, 1).is_err());
    assert_eq!((capacity.operations, capacity.buffer_bytes), (1, MAX_PENDING_BUFFER_BYTES));
    let zero = CapacityPermit::acquire(&mut capacity, 0).unwrap();
    assert_eq!((capacity.operations, capacity.buffer_bytes), (2, MAX_PENDING_BUFFER_BYTES));
    zero.release(&mut capacity);
    permit.release(&mut capacity);
    assert_eq!((capacity.operations, capacity.buffer_bytes), (0, base));
    assert!(CapacityPermit::acquire(&mut capacity, MAX_OPERATION_BUFFER_BYTES + 1).is_err());
    assert_eq!((capacity.operations, capacity.buffer_bytes), (0, base));
}

#[test]
fn submissions_and_completions_are_classified_by_their_win32_codes() {
    assert_eq!(
        classify_submission(IoKind::Read, Some(ERROR_IO_PENDING), 0),
        SubmitDecision::Await(Submission::Pending)
    );
    assert_eq!(
        classify_submission(IoKind::Read, Some(ERROR_HANDLE_EOF), 0),
        SubmitDecision::DeliverEof
    );
    match classify_submission(IoKind::Write, Some(ERROR_HANDLE_EOF), 0) {
        SubmitDecision::Fail(error) => {
            assert_eq!(*error.kind(), IoErrorKind::Native(IoFunction::WriteFile));
            assert_eq!(error.code(), Some(ERROR_HANDLE_EOF));
            assert!(error.message().contains("WriteFile failed with Win32 error 38"));
        }
        other => panic!("unexpected decision {other:?}"),
    }
    assert_eq!(classify_submission(IoKind::Write, None, 1), SubmitDecision::DeliverInline);
    assert_eq!(
        classify_submission(IoKind::Write, None, 0),
        SubmitDecision::Await(Submission::CompletionPacket)
    );
    assert_eq!(completion_result(IoKind::Read, 7, None), Ok(7));
    assert_eq!(completion_result(IoKind::Read, 7, Some(109)), Ok(0));
    let aborted = completion_result(IoKind::Read, 0, Some(ERROR_OPERATION_ABORTED)).unwrap_err();
    assert_eq!(*aborted.kind(), IoErrorKind::Native(IoFunction::OverlappedOperation));
    assert!(is_read_eof(IoKind::Read, 109));
    assert!(!is_read_eof(IoKind::Write, 109));
}

#[test]
fn prepared_operations_hold_their_lease_and_capacity_until_retired() {
    let mut resource = OwnedResource::adopt(0x100, Cleanup::CloseHandle).unwrap();
    let mut capacity = CapacityUsage::new();
    let io = prepare_io(&mut resource, &mut capacity, IoKind::Write, 3, &vec![1, 2, 3], 10).unwrap();
    assert_eq!(io.buffer, vec![1, 2, 3]);
    assert_eq!(io.offset, 10);
    assert_eq!(capacity.operations, 1);
    assert_eq!(capacity.buffer_bytes, 3);
    assert!(resource.has_async_leases());
    let completion = IoCompletion::deliver(io, &mut resource, 3, None);
    assert_eq!(completion.kind(), IoKind::Write);
    assert_eq!(completion.result(), Ok(3));
    assert_eq!(completion.buffer(), &vec![1, 2, 3]);
    completion.retire(&mut resource, &mut capacity);
    assert_eq!(capacity, CapacityUsage::new());
    assert!(!resource.has_async_leases());

    let mut borrowed = OwnedResource::adopt(0x200, Cleanup::RegCloseKey).unwrap();
    let refused = prepare_io(&mut borrowed, &mut capacity, IoKind::Read, 4, &vec![], 0).unwrap_err();
    assert_eq!(*refused.kind(), IoErrorKind::NeedsCloseHandle);
    assert_eq!(capacity, CapacityUsage::new());
    let mut invalid = OwnedResource::adopt(usize::MAX, Cleanup::CloseHandle).unwrap();
    let refused = prepare_io(&mut invalid, &mut capacity, IoKind::Read, 4, &vec![], 0).unwrap_err();
    assert_eq!(*refused.kind(), IoErrorKind::InvalidFileHandle);
    assert_eq!(capacity, CapacityUsage::new());
    assert!(!invalid.has_async_leases());
}

#[test]
fn cancellation_targets_only_active_operations() {
    let mut cancellation = IoCancellation::new();
    assert_eq!(cancellation.cancel(), None);
    assert!(cancellation.is_cancelled());
    cancellation.activate(0x40, 0x1000);
    assert_eq!(
        cancellation.cancel(),
        Some(CancelRequest { handle: 0x40, overlapped: 0x1000 })
    );
    cancellation.deactivate();
    assert_eq!(cancellation.cancel(), None);

    let mut registry: OperationRegistry<&str> = OperationRegistry::new();
    registry.register(0x1000, "first").unwrap();
    let (error, back) = registry.register(0x1000, "second").unwrap_err();
    assert_eq!(*error.kind(), IoErrorKind::DuplicateOperation);
    assert_eq!(back, "second");
    assert!(registry.contains(0x1000));
    assert_eq!(registry.remove(0x1000), Some("first"));
    assert_eq!(registry.remove(0x1000), None);
    assert!(!registry.contains(0x1000));
}

#[test]
fn completion_deactivation_removes_addresses_before_late_cancellation() {
    let mut state = IoCancellation::new();
    let event = OwnedResource::adopt(0x90, Cleanup::CloseHandle).unwrap();
    let overlapped = 0x7f00usize;
    state.activate(event.raw(), overlapped);
    assert_eq!(state.target(), Some(CancelRequest { handle: 0x90, overlapped }));
    state.deactivate();
    assert_eq!(state.cancel(), None);
    assert_eq!(state.cancel(), None);
    assert_eq!(state.target(), None);
    assert!(state.is_cancelled());
}

#[test]
fn submissions_step_through_association_modes_registration_and_the_call() {
    let (state, action) =
        submission_step(IoKind::Read, SubmitState::Start, SubmitEvent::Begin { cancelled: true });
    assert_eq!(state, SubmitState::Finished);
    assert_eq!(action, SubmitAction::Withdraw(IoError::new(IoErrorKind::Aborted)));

    let (state, action) =
        submission_step(IoKind::Read, SubmitState::Start, SubmitEvent::Begin { cancelled: false });
    assert_eq!((state, action), (SubmitState::Associating, SubmitAction::Associate));
    let (state, action) =
        submission_step(IoKind::Read, state, SubmitEvent::Associated { error: None });
    assert_eq!((state, action), (SubmitState::QueryingModes, SubmitAction::QueryModes));
    let (state, action) =
        submission_step(IoKind::Read, state, SubmitEvent::ModesQueried { result: Ok(1) });
    assert_eq!((state, action), (SubmitState::Registering { modes: 1 }, SubmitAction::Register));
    let (state, action) =
        submission_step(IoKind::Read, state, SubmitEvent::Registered { duplicate: false });
    assert_eq!((state, action), (SubmitState::Calling { modes: 1 }, SubmitAction::Call));
    let (state, action) = submission_step(
        IoKind::Read,
        state,
        SubmitEvent::Called { error: None, cancelled: false },
    );
    assert_eq!((state, action), (SubmitState::QueryingInline, SubmitAction::QueryInline));
    let (state, action) = submission_step(
        IoKind::Read,
        state,
        SubmitEvent::InlineQueried { transferred: 5, error: None },
    );
    assert_eq!(state, SubmitState::Finished);
    assert_eq!(action, SubmitAction::Deliver { transferred: 5, error: None, inline: true });
    let (state, action) = submission_step(
        IoKind::Read,
        state,
        SubmitEvent::Packet { transferred: 5, error: None },
    );
    assert_eq!((state, action), (SubmitState::Finished, SubmitAction::Ignore));

    let (state, action) = submission_step(
        IoKind::Write,
        SubmitState::Calling { modes: 0 },
        SubmitEvent::Called { error: Some(ERROR_IO_PENDING), cancelled: true },
    );
    assert_eq!(state, SubmitState::Awaiting);
    assert_eq!(
        action,
        SubmitAction::Await { submission: Submission::Pending, cancel_again: true }
    );
    let (_, action) = submission_step(
        IoKind::Write,
        state,
        SubmitEvent::Packet { transferred: 0, error: Some(ERROR_OPERATION_ABORTED) },
    );
    assert_eq!(
        action,
        SubmitAction::Deliver { transferred: 0, error: Some(ERROR_OPERATION_ABORTED), inline: false }
    );
    let (_, action) = submission_step(
        IoKind::Write,
        SubmitState::Calling { modes: 0 },
        SubmitEvent::Called { error: Some(5), cancelled: false },
    );
    assert_eq!(action, SubmitAction::Fail(IoError::native(IoFunction::WriteFile, 5)));
    let (_, action) = submission_step(
        IoKind::Read,
        SubmitState::Calling { modes: 0 },
        SubmitEvent::Called { error: Some(ERROR_HANDLE_EOF), cancelled: false },
    );
    assert_eq!(action, SubmitAction::Deliver { transferred: 0, error: None, inline: true });
    let (_, action) = submission_step(
        IoKind::Read,
        SubmitState::Associating,
        SubmitEvent::Associated { error: Some(Win32Error::DifferentCompletionPort) },
    );
    assert_eq!(
        action,
        SubmitAction::Withdraw(IoError::new(IoErrorKind::Resource(Win32Error::DifferentCompletionPort)))
    );
    let (_, action) = submission_step(
        IoKind::Read,
        SubmitState::Registering { modes: 0 },
        SubmitEvent::Registered { duplicate: true },
    );
    assert_eq!(action, SubmitAction::Withdraw(IoError::new(IoErrorKind::DuplicateOperation)));
}

#[test]
fn completion_mode_queries_cache_their_flags_only_on_success() {
    let mut file = OwnedResource::adopt(0x88, Cleanup::CloseHandle).unwrap();
    let lease = file.async_lease(Cleanup::CloseHandle).unwrap();
    assert_eq!(
        lease.settle_completion_mode_query(&mut file, 0xC000_0008u32 as i32, 3),
        Err(Win32Error::Native(0xD000_0008u32 as i32))
    );
    assert_eq!(file.file_capability().cached_completion_modes(), None);
    assert_eq!(lease.settle_completion_mode_query(&mut file, 0, 3), Ok(3));
    assert_eq!(file.file_capability().cached_completion_modes(), Some(3));
    file.record_completion_modes(4);
    assert_eq!(file.file_capability().cached_completion_modes(), Some(7));
    file.release_async_lease(lease);
}
