//! Bounded native file I/O: the capacity that pending operations may hold,
//! the preparation of an operation's private storage and lease, and the
//! classification of what the native submission and completion report.

use std::collections::HashMap;
use vstd::prelude::*;
use vstd::string::StringExecFns;

use crate::error::Win32Error;
use crate::win32::Cleanup;
use crate::win32_resource::{OwnedResource, OwnedResourceAsyncLease};

verus! {

pub const COMPLETION_WORKERS_MAX: usize = 4;

pub const MAX_PENDING_OPERATIONS: usize = 1024;

pub const MAX_OPERATION_BUFFER_BYTES: usize = 67108864usize;

pub const MAX_PENDING_BUFFER_BYTES: usize = 268435456usize;

pub const ERROR_IO_PENDING: u32 = 997;

pub const ERROR_OPERATION_ABORTED: u32 = 995;

pub const ERROR_HANDLE_EOF: u32 = 38;

pub const ERROR_BROKEN_PIPE: u32 = 109;

pub const ERROR_NOT_FOUND: u32 = 1168;

/// The completion mode under which a synchronous success posts no packet.
pub const FILE_SKIP_COMPLETION_PORT_ON_SUCCESS: u32 = 1;

#[derive(Clone, Copy, Debug, PartialEq, Eq, Structural)]
pub enum IoKind {
    Read,
    Write,
}

#[derive(Clone, Copy, Debug, PartialEq, Eq, Structural)]
pub enum Submission {
    Pending,
    CompletionPacket,
    Inline,
}

/// The native function whose failure an [`IoError`] reports.
#[derive(Clone, Copy, Debug, PartialEq, Eq, Structural)]
pub enum IoFunction {
    ReadFile,
    WriteFile,
    OverlappedOperation,
    IocpCompletion,
}

/// Why an I/O request failed.
#[derive(Clone, Debug, PartialEq, Eq)]
pub enum IoErrorKind {
    OperationBufferTooLarge,
    PendingOperationLimit,
    BufferAccountingOverflow,
    PendingBufferLimit,
    NeedsCloseHandle,
    InvalidFileHandle,
    Aborted,
    DuplicateOperation,
    Resource(Win32Error),
    Native(IoFunction),
}

#[derive(Clone, Debug, PartialEq, Eq)]
pub struct IoError {
    pub kind: IoErrorKind,
    pub code: Option<u32>,
}

impl IoError {
    pub open spec fn spec_kind(self) -> IoErrorKind {
        self.kind
    }

    pub open spec fn spec_code(self) -> Option<u32> {
        self.code
    }

    /// An error that no native code accompanies.
    pub fn new(kind: IoErrorKind) -> (r: Self)
        ensures
            r.spec_kind() == kind,
            r.spec_code() == None::<u32>,
    {
        IoError { kind, code: None }
    }

    /// A native function's failure with its Win32 error code.
    pub fn native(function: IoFunction, code: u32) -> (r: Self)
        ensures
            r.spec_kind() == IoErrorKind::Native(function),
            r.spec_code() == Some(code),
    {
        IoError { kind: IoErrorKind::Native(function), code: Some(code) }
    }

    pub fn kind(&self) -> (r: &IoErrorKind)
        ensures
            *r == self.spec_kind(),
    {
        &self.kind
    }

    pub fn code(&self) -> (r: Option<u32>)
        ensures
            r == self.spec_code(),
    {
        self.code
    }

    /// The name of the native function in the text of its failure.
    pub open spec fn spec_function_name(function: IoFunction) -> Seq<char> {
        match function {
            IoFunction::ReadFile => "ReadFile"@,
            IoFunction::WriteFile => "WriteFile"@,
            IoFunction::OverlappedOperation => "OVERLAPPED operation"@,
            IoFunction::IocpCompletion => "IOCP completion"@,
        }
    }

    /// Whether `text` is this error's human readable text. A native code
    /// appears in the decimal text that `to_string` gives for it.
    pub open spec fn spec_message_is(self, text: Seq<char>) -> bool {
        match self.kind {
            IoErrorKind::OperationBufferTooLarge => text == "IOCP operation Buffer exceeds the 67108864 byte limit"@,
            IoErrorKind::PendingOperationLimit => text == "IOCP pending operation limit (1024) was reached"@,
            IoErrorKind::BufferAccountingOverflow => text == "IOCP pending Buffer accounting overflow"@,
            IoErrorKind::PendingBufferLimit => text == "IOCP pending native Buffer limit (268435456 bytes) would be exceeded"@,
            IoErrorKind::NeedsCloseHandle => text == "OVERLAPPED I/O requires a CloseHandle resource"@,
            IoErrorKind::InvalidFileHandle => text == "OVERLAPPED I/O requires a valid file HANDLE"@,
            IoErrorKind::Aborted => text == "OVERLAPPED operation was aborted"@,
            IoErrorKind::DuplicateOperation => text == "duplicate OVERLAPPED operation address"@,
            IoErrorKind::Resource(error) => error.spec_message_is(text),
            IoErrorKind::Native(function) => {
                let prefix = Self::spec_function_name(function) + " failed with Win32 error "@;
                match self.code {
                    Some(code) => exists|c: String|
                        #![trigger vstd::string::to_string_from_display_ensures::<u32>(&code, c)]
                        vstd::string::to_string_from_display_ensures::<u32>(&code, c) && text
                            == prefix + c@,
                    None => text == prefix,
                }
            },
        }
    }

    /// The human readable text of the error.
    pub fn message(&self) -> (r: String)
        ensures
            self.spec_message_is(r@),
    {
        match &self.kind {
            IoErrorKind::OperationBufferTooLarge => String::from_str(
                "IOCP operation Buffer exceeds the 67108864 byte limit",
            ),
            IoErrorKind::PendingOperationLimit => String::from_str(
                "IOCP pending operation limit (1024) was reached",
            ),
            IoErrorKind::BufferAccountingOverflow => String::from_str(
                "IOCP pending Buffer accounting overflow",
            ),
            IoErrorKind::PendingBufferLimit => String::from_str(
                "IOCP pending native Buffer limit (268435456 bytes) would be exceeded",
            ),
            IoErrorKind::NeedsCloseHandle => String::from_str(
                "OVERLAPPED I/O requires a CloseHandle resource",
            ),
            IoErrorKind::InvalidFileHandle => String::from_str(
                "OVERLAPPED I/O requires a valid file HANDLE",
            ),
            IoErrorKind::Aborted => String::from_str("OVERLAPPED operation was aborted"),
            IoErrorKind::DuplicateOperation => String::from_str(
                "duplicate OVERLAPPED operation address",
            ),
            IoErrorKind::Resource(error) => error.message(),
            IoErrorKind::Native(function) => {
                let mut text = String::from_str(
                    match function {
                        IoFunction::ReadFile => "ReadFile",
                        IoFunction::WriteFile => "WriteFile",
                        IoFunction::OverlappedOperation => "OVERLAPPED operation",
                        IoFunction::IocpCompletion => "IOCP completion",
                    },
                );
                text.append(" failed with Win32 error ");
                match self.code {
                    Some(code) => {
                        let c = code.to_string();
                        text.append(c.as_str());
                        assert(vstd::string::to_string_from_display_ensures::<u32>(&code, c));
                    },
                    None => {},
                }
                text
            },
        }
    }
}

/// Whether an error code ends a read at the end of its data.
pub open spec fn spec_is_read_eof(kind: IoKind, error: u32) -> bool {
    kind == IoKind::Read && (error == ERROR_HANDLE_EOF || error == ERROR_BROKEN_PIPE)
}

pub fn is_read_eof(kind: IoKind, error: u32) -> (r: bool)
    ensures
        r == spec_is_read_eof(kind, error),
{
    match kind {
        IoKind::Read => error == ERROR_HANDLE_EOF || error == ERROR_BROKEN_PIPE,
        IoKind::Write => false,
    }
}

/// The Win32 error code inside an HRESULT: the low 16 bits of a Win32
/// facility failure, the HRESULT's own bits otherwise.
pub open spec fn spec_win32_error_code(hresult: u32) -> u32 {
    if hresult & 0xffff_0000u32 == 0x8007_0000u32 {
        hresult & 0xffffu32
    } else {
        hresult
    }
}

pub fn win32_error_code(hresult: i32) -> (r: u32)
    ensures
        r == spec_win32_error_code(hresult as u32),
{
    let code = hresult as u32;
    if code & 0xffff_0000u32 == 0x8007_0000u32 {
        code & 0xffffu32
    } else {
        code
    }
}

pub fn validate_operation_buffer(bytes: usize) -> (r: Result<(), IoError>)
    ensures
        bytes > MAX_OPERATION_BUFFER_BYTES ==> r == Err::<(), IoError>(
            (IoError { kind: IoErrorKind::OperationBufferTooLarge, code: None }),
        ),
        bytes <= MAX_OPERATION_BUFFER_BYTES ==> r == Ok::<(), IoError>(()),
{
    if bytes > MAX_OPERATION_BUFFER_BYTES {
        return Err(IoError::new(IoErrorKind::OperationBufferTooLarge));
    }
    Ok(())
}

/// Why pending work of `operations` operations holding `bytes` bytes cannot
/// admit one more operation of `requested` bytes, in the order of the checks.
pub open spec fn capacity_error(operations: usize, bytes: usize, requested: usize) -> Option<
    IoErrorKind,
> {
    if requested > MAX_OPERATION_BUFFER_BYTES {
        Some(IoErrorKind::OperationBufferTooLarge)
    } else if operations >= MAX_PENDING_OPERATIONS {
        Some(IoErrorKind::PendingOperationLimit)
    } else if bytes + requested > usize::MAX {
        Some(IoErrorKind::BufferAccountingOverflow)
    } else if bytes + requested > MAX_PENDING_BUFFER_BYTES {
        Some(IoErrorKind::PendingBufferLimit)
    } else {
        None
    }
}

pub fn validate_capacity(operations: usize, bytes: usize, requested: usize) -> (r: Result<
    (),
    IoError,
>)
    ensures
        r is Ok <==> capacity_error(operations, bytes, requested) is None,
        r matches Err(e) ==> Some(e.spec_kind()) == capacity_error(operations, bytes, requested)
            && e.spec_code() is None,
        r is Ok ==> r == Ok::<(), IoError>(()),
{
    match validate_operation_buffer(requested) {
        Err(e) => {
            return Err(e);
        },
        Ok(()) => {},
    }
    if operations >= MAX_PENDING_OPERATIONS {
        return Err(IoError::new(IoErrorKind::PendingOperationLimit));
    }
    let total = match bytes.checked_add(requested) {
        Some(total) => total,
        None => {
            return Err(IoError::new(IoErrorKind::BufferAccountingOverflow));
        },
    };
    if total > MAX_PENDING_BUFFER_BYTES {
        return Err(IoError::new(IoErrorKind::PendingBufferLimit));
    }
    Ok(())
}

/// The operations and buffer bytes that pending native I/O holds.
#[derive(Clone, Copy, Debug, Default, PartialEq, Eq, Structural)]
pub struct CapacityUsage {
    pub operations: usize,
    pub buffer_bytes: usize,
}

impl CapacityUsage {
    /// Usage never exceeds the pending limits.
    pub open spec fn within_limits(self) -> bool {
        self.operations <= MAX_PENDING_OPERATIONS && self.buffer_bytes <= MAX_PENDING_BUFFER_BYTES
    }

    pub fn new() -> (r: Self)
        ensures
            r.operations == 0 && r.buffer_bytes == 0,
    {
        CapacityUsage { operations: 0, buffer_bytes: 0 }
    }
}

/// A reservation of one operation and its buffer bytes.
#[derive(Debug)]
pub struct CapacityPermit {
    buffer_bytes: usize,
}

impl CapacityPermit {
    pub closed spec fn spec_buffer_bytes(self) -> usize {
        self.buffer_bytes
    }

    /// Reserves one operation of `buffer_bytes` bytes, or refuses without
    /// changing the usage.
    pub fn acquire(capacity: &mut CapacityUsage, buffer_bytes: usize) -> (r: Result<
        CapacityPermit,
        IoError,
    >)
        ensures
            r is Ok <==> capacity_error(
                old(capacity).operations,
                old(capacity).buffer_bytes,
                buffer_bytes,
            ) is None,
            r matches Err(e) ==> Some(e.spec_kind()) == capacity_error(
                old(capacity).operations,
                old(capacity).buffer_bytes,
                buffer_bytes,
            ) && *final(capacity) == *old(capacity),
            r matches Ok(permit) ==> permit.spec_buffer_bytes() == buffer_bytes
                && final(capacity).operations == old(capacity).operations + 1
                && final(capacity).buffer_bytes == old(capacity).buffer_bytes + buffer_bytes,
    {
        match validate_capacity(capacity.operations, capacity.buffer_bytes, buffer_bytes) {
            Err(e) => {
                return Err(e);
            },
            Ok(()) => {},
        }
        capacity.operations = capacity.operations + 1;
        capacity.buffer_bytes = capacity.buffer_bytes + buffer_bytes;
        Ok(CapacityPermit { buffer_bytes })
    }

    /// Returns the reservation.
    pub fn release(self, capacity: &mut CapacityUsage)
        requires
            old(capacity).operations >= 1,
            old(capacity).buffer_bytes >= self.spec_buffer_bytes(),
        ensures
            final(capacity).operations == old(capacity).operations - 1,
            final(capacity).buffer_bytes == old(capacity).buffer_bytes - self.spec_buffer_bytes(),
    {
        capacity.operations = capacity.operations - 1;
        capacity.buffer_bytes = capacity.buffer_bytes - self.buffer_bytes;
    }
}

/// Work that is prepared but not yet owned by the OS: its private buffer,
/// the lease that keeps its file open and its capacity reservation.
#[derive(Debug)]
pub struct PreparedIo {
    pub kind: IoKind,
    pub lease: OwnedResourceAsyncLease,
    pub buffer: Vec<u8>,
    pub permit: CapacityPermit,
    pub offset: u64,
}

/// Why preparing an operation is refused, in the order of the checks.
pub open spec fn prepare_io_error(
    resource: OwnedResource,
    capacity: CapacityUsage,
    length: usize,
) -> Option<IoErrorKind> {
    if resource.spec_cleanup() != Cleanup::CloseHandle {
        Some(IoErrorKind::NeedsCloseHandle)
    } else if length > MAX_OPERATION_BUFFER_BYTES {
        Some(IoErrorKind::OperationBufferTooLarge)
    } else if capacity_error(capacity.operations, capacity.buffer_bytes, length) is Some {
        capacity_error(capacity.operations, capacity.buffer_bytes, length)
    } else if resource.spec_value() == 0 {
        Some(IoErrorKind::Resource(Win32Error::LeaseOfClosedResource))
    } else if resource.spec_value() == usize::MAX {
        Some(IoErrorKind::InvalidFileHandle)
    } else {
        None
    }
}

/// Prepares an operation on a file resource: a read of `length` bytes, or a
/// write of a private snapshot of `bytes`. A refusal leaves the resource and
/// the capacity as they were.
pub fn prepare_io(
    resource: &mut OwnedResource,
    capacity: &mut CapacityUsage,
    kind: IoKind,
    length: usize,
    bytes: &Vec<u8>,
    offset: u64,
) -> (r: Result<PreparedIo, IoError>)
    requires
        old(resource).spec_retained() < usize::MAX,
        kind == IoKind::Write ==> bytes@.len() == length,
    ensures
        final(resource).spec_evolves_from(*old(resource)),
        r is Ok <==> prepare_io_error(*old(resource), *old(capacity), length) is None,
        r matches Err(e) ==> Some(e.spec_kind()) == prepare_io_error(
            *old(resource),
            *old(capacity),
            length,
        ) && *final(resource) == *old(resource) && *final(capacity) == *old(capacity),
        r matches Ok(io) ==> {
            &&& io.kind == kind
            &&& io.offset == offset
            &&& io.lease.spec_raw() == old(resource).spec_value()
            &&& io.lease.spec_resource().0 == old(resource).spec_id()
            &&& !io.lease.spec_active()
            &&& io.permit.spec_buffer_bytes() == length
            &&& final(resource).spec_retained() == old(resource).spec_retained() + 1
            &&& final(resource).spec_value() == old(resource).spec_value()
            &&& final(resource).spec_id() == old(resource).spec_id()
            &&& final(resource).spec_active() == old(resource).spec_active()
            &&& final(resource).spec_cleanup() == old(resource).spec_cleanup()
            &&& final(resource).spec_file() == old(resource).spec_file()
            &&& final(capacity).operations == old(capacity).operations + 1
            &&& final(capacity).buffer_bytes == old(capacity).buffer_bytes + length
            &&& io.buffer@.len() == length
            &&& (kind == IoKind::Read ==> forall|i: int| 0 <= i < length ==> io.buffer@[i] == 0)
            &&& (kind == IoKind::Write ==> io.buffer@ == bytes@)
        },
{
    if resource.cleanup() != Cleanup::CloseHandle {
        return Err(IoError::new(IoErrorKind::NeedsCloseHandle));
    }
    match validate_operation_buffer(length) {
        Err(e) => {
            return Err(e);
        },
        Ok(()) => {},
    }
    let permit = match CapacityPermit::acquire(capacity, length) {
        Err(e) => {
            return Err(e);
        },
        Ok(permit) => permit,
    };
    let lease = match resource.async_lease(Cleanup::CloseHandle) {
        Err(e) => {
            permit.release(capacity);
            return Err(IoError::new(IoErrorKind::Resource(e)));
        },
        Ok(lease) => lease,
    };
    if lease.raw() == usize::MAX {
        let ghost before = *old(resource);
        resource.release_async_lease(lease);
        proof {
            resource.lemma_observably_equal(before);
        }
        permit.release(capacity);
        return Err(IoError::new(IoErrorKind::InvalidFileHandle));
    }
    let mut buffer: Vec<u8> = Vec::new();
    match kind {
        IoKind::Read => {
            let mut i: usize = 0;
            while i < length
                invariant
                    i <= length,
                    buffer@.len() == i,
                    forall|j: int| 0 <= j < i ==> buffer@[j] == 0,
                decreases length - i,
            {
                buffer.push(0);
                i = i + 1;
            }
        },
        IoKind::Write => {
            let mut i: usize = 0;
            while i < bytes.len()
                invariant
                    i <= bytes@.len(),
                    buffer@ == bytes@.subrange(0, i as int),
                decreases bytes@.len() - i,
            {
                buffer.push(bytes[i]);
                i = i + 1;
            }
            assert(buffer@ =~= bytes@);
        },
    }
    Ok(PreparedIo { kind, lease, buffer, permit, offset })
}

/// What follows the native `ReadFile`/`WriteFile` call of a submission.
#[derive(Clone, Debug, PartialEq, Eq)]
pub enum SubmitDecision {
    /// The call failed; the operation is withdrawn and the error returned.
    Fail(IoError),
    /// A read reached the end of its data: it is delivered now as zero bytes.
    DeliverEof,
    /// The call completed synchronously and no packet follows: its result is
    /// queried and delivered now.
    DeliverInline,
    /// The operation stays registered until its completion packet arrives.
    Await(Submission),
}

/// Classifies the outcome of the native submission call, given its Win32
/// error code (none on synchronous success) and the file's completion modes.
pub open spec fn spec_classify_submission(kind: IoKind, error: Option<u32>, completion_modes: u32) -> SubmitDecision {
    match error {
        Some(e) => if e != ERROR_IO_PENDING {
            if spec_is_read_eof(kind, e) {
                SubmitDecision::DeliverEof
            } else {
                SubmitDecision::Fail(
                    IoError {
                        kind: IoErrorKind::Native(
                            if kind == IoKind::Read {
                                IoFunction::ReadFile
                            } else {
                                IoFunction::WriteFile
                            },
                        ),
                        code: Some(e),
                    },
                )
            }
        } else {
            SubmitDecision::Await(Submission::Pending)
        },
        None => if completion_modes & FILE_SKIP_COMPLETION_PORT_ON_SUCCESS != 0 {
            SubmitDecision::DeliverInline
        } else {
            SubmitDecision::Await(Submission::CompletionPacket)
        },
    }
}

pub fn classify_submission(kind: IoKind, error: Option<u32>, completion_modes: u32) -> (r:
    SubmitDecision)
    ensures
        r == spec_classify_submission(kind, error, completion_modes),
{
    match error {
        Some(e) => {
            if e != ERROR_IO_PENDING {
                if is_read_eof(kind, e) {
                    SubmitDecision::DeliverEof
                } else {
                    SubmitDecision::Fail(
                        IoError::native(
                            match kind {
                                IoKind::Read => IoFunction::ReadFile,
                                IoKind::Write => IoFunction::WriteFile,
                            },
                            e,
                        ),
                    )
                }
            } else {
                SubmitDecision::Await(Submission::Pending)
            }
        },
        None => {
            if completion_modes & FILE_SKIP_COMPLETION_PORT_ON_SUCCESS != 0 {
                SubmitDecision::DeliverInline
            } else {
                SubmitDecision::Await(Submission::CompletionPacket)
            }
        },
    }
}

/// Where the submission of a prepared operation stands.
#[derive(Clone, Copy, Debug, PartialEq, Eq, Structural)]
pub enum SubmitState {
    /// Prepared, not yet looked at.
    Start,
    /// The file's association with the completion port was requested.
    Associating,
    /// The file's completion modes were requested.
    QueryingModes,
    /// The operation was handed to the registry.
    Registering { modes: u32 },
    /// The native `ReadFile`/`WriteFile` call was made.
    Calling { modes: u32 },
    /// A synchronous completion's result was requested.
    QueryingInline,
    /// The OS owns the operation until its completion packet.
    Awaiting,
    /// The operation was withdrawn or delivered.
    Finished,
}

/// What the runtime observed since the last step.
#[derive(Debug, PartialEq, Eq)]
pub enum SubmitEvent {
    /// Submission begins; whether cancellation was already requested.
    Begin { cancelled: bool },
    /// The association finished, with its error if any.
    Associated { error: Option<Win32Error> },
    /// The completion-mode query finished.
    ModesQueried { result: Result<u32, Win32Error> },
    /// Registration finished; whether the OVERLAPPED address was taken.
    Registered { duplicate: bool },
    /// The native call returned its Win32 error code (none on synchronous
    /// success); whether cancellation was requested meanwhile.
    Called { error: Option<u32>, cancelled: bool },
    /// The synchronous completion's result.
    InlineQueried { transferred: u32, error: Option<u32> },
    /// The completion packet of the operation.
    Packet { transferred: u32, error: Option<u32> },
}

/// What the runtime must do next.
#[derive(Clone, Debug, PartialEq, Eq)]
pub enum SubmitAction {
    /// The OS never owned the operation: its lease and capacity are returned
    /// and the error is reported.
    Withdraw(IoError),
    /// Associate the file with the completion port.
    Associate,
    /// Query the file's completion modes.
    QueryModes,
    /// Activate the cancellation and the lease and register the operation.
    Register,
    /// Make the native call.
    Call,
    /// The call failed: unregister and deactivate the operation, return its
    /// lease and capacity and report the error.
    Fail(IoError),
    /// Query the result of the synchronous completion.
    QueryInline,
    /// Unregister the operation and deliver its result; a submission that
    /// completes inline is reported as such.
    Deliver { transferred: u32, error: Option<u32>, inline: bool },
    /// Report the submission; the operation stays registered. Cancellation
    /// requested during the call is requested again.
    Await { submission: Submission, cancel_again: bool },
    /// Nothing: the event does not belong to this state.
    Ignore,
}

/// The step of a submission from its state and an event: the next state and
/// the action to perform.
pub open spec fn spec_submission_step(kind: IoKind, state: SubmitState, event: SubmitEvent) -> (
    SubmitState,
    SubmitAction,
) {
    match (state, event) {
        (SubmitState::Start, SubmitEvent::Begin { cancelled }) => if cancelled {
            (SubmitState::Finished, SubmitAction::Withdraw(IoError { kind: IoErrorKind::Aborted, code: None }))
        } else {
            (SubmitState::Associating, SubmitAction::Associate)
        },
        (SubmitState::Associating, SubmitEvent::Associated { error }) => match error {
            Some(e) => (
                SubmitState::Finished,
                SubmitAction::Withdraw(IoError { kind: IoErrorKind::Resource(e), code: None }),
            ),
            None => (SubmitState::QueryingModes, SubmitAction::QueryModes),
        },
        (SubmitState::QueryingModes, SubmitEvent::ModesQueried { result }) => match result {
            Ok(modes) => (SubmitState::Registering { modes }, SubmitAction::Register),
            Err(e) => (
                SubmitState::Finished,
                SubmitAction::Withdraw(IoError { kind: IoErrorKind::Resource(e), code: None }),
            ),
        },
        (SubmitState::Registering { modes }, SubmitEvent::Registered { duplicate }) => if duplicate {
            (
                SubmitState::Finished,
                SubmitAction::Withdraw(IoError { kind: IoErrorKind::DuplicateOperation, code: None }),
            )
        } else {
            (SubmitState::Calling { modes }, SubmitAction::Call)
        },
        (SubmitState::Calling { modes }, SubmitEvent::Called { error, cancelled }) => match spec_classify_submission(
            kind,
            error,
            modes,
        ) {
            SubmitDecision::Fail(e) => (SubmitState::Finished, SubmitAction::Fail(e)),
            SubmitDecision::DeliverEof => (
                SubmitState::Finished,
                SubmitAction::Deliver { transferred: 0, error: None, inline: true },
            ),
            SubmitDecision::DeliverInline => (SubmitState::QueryingInline, SubmitAction::QueryInline),
            SubmitDecision::Await(submission) => (
                SubmitState::Awaiting,
                SubmitAction::Await { submission, cancel_again: cancelled },
            ),
        },
        (SubmitState::QueryingInline, SubmitEvent::InlineQueried { transferred, error }) => (
            SubmitState::Finished,
            SubmitAction::Deliver { transferred, error, inline: true },
        ),
        (SubmitState::Awaiting, SubmitEvent::Packet { transferred, error }) => (
            SubmitState::Finished,
            SubmitAction::Deliver { transferred, error, inline: false },
        ),
        (other, _) => (other, SubmitAction::Ignore),
    }
}

pub fn submission_step(kind: IoKind, state: SubmitState, event: SubmitEvent) -> (r: (
    SubmitState,
    SubmitAction,
))
    ensures
        r == spec_submission_step(kind, state, event),
{
    match (state, event) {
        (SubmitState::Start, SubmitEvent::Begin { cancelled }) => if cancelled {
            (SubmitState::Finished, SubmitAction::Withdraw(IoError::new(IoErrorKind::Aborted)))
        } else {
            (SubmitState::Associating, SubmitAction::Associate)
        },
        (SubmitState::Associating, SubmitEvent::Associated { error }) => match error {
            Some(e) => (SubmitState::Finished, SubmitAction::Withdraw(IoError::new(IoErrorKind::Resource(e)))),
            None => (SubmitState::QueryingModes, SubmitAction::QueryModes),
        },
        (SubmitState::QueryingModes, SubmitEvent::ModesQueried { result }) => match result {
            Ok(modes) => (SubmitState::Registering { modes }, SubmitAction::Register),
            Err(e) => (SubmitState::Finished, SubmitAction::Withdraw(IoError::new(IoErrorKind::Resource(e)))),
        },
        (SubmitState::Registering { modes }, SubmitEvent::Registered { duplicate }) => if duplicate {
            (SubmitState::Finished, SubmitAction::Withdraw(IoError::new(IoErrorKind::DuplicateOperation)))
        } else {
            (SubmitState::Calling { modes }, SubmitAction::Call)
        },
        (SubmitState::Calling { modes }, SubmitEvent::Called { error, cancelled }) => match classify_submission(
            kind,
            error,
            modes,
        ) {
            SubmitDecision::Fail(e) => (SubmitState::Finished, SubmitAction::Fail(e)),
            SubmitDecision::DeliverEof => (
                SubmitState::Finished,
                SubmitAction::Deliver { transferred: 0, error: None, inline: true },
            ),
            SubmitDecision::DeliverInline => (SubmitState::QueryingInline, SubmitAction::QueryInline),
            SubmitDecision::Await(submission) => (
                SubmitState::Awaiting,
                SubmitAction::Await { submission, cancel_again: cancelled },
            ),
        },
        (SubmitState::QueryingInline, SubmitEvent::InlineQueried { transferred, error }) => (
            SubmitState::Finished,
            SubmitAction::Deliver { transferred, error, inline: true },
        ),
        (SubmitState::Awaiting, SubmitEvent::Packet { transferred, error }) => (
            SubmitState::Finished,
            SubmitAction::Deliver { transferred, error, inline: false },
        ),
        (other, _) => (other, SubmitAction::Ignore),
    }
}

/// Whether an action ends the operation: its storage is withdrawn or its
/// result delivered.
pub open spec fn is_terminal_action(action: SubmitAction) -> bool {
    action is Withdraw || action is Fail || action is Deliver
}

/// A finished submission ignores every later event, so an operation is
/// withdrawn or delivered at most once.
pub proof fn lemma_finished_submission_ignores_events(kind: IoKind, event: SubmitEvent)
    ensures
        spec_submission_step(kind, SubmitState::Finished, event) == (
            SubmitState::Finished,
            SubmitAction::Ignore,
        ),
{
}

/// Every step that withdraws or delivers an operation finishes it, and only
/// a step from an unfinished state does so.
pub proof fn lemma_terminal_actions_finish(kind: IoKind, state: SubmitState, event: SubmitEvent)
    ensures
        is_terminal_action(spec_submission_step(kind, state, event).1) ==> state
            != SubmitState::Finished && spec_submission_step(kind, state, event).0
            == SubmitState::Finished,
        spec_submission_step(kind, state, event).0 == SubmitState::Finished && state
            != SubmitState::Finished ==> is_terminal_action(spec_submission_step(kind, state, event).1),
{
}

/// Work whose cancellation was requested before submission is withdrawn
/// without the OS ever owning it, and a file is associated only at the start
/// of a submission.
pub proof fn lemma_cancelled_work_is_withdrawn(kind: IoKind, state: SubmitState, event: SubmitEvent)
    ensures
        spec_submission_step(kind, SubmitState::Start, SubmitEvent::Begin { cancelled: true }) == (
            SubmitState::Finished,
            SubmitAction::Withdraw(IoError { kind: IoErrorKind::Aborted, code: None }),
        ),
        spec_submission_step(kind, state, event).1 == SubmitAction::Associate ==> state
            == SubmitState::Start,
        spec_submission_step(kind, state, event).1 == SubmitAction::Call ==> state is Registering,
{
}

/// The result that a completion delivers, given the bytes transferred and the
/// Win32 error code of the completion, if any.
pub open spec fn spec_completion_result(kind: IoKind, transferred: u32, error: Option<u32>) -> Result<
    u32,
    IoError,
> {
    match error {
        Some(e) => if spec_is_read_eof(kind, e) {
            Ok(0)
        } else {
            Err(
                IoError {
                    kind: IoErrorKind::Native(
                        if e == ERROR_OPERATION_ABORTED {
                            IoFunction::OverlappedOperation
                        } else {
                            IoFunction::IocpCompletion
                        },
                    ),
                    code: Some(e),
                },
            )
        },
        None => Ok(transferred),
    }
}

pub fn completion_result(kind: IoKind, transferred: u32, error: Option<u32>) -> (r: Result<
    u32,
    IoError,
>)
    ensures
        r == spec_completion_result(kind, transferred, error),
{
    match error {
        Some(e) => {
            if is_read_eof(kind, e) {
                Ok(0)
            } else {
                Err(
                    IoError::native(
                        if e == ERROR_OPERATION_ABORTED {
                            IoFunction::OverlappedOperation
                        } else {
                            IoFunction::IocpCompletion
                        },
                        e,
                    ),
                )
            }
        },
        None => Ok(transferred),
    }
}

/// A terminal result, owning its buffer, lease and capacity reservation until
/// the receiver retires it.
#[derive(Debug)]
pub struct IoCompletion {
    kind: IoKind,
    result: Result<u32, IoError>,
    buffer: Vec<u8>,
    lease: OwnedResourceAsyncLease,
    permit: CapacityPermit,
}

impl IoCompletion {
    pub closed spec fn spec_kind(self) -> IoKind {
        self.kind
    }

    pub closed spec fn spec_result(self) -> Result<u32, IoError> {
        self.result
    }

    pub closed spec fn spec_buffer(self) -> Seq<u8> {
        self.buffer@
    }

    pub closed spec fn spec_lease(self) -> OwnedResourceAsyncLease {
        self.lease
    }

    pub closed spec fn spec_permit(self) -> CapacityPermit {
        self.permit
    }

    /// Completes a prepared operation: its lease stops being active and the
    /// result is classified; buffer, lease and permit move into the completion.
    pub fn deliver(io: PreparedIo, resource: &mut OwnedResource, transferred: u32, error: Option<
        u32,
    >) -> (r: Self)
        requires
            old(resource).spec_id() == io.lease.spec_resource().0,
            io.lease.spec_active() ==> old(resource).spec_active() > 0,
        ensures
            final(resource).spec_evolves_from(*old(resource)),
            r.spec_kind() == io.kind,
            r.spec_result() == spec_completion_result(io.kind, transferred, error),
            r.spec_buffer() == io.buffer@,
            !r.spec_lease().spec_active(),
            r.spec_lease().spec_resource() == io.lease.spec_resource(),
            r.spec_permit() == io.permit,
            final(resource).spec_active() == if io.lease.spec_active() {
                (old(resource).spec_active() - 1) as usize
            } else {
                old(resource).spec_active()
            },
            final(resource).same_except_active(*old(resource)),
    {
        let PreparedIo { kind, lease, buffer, permit, offset: _ } = io;
        let mut lease = lease;
        lease.mark_inactive(resource);
        let result = completion_result(kind, transferred, error);
        IoCompletion { kind, result, buffer, lease, permit }
    }

    pub fn kind(&self) -> (r: IoKind)
        ensures
            r == self.spec_kind(),
    {
        self.kind
    }

    pub fn result(&self) -> (r: Result<u32, &IoError>)
        ensures
            match self.spec_result() {
                Ok(n) => r == Ok::<u32, &IoError>(n),
                Err(e) => r matches Err(x) && *x == e,
            },
    {
        match &self.result {
            Ok(n) => Ok(*n),
            Err(e) => Err(e),
        }
    }

    pub fn buffer(&self) -> (r: &Vec<u8>)
        ensures
            r@ == self.spec_buffer(),
    {
        &self.buffer
    }

    /// Retires the completion: its lease and capacity are returned together.
    pub fn retire(self, resource: &mut OwnedResource, capacity: &mut CapacityUsage)
        requires
            old(resource).spec_id() == self.spec_lease().spec_resource().0,
            old(resource).spec_retained() > 0,
            !self.spec_lease().spec_active(),
            old(capacity).operations >= 1,
            old(capacity).buffer_bytes >= self.spec_permit().spec_buffer_bytes(),
        ensures
            final(resource).spec_evolves_from(*old(resource)),
            final(resource).spec_retained() == old(resource).spec_retained() - 1,
            final(resource).spec_active() == old(resource).spec_active(),
            final(resource).spec_value() == old(resource).spec_value(),
            final(resource).spec_id() == old(resource).spec_id(),
            final(capacity).operations == old(capacity).operations - 1,
            final(capacity).buffer_bytes == old(capacity).buffer_bytes
                - self.spec_permit().spec_buffer_bytes(),
    {
        let IoCompletion { kind: _, result: _, buffer: _, lease, permit } = self;
        resource.release_async_lease(lease);
        permit.release(capacity);
    }
}


/// The cancellation state of one operation: whether cancellation was
/// requested, and while the OS owns the operation, its file and the address of
/// its OVERLAPPED record.
#[derive(Clone, Copy, Debug, PartialEq, Eq, Structural)]
pub struct IoCancellation {
    cancelled: bool,
    active: bool,
    handle: usize,
    overlapped: usize,
}

/// The native `CancelIoEx` request that a cancellation must make.
#[derive(Clone, Copy, Debug, PartialEq, Eq, Structural)]
pub struct CancelRequest {
    pub handle: usize,
    pub overlapped: usize,
}

impl IoCancellation {
    pub closed spec fn spec_cancelled(self) -> bool {
        self.cancelled
    }

    pub closed spec fn spec_active(self) -> bool {
        self.active
    }

    pub closed spec fn spec_handle(self) -> usize {
        self.handle
    }

    pub closed spec fn spec_overlapped(self) -> usize {
        self.overlapped
    }

    pub fn new() -> (r: Self)
        ensures
            !r.spec_cancelled(),
            !r.spec_active(),
    {
        IoCancellation { cancelled: false, active: false, handle: 0, overlapped: 0 }
    }

    /// The OS now owns the operation.
    pub fn activate(&mut self, handle: usize, overlapped: usize)
        ensures
            final(self).spec_active(),
            final(self).spec_handle() == handle,
            final(self).spec_overlapped() == overlapped,
            final(self).spec_cancelled() == old(self).spec_cancelled(),
    {
        self.handle = handle;
        self.overlapped = overlapped;
        self.active = true;
    }

    /// The operation reached its terminal packet: later cancellations find
    /// nothing to cancel.
    pub fn deactivate(&mut self)
        ensures
            !final(self).spec_active(),
            final(self).spec_handle() == 0,
            final(self).spec_overlapped() == 0,
            final(self).spec_cancelled() == old(self).spec_cancelled(),
    {
        self.active = false;
        self.handle = 0;
        self.overlapped = 0;
    }

    /// Requests cancellation, which does not retire OS-owned storage; while
    /// the operation is active the native request to make is returned.
    pub fn cancel(&mut self) -> (r: Option<CancelRequest>)
        ensures
            final(self).spec_cancelled(),
            final(self).spec_active() == old(self).spec_active(),
            final(self).spec_handle() == old(self).spec_handle(),
            final(self).spec_overlapped() == old(self).spec_overlapped(),
            old(self).spec_active() ==> r == Some(
                CancelRequest { handle: old(self).spec_handle(), overlapped: old(self).spec_overlapped() },
            ),
            !old(self).spec_active() ==> r is None,
    {
        self.cancelled = true;
        if self.active {
            Some(CancelRequest { handle: self.handle, overlapped: self.overlapped })
        } else {
            None
        }
    }

    pub fn is_cancelled(&self) -> (r: bool)
        ensures
            r == self.spec_cancelled(),
    {
        self.cancelled
    }

    /// The file and OVERLAPPED address of the operation while the OS owns it.
    pub fn target(&self) -> (r: Option<CancelRequest>)
        ensures
            self.spec_active() ==> r == Some(
                CancelRequest { handle: self.spec_handle(), overlapped: self.spec_overlapped() },
            ),
            !self.spec_active() ==> r is None,
    {
        if self.active {
            Some(CancelRequest { handle: self.handle, overlapped: self.overlapped })
        } else {
            None
        }
    }
}

/// The operations that the OS owns, by the address of their OVERLAPPED
/// record; no address is registered twice.
pub struct OperationRegistry<T> {
    operations: HashMap<usize, T>,
}

impl<T> View for OperationRegistry<T> {
    type V = Map<usize, T>;

    closed spec fn view(&self) -> Map<usize, T> {
        self.operations@
    }
}

impl<T> OperationRegistry<T> {
    pub fn new() -> (r: Self)
        ensures
            r@ == Map::<usize, T>::empty(),
    {
        OperationRegistry { operations: HashMap::new() }
    }

    pub fn contains(&self, key: usize) -> (r: bool)
        ensures
            r == self@.contains_key(key),
    {
        broadcast use vstd::std_specs::hash::group_hash_axioms;

        self.operations.contains_key(&key)
    }

    /// Registers an operation; a duplicate address is refused and the
    /// operation handed back.
    pub fn register(&mut self, key: usize, operation: T) -> (r: Result<(), (IoError, T)>)
        ensures
            old(self)@.contains_key(key) ==> final(self)@ == old(self)@ && r == Err::<
                (),
                (IoError, T),
            >(((IoError { kind: IoErrorKind::DuplicateOperation, code: None }), operation)),
            !old(self)@.contains_key(key) ==> final(self)@ == old(self)@.insert(key, operation)
                && r is Ok,
    {
        broadcast use vstd::std_specs::hash::group_hash_axioms;

        if self.contains(key) {
            return Err((IoError::new(IoErrorKind::DuplicateOperation), operation));
        }
        let _ = self.operations.insert(key, operation);
        Ok(())
    }

    /// Removes the operation at an address, if registered.
    pub fn remove(&mut self, key: usize) -> (r: Option<T>)
        ensures
            final(self)@ == old(self)@.remove(key),
            old(self)@.contains_key(key) ==> r == Some(old(self)@[key]),
            !old(self)@.contains_key(key) ==> r is None,
    {
        broadcast use vstd::std_specs::hash::group_hash_axioms;

        self.operations.remove(&key)
    }
}

/// A completion delivers exactly what the OS reported for it: the byte
/// count and error of a completion packet, or of a synchronous completion,
/// reach the receiver unchanged, so an error-free completion yields the
/// reported count.
pub proof fn lemma_completions_deliver_what_was_reported(
    kind: IoKind,
    transferred: u32,
    error: Option<u32>,
)
    ensures
        spec_submission_step(kind, SubmitState::Awaiting, SubmitEvent::Packet { transferred, error }).0
            == SubmitState::Finished,
        match spec_submission_step(
            kind,
            SubmitState::Awaiting,
            SubmitEvent::Packet { transferred, error },
        ).1 {
            SubmitAction::Deliver { transferred: t, error: e, inline } => t == transferred && e
                == error && !inline && (error is None ==> spec_completion_result(kind, t, e)
                == Ok::<u32, IoError>(transferred)),
            _ => false,
        },
        match spec_submission_step(
            kind,
            SubmitState::QueryingInline,
            SubmitEvent::InlineQueried { transferred, error },
        ).1 {
            SubmitAction::Deliver { transferred: t, error: e, inline } => t == transferred && e
                == error && inline && (error is None ==> spec_completion_result(kind, t, e)
                == Ok::<u32, IoError>(transferred)),
            _ => false,
        },
{
}

/// Acquiring a permit and releasing it restores the usage exactly.
pub proof fn lemma_capacity_balance(
    before: CapacityUsage,
    acquired: CapacityUsage,
    released: CapacityUsage,
    buffer_bytes: usize,
)
    requires
        acquired.operations == before.operations + 1,
        acquired.buffer_bytes == before.buffer_bytes + buffer_bytes,
        released.operations == acquired.operations - 1,
        released.buffer_bytes == acquired.buffer_bytes - buffer_bytes,
    ensures
        released == before,
{
}

/// An accepted reservation keeps the usage within the pending limits.
pub proof fn lemma_acquire_keeps_limits(usage: CapacityUsage, buffer_bytes: usize)
    requires
        usage.within_limits(),
        capacity_error(usage.operations, usage.buffer_bytes, buffer_bytes) is None,
    ensures
        (CapacityUsage {
            operations: (usage.operations + 1) as usize,
            buffer_bytes: (usage.buffer_bytes + buffer_bytes) as usize,
        }).within_limits(),
{
}

/// The Win32 code of a failure converted to an HRESULT is its low 16 bits,
/// and every nonzero code becomes a failing (negative) HRESULT.
pub proof fn lemma_win32_code_round_trip(code: u32)
    requires
        code != 0,
    ensures
        crate::win32::spec_hresult_from_win32(code) < 0,
        spec_win32_error_code(crate::win32::spec_hresult_from_win32(code) as u32) == code & 0xffffu32,
{
    let h = 0x80070000u32 | (code & 0xffffu32);
    let s = h as i32;
    assert(h & 0xffff_0000u32 == 0x8007_0000u32 && h & 0xffffu32 == code & 0xffffu32 && s < 0
        && s as u32 == h) by (bit_vector)
        requires
            h == 0x80070000u32 | (code & 0xffffu32),
            s == h as i32,
    ;
}

} // verus!
