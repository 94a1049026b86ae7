//! Owned native resources: their value, cleanup, asynchronous leases and the
//! file state that validated contracts may change.

use vstd::prelude::*;

use crate::error::Win32Error;
use crate::win32::Cleanup;

verus! {

/// The identity of an owned resource within a [`ResourceTable`]. Two values
/// stand for the same resource exactly when their identities are equal.
#[derive(Clone, Copy, Debug, PartialEq, Eq, Structural)]
pub struct ResourceId(pub usize);

/// How a call is about to use a resource.
#[derive(Clone, Copy, Debug, PartialEq, Eq)]
pub enum ResourceAccess {
    Borrow,
    Consume,
    /// A change of the named native state of the resource.
    MutateState(&'static str),
}

/// File state acquired only by operations with a validated file contract.
#[derive(Clone, Copy, Debug, PartialEq, Eq, Structural)]
pub struct FileCapability {
    completion_modes: Option<u32>,
    completion_port: Option<usize>,
}

/// What a completion port association still requires.
#[derive(Clone, Copy, Debug, PartialEq, Eq, Structural)]
pub enum Association {
    /// The resource is already associated with the requested port.
    AlreadyAssociated,
    /// The native association must be requested.
    Associate,
}

impl FileCapability {
    pub closed spec fn spec_completion_modes(self) -> Option<u32> {
        self.completion_modes
    }

    pub closed spec fn spec_completion_port(self) -> Option<usize> {
        self.completion_port
    }

    /// A capability with no known modes and no completion port.
    pub fn new() -> (r: Self)
        ensures
            r.spec_completion_modes() == None::<u32>,
            r.spec_completion_port() == None::<usize>,
    {
        FileCapability { completion_modes: None, completion_port: None }
    }

    pub fn cached_completion_modes(&self) -> (r: Option<u32>)
        ensures
            r == self.spec_completion_modes(),
    {
        self.completion_modes
    }

    /// Records a successful monotonic mode update. While the modes are
    /// unknown they stay unknown: other mode bits are never guessed.
    pub fn record_completion_modes(&mut self, flags: u32)
        ensures
            final(self).spec_completion_modes() == (match old(self).spec_completion_modes() {
                Some(modes) => Some(modes | flags),
                None => None::<u32>,
            }),
            final(self).spec_completion_port() == old(self).spec_completion_port(),
    {
        match self.completion_modes {
            Some(modes) => {
                self.completion_modes = Some(modes | flags);
            },
            None => {},
        }
    }

    /// Records the modes that a native query reported.
    pub fn set_known_completion_modes(&mut self, flags: u32)
        ensures
            final(self).spec_completion_modes() == Some(flags),
            final(self).spec_completion_port() == old(self).spec_completion_port(),
    {
        self.completion_modes = Some(flags);
    }

    /// Decides whether associating with `port` needs a native request.
    pub fn association_for(&self, port: usize) -> (r: Result<Association, Win32Error>)
        ensures
            self.spec_completion_port() == Some(port) ==> r == Ok::<Association, Win32Error>(
                Association::AlreadyAssociated,
            ),
            self.spec_completion_port() is None ==> r == Ok::<Association, Win32Error>(
                Association::Associate,
            ),
            (self.spec_completion_port() matches Some(existing) && existing != port) ==> r
                == Err::<Association, Win32Error>(Win32Error::DifferentCompletionPort),
    {
        match self.completion_port {
            Some(existing) => {
                if existing == port {
                    Ok(Association::AlreadyAssociated)
                } else {
                    Err(Win32Error::DifferentCompletionPort)
                }
            },
            None => Ok(Association::Associate),
        }
    }

    /// Records the port that the native association returned.
    pub fn record_association(&mut self, port: usize, associated: usize) -> (r: Result<
        (),
        Win32Error,
    >)
        ensures
            associated == port ==> r is Ok && final(self).spec_completion_port() == Some(port),
            associated != port ==> r == Err::<(), Win32Error>(
                Win32Error::UnexpectedCompletionPort,
            ) && final(self).spec_completion_port() == old(self).spec_completion_port(),
            final(self).spec_completion_modes() == old(self).spec_completion_modes(),
    {
        if associated != port {
            return Err(Win32Error::UnexpectedCompletionPort);
        }
        self.completion_port = Some(port);
        Ok(())
    }
}

/// A native resource owned by the library: its current value (zero once
/// closed or consumed), its cleanup, the number of retained asynchronous
/// leases and of those that are active, and its file state.
#[derive(Clone, Copy, Debug)]
pub struct OwnedResource {
    id: usize,
    value: usize,
    cleanup: Cleanup,
    retained: usize,
    active: usize,
    file: FileCapability,
}

/// A borrow of an open resource's value for one synchronous use.
#[derive(Clone, Copy, Debug)]
pub struct OwnedResourceLease {
    value: usize,
}

/// A retained lease that keeps a resource open across asynchronous I/O.
#[derive(Debug)]
pub struct OwnedResourceAsyncLease {
    resource: ResourceId,
    value: usize,
    active: bool,
}

/// What closing a resource still requires.
#[derive(Clone, Copy, Debug, PartialEq, Eq, Structural)]
pub enum CloseStep {
    /// Nothing native remains to be released.
    Done,
    /// The value must be released natively with the cleanup.
    Release { value: usize, cleanup: Cleanup },
}

impl OwnedResourceLease {
    pub closed spec fn spec_raw(self) -> usize {
        self.value
    }

    pub fn raw(&self) -> (r: usize)
        ensures
            r == self.spec_raw(),
    {
        self.value
    }
}

impl OwnedResourceAsyncLease {
    pub closed spec fn spec_resource(self) -> ResourceId {
        self.resource
    }

    pub closed spec fn spec_raw(self) -> usize {
        self.value
    }

    pub closed spec fn spec_active(self) -> bool {
        self.active
    }

    pub fn raw(&self) -> (r: usize)
        ensures
            r == self.spec_raw(),
    {
        self.value
    }

    pub fn resource(&self) -> (r: ResourceId)
        ensures
            r == self.spec_resource(),
    {
        self.resource
    }

    pub fn is_active(&self) -> (r: bool)
        ensures
            r == self.spec_active(),
    {
        self.active
    }

    /// The completion modes known for the leased resource.
    pub fn completion_modes(&self, resource: &OwnedResource) -> (r: Option<u32>)
        requires
            resource.spec_id() == self.spec_resource().0,
        ensures
            r == resource.spec_file().spec_completion_modes(),
    {
        resource.file.cached_completion_modes()
    }

    /// Settles the native query of the leased file's completion modes from
    /// its status and the flags it reported: on success the flags become the
    /// known modes and are returned; a failure is reported as the HRESULT
    /// `status | 0x1000_0000` and leaves the resource unchanged.
    pub fn settle_completion_mode_query(
        &self,
        resource: &mut OwnedResource,
        status: i32,
        flags: u32,
    ) -> (r: Result<u32, Win32Error>)
        requires
            old(resource).spec_id() == self.spec_resource().0,
        ensures
            final(resource).spec_evolves_from(*old(resource)),
            status == 0 ==> r == Ok::<u32, Win32Error>(flags)
                && final(resource).spec_file().spec_completion_modes() == Some(flags)
                && final(resource).spec_file().spec_completion_port() == old(
                resource,
            ).spec_file().spec_completion_port() && final(resource).same_except_file(*old(resource)),
            status != 0 ==> r == Err::<u32, Win32Error>(Win32Error::Native(status | 0x1000_0000i32))
                && *final(resource) == *old(resource),
    {
        if status != 0 {
            return Err(Win32Error::Native(status | 0x1000_0000i32));
        }
        resource.set_known_completion_modes(flags);
        Ok(flags)
    }

    /// Marks the lease as carrying active native I/O; counted once.
    pub fn mark_active(&mut self, resource: &mut OwnedResource)
        requires
            old(resource).spec_id() == old(self).spec_resource().0,
            !old(self).spec_active() ==> old(resource).spec_active() < usize::MAX,
        ensures
            final(resource).spec_evolves_from(*old(resource)),
            final(self).spec_active(),
            final(self).spec_resource() == old(self).spec_resource(),
            final(self).spec_raw() == old(self).spec_raw(),
            final(resource).spec_active() == if old(self).spec_active() {
                old(resource).spec_active()
            } else {
                (old(resource).spec_active() + 1) as usize
            },
            final(resource).same_except_active(*old(resource)),
    {
        if !self.active {
            resource.active = resource.active + 1;
            self.active = true;
        }
    }

    /// Marks the lease as no longer carrying active native I/O; counted once.
    pub fn mark_inactive(&mut self, resource: &mut OwnedResource)
        requires
            old(resource).spec_id() == old(self).spec_resource().0,
            old(self).spec_active() ==> old(resource).spec_active() > 0,
        ensures
            final(resource).spec_evolves_from(*old(resource)),
            !final(self).spec_active(),
            final(self).spec_resource() == old(self).spec_resource(),
            final(self).spec_raw() == old(self).spec_raw(),
            final(resource).spec_active() == if old(self).spec_active() {
                (old(resource).spec_active() - 1) as usize
            } else {
                old(resource).spec_active()
            },
            final(resource).same_except_active(*old(resource)),
    {
        if self.active {
            resource.active = resource.active - 1;
            self.active = false;
        }
    }
}

impl OwnedResource {
    pub closed spec fn spec_id(self) -> usize {
        self.id
    }

    pub closed spec fn spec_value(self) -> usize {
        self.value
    }

    pub closed spec fn spec_cleanup(self) -> Cleanup {
        self.cleanup
    }

    pub closed spec fn spec_retained(self) -> usize {
        self.retained
    }

    pub closed spec fn spec_active(self) -> usize {
        self.active
    }

    pub closed spec fn spec_file(self) -> FileCapability {
        self.file
    }

    /// Everything but the active count is unchanged.
    pub open spec fn same_except_active(self, other: Self) -> bool {
        &&& self.spec_id() == other.spec_id()
        &&& self.spec_value() == other.spec_value()
        &&& self.spec_cleanup() == other.spec_cleanup()
        &&& self.spec_retained() == other.spec_retained()
        &&& self.spec_file() == other.spec_file()
    }

    /// One change that an operation of the library makes to an owner: its
    /// identity and cleanup are kept, and its value is kept or becomes zero.
    pub open spec fn spec_evolves_from(self, before: Self) -> bool {
        &&& self.spec_id() == before.spec_id()
        &&& self.spec_cleanup() == before.spec_cleanup()
        &&& (self.spec_value() == before.spec_value() || self.spec_value() == 0)
    }

    /// A fresh owner: open, with no leases and no known file state.
    pub open spec fn is_fresh(self, value: usize, cleanup: Cleanup) -> bool {
        &&& self.spec_value() == value
        &&& self.spec_cleanup() == cleanup
        &&& self.spec_retained() == 0
        &&& self.spec_active() == 0
        &&& self.spec_file().spec_completion_modes() is None
        &&& self.spec_file().spec_completion_port() is None
    }

    pub(crate) fn new(value: usize, cleanup: Cleanup) -> (r: Self)
        ensures
            r.is_fresh(value, cleanup),
            r.spec_id() == 0,
    {
        OwnedResource {
            id: 0,
            value,
            cleanup,
            retained: 0,
            active: 0,
            file: FileCapability::new(),
        }
    }

    /// Adopts a native resource with a nonzero value and an owning cleanup.
    pub fn adopt(value: usize, cleanup: Cleanup) -> (r: Result<Self, Win32Error>)
        ensures
            (value == 0 || !cleanup.spec_owns_resource()) ==> r == Err::<Self, Win32Error>(
                Win32Error::InvalidOwnedResource,
            ),
            (value != 0 && cleanup.spec_owns_resource()) ==> (r matches Ok(resource)
                && resource.is_fresh(value, cleanup)),
    {
        if value == 0 || !cleanup.owns_resource() {
            return Err(Win32Error::InvalidOwnedResource);
        }
        Ok(OwnedResource::new(value, cleanup))
    }

    pub fn id(&self) -> (r: ResourceId)
        ensures
            r == ResourceId(self.spec_id()),
    {
        ResourceId(self.id)
    }

    pub fn raw(&self) -> (r: usize)
        ensures
            r == self.spec_value(),
    {
        self.value
    }

    pub fn is_closed(&self) -> (r: bool)
        ensures
            r == (self.spec_value() == 0),
    {
        self.value == 0
    }

    pub fn cleanup(&self) -> (r: Cleanup)
        ensures
            r == self.spec_cleanup(),
    {
        self.cleanup
    }

    pub fn file_capability(&self) -> (r: FileCapability)
        ensures
            r == self.spec_file(),
    {
        self.file
    }

    pub fn has_async_leases(&self) -> (r: bool)
        ensures
            r == (self.spec_retained() != 0),
    {
        self.retained != 0
    }

    pub fn has_active_async_io(&self) -> (r: bool)
        ensures
            r == (self.spec_active() != 0),
    {
        self.active != 0
    }

    pub fn async_lease_count(&self) -> (r: usize)
        ensures
            r == self.spec_retained(),
    {
        self.retained
    }

    pub fn active_async_io_count(&self) -> (r: usize)
        ensures
            r == self.spec_active(),
    {
        self.active
    }

    /// Decides whether a call may use the resource in the given way: while
    /// asynchronous leases are retained only borrowing is allowed.
    pub open spec fn spec_lock_for_call(self, access: ResourceAccess) -> Result<
        usize,
        Win32Error,
    > {
        if self.spec_retained() != 0 && access == ResourceAccess::Consume {
            Err(Win32Error::ConsumeWhilePending)
        } else if self.spec_retained() != 0 && access is MutateState {
            Err(Win32Error::MutateWhilePending(access->MutateState_0))
        } else {
            Ok(self.spec_value())
        }
    }

    pub fn lock_for_call(&self, access: ResourceAccess) -> (r: Result<usize, Win32Error>)
        ensures
            r == self.spec_lock_for_call(access),
    {
        if self.retained != 0 {
            match access {
                ResourceAccess::Borrow => {},
                ResourceAccess::Consume => {
                    return Err(Win32Error::ConsumeWhilePending);
                },
                ResourceAccess::MutateState(state) => {
                    return Err(Win32Error::MutateWhilePending(state));
                },
            }
        }
        Ok(self.value)
    }

    /// Borrows the value of an open resource whose cleanup is the expected one.
    pub fn lease(&self, expected_cleanup: Cleanup) -> (r: Result<OwnedResourceLease, Win32Error>)
        ensures
            self.spec_cleanup() != expected_cleanup ==> r == Err::<
                OwnedResourceLease,
                Win32Error,
            >(Win32Error::ResourceCleanupMismatch),
            self.spec_cleanup() == expected_cleanup && self.spec_value() == 0 ==> r == Err::<
                OwnedResourceLease,
                Win32Error,
            >(Win32Error::LeaseOfClosedResource),
            self.spec_cleanup() == expected_cleanup && self.spec_value() != 0 ==> (r matches Ok(
                lease,
            ) && lease.spec_raw() == self.spec_value()),
    {
        if self.cleanup != expected_cleanup {
            return Err(Win32Error::ResourceCleanupMismatch);
        }
        let value = self.lock_for_call(ResourceAccess::Borrow);
        match value {
            Ok(value) => {
                if value == 0 {
                    return Err(Win32Error::LeaseOfClosedResource);
                }
                Ok(OwnedResourceLease { value })
            },
            Err(error) => Err(error),
        }
    }

    /// Retains an asynchronous lease on an open resource; the resource cannot
    /// be consumed, mutated or closed until every retained lease is released.
    pub fn async_lease(&mut self, expected_cleanup: Cleanup) -> (r: Result<
        OwnedResourceAsyncLease,
        Win32Error,
    >)
        requires
            old(self).spec_retained() < usize::MAX,
        ensures
            final(self).spec_evolves_from(*old(self)),
            old(self).spec_cleanup() != expected_cleanup ==> r == Err::<
                OwnedResourceAsyncLease,
                Win32Error,
            >(Win32Error::ResourceCleanupMismatch) && *final(self) == *old(self),
            old(self).spec_cleanup() == expected_cleanup && old(self).spec_value() == 0 ==> r
                == Err::<OwnedResourceAsyncLease, Win32Error>(Win32Error::LeaseOfClosedResource)
                && *final(self) == *old(self),
            old(self).spec_cleanup() == expected_cleanup && old(self).spec_value() != 0 ==> {
                &&& r matches Ok(lease)
                &&& lease.spec_raw() == old(self).spec_value()
                &&& lease.spec_resource() == ResourceId(old(self).spec_id())
                &&& !lease.spec_active()
                &&& final(self).spec_retained() == old(self).spec_retained() + 1
                &&& final(self).spec_id() == old(self).spec_id()
                &&& final(self).spec_value() == old(self).spec_value()
                &&& final(self).spec_cleanup() == old(self).spec_cleanup()
                &&& final(self).spec_active() == old(self).spec_active()
                &&& final(self).spec_file() == old(self).spec_file()
            },
    {
        if self.cleanup != expected_cleanup {
            return Err(Win32Error::ResourceCleanupMismatch);
        }
        if self.value == 0 {
            return Err(Win32Error::LeaseOfClosedResource);
        }
        self.retained = self.retained + 1;
        Ok(OwnedResourceAsyncLease { resource: ResourceId(self.id), value: self.value, active: false })
    }

    /// Returns a retained lease: it stops being active and stops being retained.
    pub fn release_async_lease(&mut self, lease: OwnedResourceAsyncLease)
        requires
            lease.spec_resource().0 == old(self).spec_id(),
            old(self).spec_retained() > 0,
            lease.spec_active() ==> old(self).spec_active() > 0,
        ensures
            final(self).spec_evolves_from(*old(self)),
            final(self).spec_retained() == old(self).spec_retained() - 1,
            final(self).spec_active() == if lease.spec_active() {
                (old(self).spec_active() - 1) as usize
            } else {
                old(self).spec_active()
            },
            final(self).spec_id() == old(self).spec_id(),
            final(self).spec_value() == old(self).spec_value(),
            final(self).spec_cleanup() == old(self).spec_cleanup(),
            final(self).spec_file() == old(self).spec_file(),
    {
        let mut lease = lease;
        lease.mark_inactive(self);
        self.retained = self.retained - 1;
    }

    /// Records a successful monotonic update of the file completion modes.
    pub fn record_completion_modes(&mut self, flags: u32)
        ensures
            final(self).spec_file().spec_completion_modes() == spec_modes_after(
                old(self).spec_file().spec_completion_modes(),
                seq![flags],
            ),
            final(self).spec_evolves_from(*old(self)),
            final(self).spec_file().spec_completion_modes() == (match old(
                self,
            ).spec_file().spec_completion_modes() {
                Some(modes) => Some(modes | flags),
                None => None::<u32>,
            }),
            final(self).spec_file().spec_completion_port() == old(
                self,
            ).spec_file().spec_completion_port(),
            final(self).same_except_file(*old(self)),
            *final(self) == old(self).spec_with_recorded_modes(flags),
    {
        let ghost before = old(self).spec_file().spec_completion_modes();
        assert(seq![flags].drop_last() =~= Seq::<u32>::empty());
        assert(spec_modes_after(before, Seq::<u32>::empty()) == before);
        assert(seq![flags].last() == flags);
        self.file.record_completion_modes(flags);
    }

    /// Records the completion modes that a native query reported.
    pub fn set_known_completion_modes(&mut self, flags: u32)
        ensures
            final(self).spec_evolves_from(*old(self)),
            final(self).spec_file().spec_completion_modes() == Some(flags),
            final(self).spec_file().spec_completion_port() == old(
                self,
            ).spec_file().spec_completion_port(),
            final(self).same_except_file(*old(self)),
    {
        self.file.set_known_completion_modes(flags);
    }

    /// Records the completion port that a native association returned.
    pub fn record_association(&mut self, port: usize, associated: usize) -> (r: Result<
        (),
        Win32Error,
    >)
        ensures
            final(self).spec_evolves_from(*old(self)),
            associated == port ==> r is Ok && final(self).spec_file().spec_completion_port()
                == Some(port),
            associated != port ==> r == Err::<(), Win32Error>(
                Win32Error::UnexpectedCompletionPort,
            ) && final(self).spec_file() == old(self).spec_file(),
            final(self).spec_file().spec_completion_modes() == old(
                self,
            ).spec_file().spec_completion_modes(),
            final(self).same_except_file(*old(self)),
    {
        self.file.record_association(port, associated)
    }

    /// Everything but the identity is the same.
    pub open spec fn same_state(self, other: Self) -> bool {
        &&& self.spec_value() == other.spec_value()
        &&& self.spec_cleanup() == other.spec_cleanup()
        &&& self.spec_retained() == other.spec_retained()
        &&& self.spec_active() == other.spec_active()
        &&& self.spec_file() == other.spec_file()
    }

    /// Everything but the file state is unchanged.
    pub open spec fn same_except_file(self, other: Self) -> bool {
        &&& self.spec_id() == other.spec_id()
        &&& self.spec_value() == other.spec_value()
        &&& self.spec_cleanup() == other.spec_cleanup()
        &&& self.spec_retained() == other.spec_retained()
        &&& self.spec_active() == other.spec_active()
    }

    /// The first step of closing: refused while asynchronous leases are
    /// retained; otherwise says whether a native release is needed.
    pub open spec fn spec_begin_close(self) -> Result<CloseStep, Win32Error> {
        if self.spec_retained() != 0 {
            Err(Win32Error::CloseWhilePending)
        } else if self.spec_cleanup().spec_needs_release(self.spec_value()) {
            Ok(CloseStep::Release { value: self.spec_value(), cleanup: self.spec_cleanup() })
        } else {
            Ok(CloseStep::Done)
        }
    }

    pub fn begin_close(&self) -> (r: Result<CloseStep, Win32Error>)
        ensures
            r == self.spec_begin_close(),
    {
        if self.retained != 0 {
            return Err(Win32Error::CloseWhilePending);
        }
        if self.cleanup.needs_release(self.value) {
            Ok(CloseStep::Release { value: self.value, cleanup: self.cleanup })
        } else {
            Ok(CloseStep::Done)
        }
    }

    /// The last step of closing, given the outcome of the native release (an
    /// HRESULT on failure). A failed release keeps the exact value for retry.
    pub fn finish_close(&mut self, released: Result<(), i32>) -> (r: Result<(), Win32Error>)
        ensures
            final(self).spec_evolves_from(*old(self)),
            released is Ok ==> r is Ok && final(self).spec_value() == 0,
            (released matches Err(code) ==> r == Err::<(), Win32Error>(Win32Error::Native(code))
                && final(self).spec_value() == old(self).spec_value()),
            final(self).spec_id() == old(self).spec_id(),
            final(self).spec_cleanup() == old(self).spec_cleanup(),
            final(self).spec_retained() == old(self).spec_retained(),
            final(self).spec_active() == old(self).spec_active(),
            final(self).spec_file() == old(self).spec_file(),
    {
        match released {
            Ok(()) => {
                self.value = 0;
                Ok(())
            },
            Err(code) => Err(Win32Error::Native(code)),
        }
    }

    /// The owner once a native call took ownership of its value.
    pub closed spec fn spec_consumed(self) -> Self {
        OwnedResource { value: 0, ..self }
    }

    /// The owner once a successful call added file completion modes.
    pub closed spec fn spec_with_recorded_modes(self, flags: u32) -> Self {
        OwnedResource {
            file: FileCapability {
                completion_modes: match self.file.completion_modes {
                    Some(modes) => Some(modes | flags),
                    None => None,
                },
                ..self.file
            },
            ..self
        }
    }

    /// Two resources that agree on every observable part are the same value.
    pub proof fn lemma_observably_equal(self, other: Self)
        requires
            self.spec_id() == other.spec_id(),
            self.spec_value() == other.spec_value(),
            self.spec_cleanup() == other.spec_cleanup(),
            self.spec_retained() == other.spec_retained(),
            self.spec_active() == other.spec_active(),
            self.spec_file() == other.spec_file(),
        ensures
            self == other,
    {
    }

    /// Consumption and recorded modes keep the owner's identity and cleanup.
    pub proof fn lemma_updates_keep_identity(self, flags: u32)
        ensures
            self.spec_consumed().spec_id() == self.spec_id(),
            self.spec_consumed().spec_cleanup() == self.spec_cleanup(),
            self.spec_consumed().spec_value() == 0,
            self.spec_with_recorded_modes(flags).spec_id() == self.spec_id(),
            self.spec_with_recorded_modes(flags).spec_cleanup() == self.spec_cleanup(),
            self.spec_with_recorded_modes(flags).spec_value() == self.spec_value(),
            self.spec_consumed().spec_file() == self.spec_file(),
            self.spec_consumed().spec_retained() == self.spec_retained(),
            self.spec_with_recorded_modes(flags).spec_file().spec_completion_modes()
                == spec_modes_after(self.spec_file().spec_completion_modes(), seq![flags]),
            self.spec_with_recorded_modes(flags).spec_retained() == self.spec_retained(),
    {
        assert(seq![flags].drop_last() =~= Seq::<u32>::empty());
        assert(spec_modes_after(self.spec_file().spec_completion_modes(), Seq::<u32>::empty())
            == self.spec_file().spec_completion_modes());
        assert(seq![flags].last() == flags);
    }

    /// Marks the resource as consumed by a native call that took ownership.
    pub(crate) fn commit_consumption(&mut self)
        ensures
            *final(self) == old(self).spec_consumed(),
            final(self).spec_value() == 0,
            final(self).spec_id() == old(self).spec_id(),
            final(self).spec_cleanup() == old(self).spec_cleanup(),
            final(self).spec_retained() == old(self).spec_retained(),
            final(self).spec_active() == old(self).spec_active(),
            final(self).spec_file() == old(self).spec_file(),
    {
        self.value = 0;
    }

    pub(crate) fn with_id(self, id: usize) -> (r: Self)
        ensures
            r.spec_id() == id,
            r.spec_value() == self.spec_value(),
            r.spec_cleanup() == self.spec_cleanup(),
            r.spec_retained() == self.spec_retained(),
            r.spec_active() == self.spec_active(),
            r.spec_file() == self.spec_file(),
    {
        OwnedResource { id, ..self }
    }
}

/// The owners of every resource a caller holds, indexed by identity.
#[derive(Debug)]
pub struct ResourceTable {
    resources: Vec<OwnedResource>,
}

impl View for ResourceTable {
    type V = Seq<OwnedResource>;

    closed spec fn view(&self) -> Seq<OwnedResource> {
        self.resources@
    }
}

impl ResourceTable {
    /// Each owner sits at the index of its own identity.
    pub open spec fn wf(self) -> bool {
        forall|i: int| 0 <= i < self@.len() ==> (#[trigger] self@[i]).spec_id() == i
    }

    pub open spec fn contains(self, id: ResourceId) -> bool {
        id.0 < self@.len()
    }

    pub fn new() -> (r: Self)
        ensures
            r@.len() == 0,
            r.wf(),
    {
        ResourceTable { resources: Vec::new() }
    }

    pub fn len(&self) -> (r: usize)
        ensures
            r == self@.len(),
    {
        self.resources.len()
    }

    /// Adds an owner and returns its identity.
    pub fn insert(&mut self, resource: OwnedResource) -> (r: ResourceId)
        requires
            old(self).wf(),
        ensures
            final(self).wf(),
            r.0 == old(self)@.len(),
            final(self)@.len() == old(self)@.len() + 1,
            forall|i: int| 0 <= i < old(self)@.len() ==> final(self)@[i] == old(self)@[i],
            final(self)@[r.0 as int].spec_id() == r.0,
            final(self)@[r.0 as int].same_state(resource),
    {
        let id = self.resources.len();
        self.resources.push(resource.with_id(id));
        ResourceId(id)
    }

    /// The owner with the given identity.
    pub fn get(&self, id: ResourceId) -> (r: OwnedResource)
        requires
            self.contains(id),
        ensures
            r == self@[id.0 as int],
    {
        self.resources[id.0]
    }

    /// The native releases still owed when the table is discarded: the value
    /// and cleanup of every owner whose value still needs its cleanup, in
    /// identity order.
    pub fn releases_owed(&self) -> (r: Vec<(usize, Cleanup)>)
        ensures
            r@ == spec_releases_owed(self@),
    {
        let mut owed: Vec<(usize, Cleanup)> = Vec::new();
        let mut i: usize = 0;
        while i < self.resources.len()
            invariant
                i <= self.resources@.len(),
                owed@ == spec_releases_owed(self.resources@.subrange(0, i as int)),
            decreases self.resources@.len() - i,
        {
            let resource = self.resources[i];
            proof {
                assert(self.resources@.subrange(0, i + 1).drop_last() =~= self.resources@.subrange(
                    0,
                    i as int,
                ));
            }
            if resource.cleanup.needs_release(resource.value) {
                owed.push((resource.value, resource.cleanup));
            }
            i = i + 1;
        }
        assert(self.resources@.subrange(0, self.resources@.len() as int) =~= self.resources@);
        owed
    }

    /// Replaces the owner with the given identity, keeping that identity.
    pub fn set(&mut self, id: ResourceId, resource: OwnedResource)
        requires
            old(self).wf(),
            old(self).contains(id),
            resource.spec_id() == id.0,
        ensures
            final(self).wf(),
            final(self)@ == old(self)@.update(id.0 as int, resource),
    {
        self.resources.set(id.0, resource);
    }
}


/// The history of one owner across any sequence of the library's
/// operations: it keeps its identity and its cleanup kind, its value is the
/// adopted value or zero, and once closed or consumed it stays so.
pub proof fn lemma_owner_history(history: Seq<OwnedResource>)
    requires
        history.len() > 0,
        forall|i: int| 0 <= i < history.len() - 1 ==> #[trigger] history[i + 1].spec_evolves_from(history[i]),
    ensures
        forall|i: int| 0 <= i < history.len() ==> (#[trigger] history[i]).spec_id() == history[0].spec_id(),
        forall|i: int| 0 <= i < history.len() ==> (#[trigger] history[i]).spec_cleanup() == history[0].spec_cleanup(),
        forall|i: int|
            0 <= i < history.len() ==> (#[trigger] history[i]).spec_value() == history[0].spec_value()
                || history[i].spec_value() == 0,
        forall|i: int, j: int|
            0 <= i <= j < history.len() && (#[trigger] history[i]).spec_value() == 0 ==> (#[trigger] history[j]).spec_value() == 0,
    decreases history.len(),
{
    if history.len() > 1 {
        let earlier = history.drop_last();
        assert forall|i: int| 0 <= i < earlier.len() - 1 implies #[trigger] earlier[i + 1].spec_evolves_from(earlier[i]) by {
            assert(history[i + 1].spec_evolves_from(history[i]));
        }
        lemma_owner_history(earlier);
        let n = history.len() - 1;
        let m = n - 1;
        assert(history[m + 1].spec_evolves_from(history[m]));
        assert(m + 1 == n);
        assert(earlier[n - 1] == history[n - 1]);
        assert forall|i: int| 0 <= i < history.len() implies (#[trigger] history[i]).spec_id() == history[0].spec_id()
            && history[i].spec_cleanup() == history[0].spec_cleanup() && (history[i].spec_value()
            == history[0].spec_value() || history[i].spec_value() == 0) by {
            if i < n {
                assert(earlier[i] == history[i]);
            }
        }
        assert forall|i: int, j: int|
            0 <= i <= j < history.len() && (#[trigger] history[i]).spec_value() == 0 implies (#[trigger] history[j]).spec_value() == 0 by {
            if j < n {
                assert(earlier[i] == history[i] && earlier[j] == history[j]);
            } else if i < n {
                assert(earlier[i] == history[i]);
                assert(earlier[n - 1].spec_value() == 0);
            }
        }
    }
}

/// The value and cleanup of every owner whose value still needs its
/// cleanup, in order.
pub open spec fn spec_releases_owed(resources: Seq<OwnedResource>) -> Seq<(usize, Cleanup)>
    decreases resources.len(),
{
    if resources.len() == 0 {
        Seq::empty()
    } else {
        let last = resources.last();
        let earlier = spec_releases_owed(resources.drop_last());
        if last.spec_cleanup().spec_needs_release(last.spec_value()) {
            earlier.push((last.spec_value(), last.spec_cleanup()))
        } else {
            earlier
        }
    }
}

/// Closing is idempotent: once the value is gone and no lease is retained,
/// closing again needs no native release and succeeds.
pub proof fn lemma_close_is_idempotent(resource: OwnedResource)
    requires
        resource.spec_value() == 0,
        resource.spec_retained() == 0,
    ensures
        resource.spec_begin_close() == Ok::<CloseStep, Win32Error>(CloseStep::Done),
{
}

/// While an asynchronous lease is retained the resource may only be borrowed:
/// consuming, mutating and closing it are refused.
pub proof fn lemma_pending_leases_only_borrow(resource: OwnedResource, state: &'static str)
    requires
        resource.spec_retained() != 0,
    ensures
        resource.spec_lock_for_call(ResourceAccess::Borrow) == Ok::<usize, Win32Error>(
            resource.spec_value(),
        ),
        resource.spec_lock_for_call(ResourceAccess::Consume) == Err::<usize, Win32Error>(
            Win32Error::ConsumeWhilePending,
        ),
        resource.spec_lock_for_call(ResourceAccess::MutateState(state)) == Err::<usize, Win32Error>(
            Win32Error::MutateWhilePending(state),
        ),
        resource.spec_begin_close() == Err::<CloseStep, Win32Error>(Win32Error::CloseWhilePending),
{
}

/// A retained lease that is released again leaves the resource exactly as it
/// was: `async_lease` adds one retained lease and changes nothing else, and
/// releasing an inactive lease removes it and changes nothing else.
pub proof fn lemma_lease_release_restores(
    before: OwnedResource,
    leased: OwnedResource,
    released: OwnedResource,
)
    requires
        leased.spec_retained() == before.spec_retained() + 1,
        leased.spec_id() == before.spec_id(),
        leased.spec_value() == before.spec_value(),
        leased.spec_cleanup() == before.spec_cleanup(),
        leased.spec_active() == before.spec_active(),
        leased.spec_file() == before.spec_file(),
        released.spec_retained() == leased.spec_retained() - 1,
        released.spec_active() == leased.spec_active(),
        released.spec_id() == leased.spec_id(),
        released.spec_value() == leased.spec_value(),
        released.spec_cleanup() == leased.spec_cleanup(),
        released.spec_file() == leased.spec_file(),
    ensures
        released == before,
{
    released.lemma_observably_equal(before);
}

/// Recorded completion modes only grow: every mode known before stays set,
/// and modes that were never queried stay unknown.
pub proof fn lemma_recorded_modes_only_grow(resource: OwnedResource, flags: u32)
    ensures
        match (
            resource.spec_file().spec_completion_modes(),
            resource.spec_with_recorded_modes(flags).spec_file().spec_completion_modes(),
        ) {
            (Some(before), Some(after)) => after & before == before && after & flags == flags,
            (None, None) => true,
            _ => false,
        },
{
    match resource.spec_file().spec_completion_modes() {
        Some(before) => {
            let after = before | flags;
            assert(after & before == before && after & flags == flags) by (bit_vector)
                requires
                    after == before | flags,
            ;
        },
        None => {},
    }
}

/// The completion modes of a file after successful updates adding `flags`,
/// in order, to the modes it had.
pub open spec fn spec_modes_after(modes: Option<u32>, flags: Seq<u32>) -> Option<u32>
    decreases flags.len(),
{
    if flags.len() == 0 {
        modes
    } else {
        match spec_modes_after(modes, flags.drop_last()) {
            Some(m) => Some(m | flags.last()),
            None => None,
        }
    }
}

/// The history of a file's completion modes: they are known only after a
/// query, and from then on they keep every bit that the query reported and
/// every bit that a later successful update added.
pub proof fn lemma_modes_history(modes: Option<u32>, flags: Seq<u32>)
    ensures
        modes is None ==> spec_modes_after(modes, flags) is None,
        modes matches Some(m) ==> spec_modes_after(modes, flags) matches Some(after) && after & m
            == m && forall|i: int| 0 <= i < flags.len() ==> after & #[trigger] flags[i] == flags[i],
    decreases flags.len(),
{
    if flags.len() > 0 {
        let earlier = flags.drop_last();
        lemma_modes_history(modes, earlier);
        match modes {
            Some(m) => {
                let previous = spec_modes_after(modes, earlier)->Some_0;
                let f = flags.last();
                let after = previous | f;
                assert(after & m == m && after & f == f) by (bit_vector)
                    requires
                        after == previous | f,
                        previous & m == m,
                ;
                assert forall|i: int| 0 <= i < flags.len() implies after & #[trigger] flags[i] == flags[i] by {
                    if i < flags.len() - 1 {
                        let x = flags[i];
                        assert(earlier[i] == x);
                        assert(after & x == x) by (bit_vector)
                            requires
                                after == previous | f,
                                previous & x == x,
                        ;
                    }
                }
            },
            None => {},
        }
    } else {
        match modes {
            Some(m) => {
                assert(m & m == m) by (bit_vector);
            },
            None => {},
        }
    }
}

} // verus!
