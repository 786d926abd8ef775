//! Queues.
use crate::device::Device;
use crate::error::{DebugUtilsError, Error, OomError};
use crate::extensions::EXT_DEBUG_UTILS;
use crate::hashing::{feed_u32, feed_u64};
use crate::lists::QueueToGet;
use crate::object::DeviceOwned;
use crate::physical::QueueFamily;
use std::hash::{Hash, Hasher};
use std::sync::Arc;
use vstd::prelude::*;

verus! {

/// Represents a queue where commands can be submitted.
#[derive(Debug)]
pub struct Queue {
    handle: u64,
    device: Arc<Device>,
    family: u32,
    id: u32,  // id within family
}

/// What a `Queue` stands for.
pub struct QueueView {
    pub handle: u64,
    pub device: crate::device::DeviceView,
    pub family: u32,
    pub id: u32,
}

impl QueueView {
    /// Whether the queue is of an active queue family of a sound device, and its place is below the
    /// number of queues of the family.
    pub open spec fn wf(self) -> bool {
        &&& self.device.wf()
        &&& (QueueToGet { family: self.family, id: self.id }).is_of(self.device)
    }

    /// The family of the queue.
    pub open spec fn queue_family(self) -> crate::physical::QueueFamilyView {
        crate::physical::QueueFamilyView {
            physical_device: self.device.physical_device,
            id: self.family,
        }
    }

    /// Whether two queues are the same: the devices are, and so are the families and the places
    /// within them.
    pub open spec fn same_as(self, other: QueueView) -> bool {
        &&& self.id == other.id
        &&& self.family == other.family
        &&& self.device.same_as(other.device)
    }

    /// What the hash of the queue is made from.
    pub open spec fn hash_input(self) -> (u32, u32, (u64, u64)) {
        (self.id, self.family, self.device.hash_input())
    }

    /// Whether debug utils commands can be submitted to the queue.
    pub open spec fn has_debug_utils(self) -> bool {
        crate::names::listed(
            self.device.physical_device.instance.enabled_extensions@,
            EXT_DEBUG_UTILS@,
        )
    }

    /// What a debug utils command that is submitted to the queue is answered.
    pub open spec fn label_verdict(self) -> Result<(), DebugUtilsError> {
        if self.has_debug_utils() {
            Ok(())
        } else {
            Err(debug_utils_refusal())
        }
    }
}

impl QueueToGet {
    /// Whether `device` has the queue: the family is active, and the index is below the number of
    /// queues of the family.
    pub open spec fn is_of(self, device: crate::device::DeviceView) -> bool {
        &&& device.active_queue_families.contains(self.family)
        &&& self.id < (crate::physical::QueueFamilyView {
            physical_device: device.physical_device,
            id: self.family,
        }).queue_count()
    }
}

impl View for Queue {
    type V = QueueView;

    closed spec fn view(&self) -> QueueView {
        QueueView {
            handle: self.handle,
            device: self.device@,
            family: self.family,
            id: self.id,
        }
    }
}

/// A colored label within a queue or command buffer.
#[derive(Debug)]
pub struct DebugUtilsLabel {
    /// The name of the label.
    pub label_name: String,
    /// The red, green, blue and alpha values of the color of the label, each as the IEEE 754
    /// encoding of a single precision number.
    pub color: [u32; 4],
}

/// That debug utils commands cannot be submitted.
pub open spec fn debug_utils_refusal() -> DebugUtilsError {
    DebugUtilsError::ExtensionNotEnabled {
        extension: "ext_debug_utils",
        reason: "tried to submit a debug utils command",
    }
}

impl Queue {
    #[verifier::type_invariant]
    spec fn inv(self) -> bool {
        self@.wf()
    }

    /// Whether `queues` are the queues `wanted` of `device`, each with the handle that
    /// `get_device_queue` returned for it.
    pub open spec fn are_of<G: Fn(u64, u32, u32) -> u64>(
        queues: Seq<Arc<Queue>>,
        device: crate::device::DeviceView,
        wanted: Seq<QueueToGet>,
        get_device_queue: G,
    ) -> bool {
        &&& queues.len() == wanted.len()
        &&& forall|i: int|
            0 <= i < wanted.len() ==> {
                let queue = (#[trigger] queues[i])@;
                &&& queue.device == device
                &&& queue.family == wanted[i].family
                &&& queue.id == wanted[i].id
                &&& call_ensures(
                    get_device_queue,
                    (device.handle, wanted[i].family, wanted[i].id),
                    queue.handle,
                )
            }
    }

    /// Makes a queue of `device` from the handle that the driver returned for it.
    pub fn from_handle(device: &Arc<Device>, queue: QueueToGet, handle: u64) -> (made: Arc<Queue>)
        requires
            queue.is_of(device@),
        ensures
            made@ == (QueueView { handle, device: device@, family: queue.family, id: queue.id }),
    {
        proof {
            use_type_invariant(&**device);
        }
        Arc::new(
            Queue { handle, device: device.clone(), family: queue.family, id: queue.id },
        )
    }

    /// Returns the handle of the queue.
    pub fn handle(&self) -> (handle: u64)
        ensures
            handle == self@.handle,
    {
        self.handle
    }

    /// Returns the device this queue belongs to.
    pub fn device(&self) -> (device: &Arc<Device>)
        ensures
            device@ == self@.device,
    {
        &self.device
    }

    /// Returns the family this queue belongs to.
    pub fn family(&self) -> (family: QueueFamily<'_>)
        ensures
            family@ == self@.queue_family(),
    {
        proof {
            use_type_invariant(self);
        }
        self.device.physical_device().queue_family_by_id(self.family).unwrap()
    }

    /// Returns the index of this queue within its family.
    pub fn id_within_family(&self) -> (id: u32)
        ensures
            id == self@.id,
            id < self@.queue_family().queue_count(),
    {
        proof {
            use_type_invariant(self);
        }
        self.id
    }

    /// Returns what the hash of the queue is made from.
    pub fn hash_key(&self) -> (key: (u32, u32, (u64, u64)))
        ensures
            key == self@.hash_input(),
    {
        (self.id, self.family, self.device.hash_key())
    }

    /// Waits until all work on this queue has finished.
    ///
    /// Just like `Device::wait()`, you shouldn't have to call this function in a typical program.
    /// The driver is asked through `queue_wait_idle`, which gets the handle of the queue.
    pub fn wait<F: FnOnce(u64) -> Result<(), Error>>(&self, queue_wait_idle: F) -> (waited: Result<
        (),
        OomError,
    >)
        requires
            call_requires(queue_wait_idle, (self@.handle,)),
            forall|error: Error|
                call_ensures(queue_wait_idle, (self@.handle,), Err(error)) ==> OomError::of(
                    error,
                ) is Some,
        ensures
            exists|reply: Result<(), Error>| #[trigger]
                call_ensures(queue_wait_idle, (self@.handle,), reply) && OomError::is_outcome(
                    reply,
                    waited,
                ),
    {
        OomError::check(queue_wait_idle(self.handle))
    }

    /// Opens a queue debug label region.
    ///
    /// The `ext_debug_utils` extension must be enabled on the instance. The driver is asked through
    /// `begin_label`, which gets the handle of the queue and the label.
    pub fn begin_debug_utils_label<F: FnOnce(u64, &DebugUtilsLabel)>(
        &self,
        label_info: DebugUtilsLabel,
        begin_label: F,
    ) -> (submitted: Result<(), DebugUtilsError>)
        requires
            self@.has_debug_utils() ==> {
                &&& !label_info.label_name@.contains('\0')
                &&& call_requires(begin_label, (self@.handle, &label_info))
            },
        ensures
            submitted == self@.label_verdict(),
            submitted is Ok ==> call_ensures(begin_label, (self@.handle, &label_info), ()),
    {
        let mut label_info = label_info;
        match self.validate_begin_debug_utils_label(&mut label_info) {
            Ok(()) => {},
            Err(error) => {
                return Err(error);
            },
        }
        begin_label(self.handle, &label_info);
        Ok(())
    }

    fn validate_begin_debug_utils_label(&self, label_info: &mut DebugUtilsLabel) -> (valid: Result<
        (),
        DebugUtilsError,
    >)
        ensures
            valid == self@.label_verdict(),
            *final(label_info) == *old(label_info),
    {
        if !self.device.instance().enabled_extensions.contains(EXT_DEBUG_UTILS) {
            return Err(
                DebugUtilsError::ExtensionNotEnabled {
                    extension: "ext_debug_utils",
                    reason: "tried to submit a debug utils command",
                },
            );
        }
        Ok(())
    }

    /// Closes a queue debug label region.
    ///
    /// The `ext_debug_utils` extension must be enabled on the instance, and there must be an
    /// outstanding queue label region begun with `begin_debug_utils_label` in the queue. The driver
    /// is asked through `end_label`, which gets the handle of the queue.
    pub fn end_debug_utils_label<F: FnOnce(u64)>(&self, end_label: F) -> (submitted: Result<
        (),
        DebugUtilsError,
    >)
        requires
            self@.has_debug_utils() ==> call_requires(end_label, (self@.handle,)),
        ensures
            submitted == self@.label_verdict(),
            submitted is Ok ==> call_ensures(end_label, (self@.handle,), ()),
    {
        match self.validate_end_debug_utils_label() {
            Ok(()) => {},
            Err(error) => {
                return Err(error);
            },
        }
        end_label(self.handle);
        Ok(())
    }

    fn validate_end_debug_utils_label(&self) -> (valid: Result<(), DebugUtilsError>)
        ensures
            valid == self@.label_verdict(),
    {
        if !self.device.instance().enabled_extensions.contains(EXT_DEBUG_UTILS) {
            return Err(
                DebugUtilsError::ExtensionNotEnabled {
                    extension: "ext_debug_utils",
                    reason: "tried to submit a debug utils command",
                },
            );
        }
        Ok(())
    }

    /// Inserts a queue debug label.
    ///
    /// The `ext_debug_utils` extension must be enabled on the instance. The driver is asked through
    /// `insert_label`, which gets the handle of the queue and the label.
    pub fn insert_debug_utils_label<F: FnOnce(u64, &DebugUtilsLabel)>(
        &mut self,
        label_info: DebugUtilsLabel,
        insert_label: F,
    ) -> (submitted: Result<(), DebugUtilsError>)
        requires
            old(self)@.has_debug_utils() ==> {
                &&& !label_info.label_name@.contains('\0')
                &&& call_requires(insert_label, (old(self)@.handle, &label_info))
            },
        ensures
            submitted == old(self)@.label_verdict(),
            submitted is Ok ==> call_ensures(insert_label, (old(self)@.handle, &label_info), ()),
            *final(self) == *old(self),
    {
        let mut label_info = label_info;
        match self.validate_insert_debug_utils_label(&mut label_info) {
            Ok(()) => {},
            Err(error) => {
                return Err(error);
            },
        }
        insert_label(self.handle, &label_info);
        Ok(())
    }

    fn validate_insert_debug_utils_label(&self, label_info: &mut DebugUtilsLabel) -> (valid: Result<
        (),
        DebugUtilsError,
    >)
        ensures
            valid == self@.label_verdict(),
            *final(label_info) == *old(label_info),
    {
        if !self.device.instance().enabled_extensions.contains(EXT_DEBUG_UTILS) {
            return Err(
                DebugUtilsError::ExtensionNotEnabled {
                    extension: "ext_debug_utils",
                    reason: "tried to submit a debug utils command",
                },
            );
        }
        Ok(())
    }
}

impl DeviceOwned for Queue {
    fn device(&self) -> (device: &Arc<Device>)
        ensures
            device@ == self@.device,
    {
        &self.device
    }
}

impl PartialEq for Queue {
    fn eq(&self, other: &Self) -> (equal: bool) {
        self.id == other.id && self.family == other.family && *self.device == *other.device
    }
}

impl vstd::std_specs::cmp::PartialEqSpecImpl for Queue {
    open spec fn obeys_eq_spec() -> bool {
        true
    }

    open spec fn eq_spec(&self, other: &Self) -> bool {
        self@.same_as(other@)
    }
}

impl Eq for Queue {

}

impl Hash for Queue {
    fn hash<H: Hasher>(&self, state: &mut H)
        ensures
            exists|first: &mut H, second: &mut H, third: &mut H, fourth: &mut H| #[trigger]
                call_ensures(feed_u32::<H>, (self@.hash_input().0, first), ()) && #[trigger]
                call_ensures(feed_u32::<H>, (self@.hash_input().1, second), ()) && #[trigger]
                call_ensures(feed_u64::<H>, (self@.hash_input().2.0, third), ()) && #[trigger]
                call_ensures(feed_u64::<H>, (self@.hash_input().2.1, fourth), ())
                    && *first == *old(state) && *final(first) == *second
                    && *final(second) == *third && *final(third) == *fourth
                    && *final(fourth) == *final(state),
    {
        let (id, family, (device, instance)) = self.hash_key();
        feed_u32(id, state);
        feed_u32(family, state);
        feed_u64(device, state);
        feed_u64(instance, state);
    }
}

} // verus!
