//! The instance, its physical devices and their queue families.
use crate::extensions::{DeviceExtensions, ExtensionRule, InstanceExtensions};
use crate::features::{FeatureRule, Features};
use crate::hashing::feed_u64;
use crate::version::Version;
use std::hash::{Hash, Hasher};
use std::sync::Arc;
use vstd::prelude::*;

verus! {

/// What the Vulkan registry says of the flags: which features there are, and how extensions and
/// features depend on each other.
#[derive(Debug)]
pub struct Registry {
    pub features: Vec<&'static str>,
    pub extension_rules: Vec<ExtensionRule>,
    pub feature_rules: Vec<FeatureRule>,
}

/// What is known of a family of queues.
#[derive(Debug)]
pub struct QueueFamilyInfo {
    /// How many queues the family has.
    pub queue_count: u32,
}

/// What is known of a physical device.
#[derive(Debug)]
pub struct PhysicalDeviceInfo {
    /// The handle of the physical device.
    pub handle: u64,
    /// The version of Vulkan that the physical device supports.
    pub api_version: Version,
    pub supported_extensions: DeviceExtensions,
    pub supported_features: Features,
    /// The queue families; the id of a family is its place in this list.
    pub queue_families: Vec<QueueFamilyInfo>,
}

/// An instance of a Vulkan implementation.
#[derive(Debug)]
pub struct Instance {
    /// The handle of the instance.
    pub handle: u64,
    /// The highest version of Vulkan that the instance may use.
    pub max_api_version: Version,
    pub enabled_extensions: InstanceExtensions,
    pub enabled_layers: Vec<String>,
    pub registry: Registry,
    pub physical_devices: Vec<PhysicalDeviceInfo>,
}

impl Instance {
    /// Whether every layer name can be handed over as a C string.
    pub open spec fn layers_are_c_strings(self) -> bool {
        forall|i: int|
            0 <= i < self.enabled_layers@.len() ==> !(#[trigger] self.enabled_layers@[i])@.contains(
                '\0',
            )
    }

    /// Tells whether every layer name can be handed over as a C string.
    pub fn has_c_layers(&self) -> (has: bool)
        ensures
            has == self.layers_are_c_strings(),
    {
        let layers = &self.enabled_layers;
        let mut i: usize = 0;
        while i < layers.len()
            invariant
                i <= layers@.len(),
                forall|k: int| 0 <= k < i ==> !(#[trigger] layers@[k])@.contains('\0'),
                *layers == self.enabled_layers,
            decreases layers@.len() - i,
        {
            if crate::names::has_nul(layers[i].as_str()) {
                assert(self.enabled_layers@[i as int]@.contains('\0'));
                return false;
            }
            i += 1;
        }
        true
    }
}

impl PartialEq for Instance {
    fn eq(&self, other: &Self) -> (equal: bool) {
        self.handle == other.handle
    }
}

impl vstd::std_specs::cmp::PartialEqSpecImpl for Instance {
    open spec fn obeys_eq_spec() -> bool {
        true
    }

    open spec fn eq_spec(&self, other: &Self) -> bool {
        self.handle == other.handle
    }
}

impl Eq for Instance {

}

impl Hash for Instance {
    fn hash<H: Hasher>(&self, state: &mut H)
        ensures
            exists|fed: &mut H| #[trigger]
                call_ensures(feed_u64::<H>, (self.handle, fed), ()) && *fed == *old(state)
                    && *final(fed) == *final(state),
    {
        feed_u64(self.handle, state);
    }
}

/// A physical device of an instance.
#[derive(Clone, Copy, Debug)]
pub struct PhysicalDevice<'a> {
    instance: &'a Arc<Instance>,
    index: usize,
}

/// What a `PhysicalDevice` stands for.
pub struct PhysicalDeviceView {
    pub instance: Instance,
    pub index: nat,
}

impl PhysicalDeviceView {
    /// Whether there is such a physical device.
    pub open spec fn wf(self) -> bool {
        self.index < self.instance.physical_devices@.len()
    }

    /// What is known of the physical device.
    pub open spec fn info(self) -> PhysicalDeviceInfo {
        self.instance.physical_devices@[self.index as int]
    }

    /// The version that a device made from this physical device has: the lower of the one that the
    /// physical device supports and the highest that the instance may use.
    pub open spec fn usable_version(self) -> Version {
        self.info().api_version.lower(self.instance.max_api_version)
    }
}

impl<'a> View for PhysicalDevice<'a> {
    type V = PhysicalDeviceView;

    closed spec fn view(&self) -> PhysicalDeviceView {
        PhysicalDeviceView { instance: **self.instance, index: self.index as nat }
    }
}

impl<'a> PhysicalDevice<'a> {
    /// What holds of every value.
    #[verifier::type_invariant]
    pub open spec fn inv(self) -> bool {
        self@.wf()
    }

    /// The physical device of that index, if the instance has it.
    pub fn from_index(instance: &'a Arc<Instance>, index: usize) -> (found: Option<
        PhysicalDevice<'a>,
    >)
        ensures
            found is Some <==> index < instance.physical_devices@.len(),
            found matches Some(physical_device) ==> physical_device@ == (PhysicalDeviceView {
                instance: **instance,
                index: index as nat,
            }),
    {
        if index < instance.physical_devices.len() {
            Some(PhysicalDevice { instance, index })
        } else {
            None
        }
    }

    /// The instance that the physical device belongs to.
    pub fn instance(&self) -> (instance: &'a Arc<Instance>)
        ensures
            **instance == self@.instance,
    {
        self.instance
    }

    /// The index of the physical device within its instance.
    pub fn index(&self) -> (index: usize)
        ensures
            index == self@.index,
            self@.wf(),
    {
        proof {
            use_type_invariant(self);
        }
        self.index
    }

    /// What is known of the physical device.
    pub fn info(&self) -> (info: &'a PhysicalDeviceInfo)
        ensures
            *info == self@.info(),
            self@.wf(),
    {
        proof {
            use_type_invariant(self);
        }
        &self.instance.physical_devices[self.index]
    }

    /// The handle of the physical device.
    pub fn internal_object(&self) -> (handle: u64)
        ensures
            handle == self@.info().handle,
    {
        self.info().handle
    }

    /// The queue family of that id, if the physical device has it.
    pub fn queue_family_by_id(&self, id: u32) -> (found: Option<QueueFamily<'a>>)
        ensures
            found is Some <==> id < self@.info().queue_families@.len(),
            found matches Some(family) ==> family@ == (QueueFamilyView {
                physical_device: self@,
                id,
            }),
    {
        if (id as usize) < self.info().queue_families.len() {
            Some(QueueFamily { physical_device: *self, id })
        } else {
            None
        }
    }
}

/// A family of queues of a physical device.
#[derive(Clone, Copy, Debug)]
pub struct QueueFamily<'a> {
    physical_device: PhysicalDevice<'a>,
    id: u32,
}

/// What a `QueueFamily` stands for.
pub struct QueueFamilyView {
    pub physical_device: PhysicalDeviceView,
    pub id: u32,
}

impl QueueFamilyView {
    /// Whether there is such a queue family.
    pub open spec fn wf(self) -> bool {
        &&& self.physical_device.wf()
        &&& self.id < self.physical_device.info().queue_families@.len()
    }

    /// How many queues the family has.
    pub open spec fn queue_count(self) -> nat {
        self.physical_device.info().queue_families@[self.id as int].queue_count as nat
    }

    /// Whether two values stand for the same family: the id and the physical device are the same.
    pub open spec fn same_as(self, other: QueueFamilyView) -> bool {
        &&& self.id == other.id
        &&& self.physical_device.info().handle == other.physical_device.info().handle
    }

    /// Whether the family is one of the physical device's: the handles of the physical devices are
    /// the same, and what is known of the family is the same too.
    pub open spec fn belongs_to(self, physical_device: PhysicalDeviceView) -> bool {
        &&& self.physical_device.info().handle == physical_device.info().handle
        &&& self.id < physical_device.info().queue_families@.len()
        &&& self.queue_count() == (QueueFamilyView { physical_device, id: self.id }).queue_count()
    }
}

impl<'a> View for QueueFamily<'a> {
    type V = QueueFamilyView;

    closed spec fn view(&self) -> QueueFamilyView {
        QueueFamilyView { physical_device: self.physical_device@, id: self.id }
    }
}

impl<'a> QueueFamily<'a> {
    /// What holds of every value.
    #[verifier::type_invariant]
    pub open spec fn inv(self) -> bool {
        self@.wf()
    }

    /// The physical device that the family belongs to.
    pub fn physical_device(&self) -> (physical_device: PhysicalDevice<'a>)
        ensures
            physical_device@ == self@.physical_device,
    {
        self.physical_device
    }

    /// The id of the family.
    pub fn id(&self) -> (id: u32)
        ensures
            id == self@.id,
    {
        self.id
    }

    /// How many queues the family has.
    pub fn queues_count(&self) -> (count: usize)
        ensures
            count == self@.queue_count(),
    {
        proof {
            use_type_invariant(self);
        }
        self.physical_device.info().queue_families[self.id as usize].queue_count as usize
    }

    /// Whether the family is one of the physical device's.
    pub fn is_of(&self, physical_device: &PhysicalDevice<'_>) -> (is_of: bool)
        ensures
            is_of == self@.belongs_to(physical_device@),
    {
        if self.physical_device.internal_object() != physical_device.internal_object() {
            return false;
        }
        match physical_device.queue_family_by_id(self.id) {
            Some(family) => self.queues_count() == family.queues_count(),
            None => false,
        }
    }
}

impl<'a> PartialEq for QueueFamily<'a> {
    fn eq(&self, other: &Self) -> (equal: bool) {
        self.id == other.id && self.physical_device.internal_object()
            == other.physical_device.internal_object()
    }
}

impl<'a> vstd::std_specs::cmp::PartialEqSpecImpl for QueueFamily<'a> {
    open spec fn obeys_eq_spec() -> bool {
        true
    }

    open spec fn eq_spec(&self, other: &Self) -> bool {
        self@.same_as(other@)
    }
}

impl<'a> Eq for QueueFamily<'a> {

}

} // verus!
