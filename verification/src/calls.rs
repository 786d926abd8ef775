//! What calls of the library give back, in terms of what they are given.
use crate::create::{DeviceCreateInfo, DevicePlan};
use crate::device::{Device, ExternalMemoryHandleType, MemoryFdProperties};
use crate::error::{DeviceCreationError, Error, MemoryFdPropertiesError};
use crate::extensions::ExtensionContext;
use crate::physical::PhysicalDevice;
use crate::queue::Queue;
use std::sync::Arc;
use vstd::prelude::*;

verus! {

/// A request that is found proper has a priority between zero and one at every place of every item;
/// so one priority out of that range, at any place, makes a request improper.
pub proof fn law_priorities_of_proper_requests(
    info: DeviceCreateInfo<'_>,
    physical_device: PhysicalDevice<'_>,
    proper: bool,
    i: int,
    k: int,
)
    requires
        call_ensures(DeviceCreateInfo::is_proper_for, (&info, &physical_device), proper),
        0 <= i < info.queue_create_infos@.len(),
        0 <= k < info.queue_create_infos@[i].queues@.len(),
    ensures
        !crate::priority::in_unit_range(info.queue_create_infos@[i].queues@[k].bits) ==> !proper,
        proper ==> info.queue_create_infos@[i].queues@[k].bits <= 0x3F80_0000
            || info.queue_create_infos@[i].queues@[k].bits == 0x8000_0000,
{
    let bits = info.queue_create_infos@[i].queues@[k].bits;
    crate::priority::lemma_unit_range(bits);
}

/// The queues that come with a new device are in the order in which they were asked for: where
/// `starts` counts how many queues are asked for before each item, the queue `id` of the item `r` is
/// at the place `starts[r] + id`, and there are no others.
pub proof fn law_new_device_queues<'a, C, G>(
    physical_device: PhysicalDevice<'a>,
    create_info: DeviceCreateInfo<'_>,
    create_device: C,
    get_device_queue: G,
    device: Arc<Device>,
    queues: Vec<Arc<Queue>>,
    starts: Seq<int>,
    r: int,
    id: int,
) where C: FnOnce(&DevicePlan<'a>) -> Result<u64, Error>, G: Fn(u64, u32, u32) -> u64
    requires
        call_ensures(
            Device::new::<C, G>,
            (physical_device, create_info, create_device, get_device_queue),
            Ok((device, queues)),
        ),
        starts.len() == create_info.queue_create_infos@.len() + 1,
        starts[0] == 0,
        forall|k: int|
            0 <= k < create_info.queue_create_infos@.len() ==> starts[k + 1] == starts[k] + (
            #[trigger] create_info.queue_create_infos@[k]).queues@.len(),
        0 <= r < create_info.queue_create_infos@.len(),
        0 <= id < create_info.queue_create_infos@[r].queues@.len(),
    ensures
        queues@.len() == starts[create_info.queue_create_infos@.len() as int],
        0 <= starts[r] + id < queues@.len(),
        queues@[starts[r] + id]@.family == create_info.queue_create_infos@[r].family@.id,
        queues@[starts[r] + id]@.id == id,
        queues@[starts[r] + id]@.device == device@,
        call_ensures(
            get_device_queue,
            (device@.handle, create_info.queue_create_infos@[r].family@.id, id as u32),
            queues@[starts[r] + id]@.handle,
        ),
{
    let request = create_info@;
    let created: Result<(Arc<Device>, Vec<Arc<Queue>>), DeviceCreationError> = Ok(
        (device, queues),
    );
    let (plan, reply) = choose|plan: DevicePlan<'a>, reply: Result<u64, Error>| #[trigger]
        call_ensures(create_device, (&plan,), reply) && plan.is_for(request, physical_device@)
            && match reply {
            Ok(handle) => {
                &&& created is Ok
                &&& created->Ok_0.0@ == plan.device(handle)
                &&& Queue::are_of(
                    created->Ok_0.1@,
                    created->Ok_0.0@,
                    plan.queues_to_get@,
                    get_device_queue,
                )
            },
            Err(error) => created is Err && Some(created->Err_0) == DeviceCreationError::of(error),
        };
    assert forall|k: int| 0 <= k < request.queues.len() implies starts[k + 1] == starts[k] + (
    #[trigger] request.queues[k]).priorities.len() by {
        assert(request.queues[k] == create_info.queue_create_infos@[k]@);
    }
    crate::laws::law_order_of_created_queues(
        plan,
        request,
        physical_device@,
        reply->Ok_0,
        queues@,
        get_device_queue,
        starts,
        r,
        id,
    );
}

/// A new device has the features that were asked for and robust buffer access, and no others; the
/// extensions that were asked for and the portability subset where that is supported, and no others;
/// the lower of the two versions; and the families that were asked of. It was created by a call that
/// was given the same.
pub proof fn law_new_device<'a, C, G>(
    physical_device: PhysicalDevice<'a>,
    create_info: DeviceCreateInfo<'_>,
    create_device: C,
    get_device_queue: G,
    device: Arc<Device>,
    queues: Vec<Arc<Queue>>,
    name: Seq<char>,
) where C: FnOnce(&DevicePlan<'a>) -> Result<u64, Error>, G: Fn(u64, u32, u32) -> u64
    requires
        call_ensures(
            Device::new::<C, G>,
            (physical_device, create_info, create_device, get_device_queue),
            Ok((device, queues)),
        ),
    ensures
        crate::names::listed(device@.enabled_features, name) <==> {
            ||| crate::names::listed(create_info.enabled_features.set@, name)
            ||| name == "robust_buffer_access"@
        },
        crate::names::listed(device@.enabled_extensions, name) <==> {
            ||| crate::names::listed(create_info.enabled_extensions.set@, name)
            ||| name == "VK_KHR_portability_subset"@ && crate::names::listed(
                physical_device@.info().supported_extensions@,
                "VK_KHR_portability_subset"@,
            )
        },
        device@.physical_device == physical_device@,
        device@.api_version.le(physical_device@.info().api_version),
        device@.api_version.le(physical_device@.instance.max_api_version),
        device@.api_version == physical_device@.info().api_version || device@.api_version
            == physical_device@.instance.max_api_version,
        forall|family: u32| #[trigger]
            device@.active_queue_families.contains(family) <==> exists|i: int|
                0 <= i < create_info.queue_create_infos@.len() && (
                #[trigger] create_info.queue_create_infos@[i]).family@.id == family,
        exists|plan: DevicePlan<'a>| #[trigger]
            call_ensures(create_device, (&plan,), Ok(device@.handle)) && plan.physical_device@
                == physical_device@ && plan.enabled_features@ == device@.enabled_features
                && plan.enabled_extensions@ == device@.enabled_extensions && plan.api_version
                == device@.api_version,
{
    let request = create_info@;
    let created: Result<(Arc<Device>, Vec<Arc<Queue>>), DeviceCreationError> = Ok(
        (device, queues),
    );
    let (plan, reply) = choose|plan: DevicePlan<'a>, reply: Result<u64, Error>| #[trigger]
        call_ensures(create_device, (&plan,), reply) && plan.is_for(request, physical_device@)
            && match reply {
            Ok(handle) => {
                &&& created is Ok
                &&& created->Ok_0.0@ == plan.device(handle)
                &&& Queue::are_of(
                    created->Ok_0.1@,
                    created->Ok_0.0@,
                    plan.queues_to_get@,
                    get_device_queue,
                )
            },
            Err(error) => created is Err && Some(created->Err_0) == DeviceCreationError::of(error),
        };
    crate::laws::law_created_device(
        plan,
        request,
        physical_device@,
        reply->Ok_0,
        device@,
        name,
    );
    crate::laws::law_version(physical_device@);
    assert forall|family: u32| #[trigger]
        device@.active_queue_families.contains(family) <==> exists|i: int|
            0 <= i < create_info.queue_create_infos@.len() && (
            #[trigger] create_info.queue_create_infos@[i]).family@.id == family by {
        if device@.active_queue_families.contains(family) {
            let i = choose|i: int|
                0 <= i < request.queues.len() && (#[trigger] request.queues[i]).family.id == family;
            assert(create_info.queue_create_infos@[i].family@.id == family);
        }
        if exists|i: int|
            0 <= i < create_info.queue_create_infos@.len() && (
            #[trigger] create_info.queue_create_infos@[i]).family@.id == family {
            let i = choose|i: int|
                0 <= i < create_info.queue_create_infos@.len() && (
                #[trigger] create_info.queue_create_infos@[i]).family@.id == family;
            assert(request.queues[i].family.id == family);
        }
    }
}

/// A new device keeps all rules for extensions that apply to its own version, with what they require
/// of the version held against that version, and all its extensions are supported.
pub proof fn law_new_device_extensions<'a, C, G>(
    physical_device: PhysicalDevice<'a>,
    create_info: DeviceCreateInfo<'_>,
    create_device: C,
    get_device_queue: G,
    device: Arc<Device>,
    queues: Vec<Arc<Queue>>,
) where C: FnOnce(&DevicePlan<'a>) -> Result<u64, Error>, G: Fn(u64, u32, u32) -> u64
    requires
        call_ensures(
            Device::new::<C, G>,
            (physical_device, create_info, create_device, get_device_queue),
            Ok((device, queues)),
        ),
    ensures
        ({
            let instance = physical_device@.instance;
            let info = instance.physical_devices@[physical_device@.index as int];
            let extension_rules = instance.registry.extension_rules@;
            let feature_rules = instance.registry.feature_rules@;
            let context = ExtensionContext {
                supported: info.supported_extensions@,
                api_version: device@.api_version,
                instance_extensions: instance.enabled_extensions@,
            };
            &&& crate::names::all_in(device@.enabled_extensions, info.supported_extensions@)
            &&& forall|i: int|
                0 <= i < extension_rules.len() && (#[trigger] extension_rules[i]).since.le(
                    device@.api_version,
                ) ==> !extension_rules[i].error.broken_by(device@.enabled_extensions, context)
            &&& crate::names::all_in(device@.enabled_features, info.supported_features@)
            &&& forall|i: int|
                0 <= i < feature_rules.len() && (#[trigger] feature_rules[i]).since.le(
                    device@.api_version,
                ) ==> !feature_rules[i].error.broken_by(
                    device@.enabled_features,
                    info.supported_features@,
                    device@.enabled_extensions,
                )
        }),
{
    let request = create_info@;
    let created: Result<(Arc<Device>, Vec<Arc<Queue>>), DeviceCreationError> = Ok(
        (device, queues),
    );
    let (plan, reply) = choose|plan: DevicePlan<'a>, reply: Result<u64, Error>| #[trigger]
        call_ensures(create_device, (&plan,), reply) && plan.is_for(request, physical_device@)
            && match reply {
            Ok(handle) => {
                &&& created is Ok
                &&& created->Ok_0.0@ == plan.device(handle)
                &&& Queue::are_of(
                    created->Ok_0.1@,
                    created->Ok_0.0@,
                    plan.queues_to_get@,
                    get_device_queue,
                )
            },
            Err(error) => created is Err && Some(created->Err_0) == DeviceCreationError::of(error),
        };
    crate::laws::law_created_device(
        plan,
        request,
        physical_device@,
        reply->Ok_0,
        device@,
        Seq::empty(),
    );
    crate::laws::law_accepted_extensions(plan, request, physical_device@);
    crate::laws::law_accepted_features(plan, request, physical_device@);
}

/// The properties of a file descriptor are refused as not supported exactly where the extension is
/// not among those of the device; with it, at whatever place and beside whatever others, a handle
/// type is refused exactly where it is that of opaque file descriptors, and for every other the
/// driver is asked and its reply is given back.
pub proof fn law_memory_fd_calls<
    F,
    G: FnOnce(u64, ExternalMemoryHandleType, F) -> Result<u32, Error>,
>(
    device: Device,
    handle_type: ExternalMemoryHandleType,
    file: F,
    get_memory_fd_properties: G,
    properties: Result<MemoryFdProperties, MemoryFdPropertiesError>,
)
    requires
        call_ensures(
            Device::memory_fd_properties::<F, G>,
            (&device, handle_type, file, get_memory_fd_properties),
            properties,
        ),
    ensures
        ({
            let on = crate::names::listed(
                device@.enabled_extensions,
                "VK_KHR_external_memory_fd"@,
            );
            &&& properties == Err::<MemoryFdProperties, MemoryFdPropertiesError>(
                MemoryFdPropertiesError::NotSupported,
            ) <==> !on
            &&& properties == Err::<MemoryFdProperties, MemoryFdPropertiesError>(
                MemoryFdPropertiesError::InvalidExternalHandleType,
            ) <==> on && handle_type == ExternalMemoryHandleType::OpaqueFd
            &&& on && handle_type != ExternalMemoryHandleType::OpaqueFd ==> exists|
                reply: Result<u32, Error>,
            | #[trigger]
                call_ensures(
                    get_memory_fd_properties,
                    (device@.handle, handle_type, file),
                    reply,
                ) && (reply is Ok <==> properties is Ok) && (reply is Ok ==> reply->Ok_0
                    == properties->Ok_0.memory_type_bits)
        }),
{
}

} // verus!
