//! What the words come to that the contracts are written in.
//!
//! Each law here says of one of them, for all values, what it means for numbers, names and lists.
use crate::create::{DeviceCreateInfo, DeviceRequest, QueueRequest};
use crate::device::{Device, DeviceView, MemoryFdProperties};
use crate::error::{
    DebugUtilsError, DeviceCreationError, Error, MemoryFdPropertiesError, OomError,
};
use crate::extensions::{
    DeviceExtensions, ExtensionContext, ExtensionRestriction, ExtensionRestrictionError,
    InstanceExtensions, OneOfRequirements,
};
use crate::features::{FeatureRestriction, FeatureRestrictionError, Features};
use crate::lists::QueueToGet;
use crate::physical::{Instance, PhysicalDeviceView, QueueFamily, QueueFamilyView};
use crate::queue::{Queue, QueueView};
use crate::version::Version;
use std::sync::Arc;
use vstd::prelude::*;
use vstd::std_specs::cmp::PartialEqSpec;
use vstd::std_specs::convert::FromSpec;

verus! {

/// Versions are ordered as the numbers are that have the major, the minor and the patch number for
/// digits, and the lower of two is the one with the smaller number.
pub proof fn law_versions(a: Version, b: Version)
    ensures
        ({
            let number = |v: Version|
                (v.major as int * 0x1_0000_0000 + v.minor as int) * 0x1_0000_0000 + v.patch as int;
            &&& a.le(b) <==> number(a) <= number(b)
            &&& number(a) == number(b) ==> a == b
            &&& number(a) <= number(b) ==> a.lower(b) == a
            &&& number(b) <= number(a) ==> a.lower(b) == b
        }),
{
}

/// A name is listed where it stands at some place, a list is in another where each of its names
/// is, and names are distinct where those at two places never are the same.
pub proof fn law_lists_of_names(
    list: Seq<&'static str>,
    other: Seq<&'static str>,
    name: Seq<char>,
)
    ensures
        crate::names::listed(list, name) <==> exists|i: int|
            0 <= i < list.len() && (#[trigger] list[i])@ == name,
        crate::names::all_in(list, other) <==> forall|i: int|
            0 <= i < list.len() ==> crate::names::listed(other, (#[trigger] list[i])@),
        crate::names::distinct(list) <==> forall|i: int, j: int|
            0 <= i < list.len() && 0 <= j < list.len() && (#[trigger] list[i])@ == (
            #[trigger] list[j])@ ==> i == j,
{
}

/// Adding a name leaves the list as it is at its places, and makes it one longer exactly where the
/// name was not listed; then the name stands at the end.
pub proof fn law_added_name(list: Seq<&'static str>, added: &'static str)
    ensures
        ({
            let with = crate::names::with_name(list, added);
            &&& forall|i: int| 0 <= i < list.len() ==> #[trigger] with[i] == list[i]
            &&& (exists|i: int| 0 <= i < list.len() && (#[trigger] list[i])@ == added@)
                ==> with.len() == list.len()
            &&& (forall|i: int| 0 <= i < list.len() ==> (#[trigger] list[i])@ != added@)
                ==> with.len() == list.len() + 1 && with[list.len() as int] == added
        }),
{
}

/// The set of the names in a list holds each of them, once, and no other.
pub proof fn law_set_of_names(list: Seq<&'static str>, name: Seq<char>)
    ensures
        crate::names::listed(crate::features::set_of(list), name) <==> crate::names::listed(
            list,
            name,
        ),
        crate::names::distinct(crate::features::set_of(list)),
    decreases list.len(),
{
    if list.len() > 0 {
        let front = list.drop_last();
        let last = list[list.len() - 1];
        let before = crate::features::set_of(front);
        let set = crate::features::set_of(list);
        law_set_of_names(front, name);
        assert(list =~= front.push(last));
        if crate::names::listed(front, name) {
            let i = choose|i: int| 0 <= i < front.len() && (#[trigger] front[i])@ == name;
            assert(list[i]@ == name);
        }
        if crate::names::listed(before, name) {
            let j = choose|j: int| 0 <= j < before.len() && (#[trigger] before[j])@ == name;
            assert(set[j]@ == name);
        }
        if crate::names::listed(list, name) {
            let i = choose|i: int| 0 <= i < list.len() && (#[trigger] list[i])@ == name;
            if i < front.len() {
                assert(front[i]@ == name);
            } else if !crate::names::listed(before, name) {
                assert(set[before.len() as int]@ == name);
            }
        }
        if crate::names::listed(set, name) {
            let j = choose|j: int| 0 <= j < set.len() && (#[trigger] set[j])@ == name;
            if j < before.len() {
                assert(before[j]@ == name);
            } else {
                assert(list[list.len() - 1]@ == name);
            }
        }
    }
}

/// What an extension requires is met from the version on that is given, or where one of the
/// extensions that are given stands among those of the device or of the instance.
pub proof fn law_requirements(
    one_of: OneOfRequirements,
    api_version: Version,
    device_extensions: Seq<&'static str>,
    instance_extensions: Seq<&'static str>,
)
    ensures
        one_of.met(api_version, device_extensions, instance_extensions) <==> {
            ||| one_of.api_version is Some && one_of.api_version->Some_0.le(api_version)
            ||| exists|i: int, j: int|
                0 <= i < one_of.device_extensions@.len() && 0 <= j < device_extensions.len() && (
                #[trigger] one_of.device_extensions@[i])@ == (#[trigger] device_extensions[j])@
            ||| exists|i: int, j: int|
                0 <= i < one_of.instance_extensions@.len() && 0 <= j < instance_extensions.len()
                    && (#[trigger] one_of.instance_extensions@[i])@ == (
                #[trigger] instance_extensions[j])@
        },
{
    lemma_any_listed(one_of.device_extensions@, device_extensions);
    lemma_any_listed(one_of.instance_extensions@, instance_extensions);
}

/// Some wanted name is listed where one stands at some place.
proof fn lemma_any_listed(wanted: Seq<&'static str>, present: Seq<&'static str>)
    ensures
        crate::extensions::any_listed(wanted, present) <==> exists|i: int, j: int|
            0 <= i < wanted.len() && 0 <= j < present.len() && (#[trigger] wanted[i])@ == (
            #[trigger] present[j])@,
{
    if crate::extensions::any_listed(wanted, present) {
        let i = choose|i: int|
            0 <= i < wanted.len() && crate::names::listed(present, (#[trigger] wanted[i])@);
        let j = choose|j: int| 0 <= j < present.len() && (#[trigger] present[j])@ == wanted[i]@;
        assert(wanted[i]@ == present[j]@);
    }
    if exists|i: int, j: int|
        0 <= i < wanted.len() && 0 <= j < present.len() && (#[trigger] wanted[i])@ == (
        #[trigger] present[j])@ {
        let (i, j) = choose|i: int, j: int|
            0 <= i < wanted.len() && 0 <= j < present.len() && (#[trigger] wanted[i])@ == (
            #[trigger] present[j])@;
        assert(crate::names::listed(present, wanted[i]@));
    }
}

/// Which extensions break which restriction of an extension.
pub proof fn law_extension_restrictions(
    extension: &'static str,
    other: &'static str,
    one_of: OneOfRequirements,
    enabled: Seq<&'static str>,
    context: ExtensionContext,
)
    ensures
        ({
            let on = exists|i: int| 0 <= i < enabled.len() && (#[trigger] enabled[i])@ == extension@;
            let supported = exists|i: int|
                0 <= i < context.supported.len() && (#[trigger] context.supported[i])@
                    == extension@;
            let with_other = exists|i: int|
                0 <= i < enabled.len() && (#[trigger] enabled[i])@ == other@;
            let broken = |restriction: ExtensionRestriction|
                (ExtensionRestrictionError { extension, restriction }).broken_by(enabled, context);
            &&& broken(ExtensionRestriction::NotSupported) <==> on && !supported
            &&& broken(ExtensionRestriction::RequiredIfSupported) <==> !on && supported
            &&& broken(ExtensionRestriction::Requires(one_of)) <==> on && !one_of.met(
                context.api_version,
                enabled,
                context.instance_extensions,
            )
            &&& broken(ExtensionRestriction::ConflictsDeviceExtension(other)) <==> on && with_other
        }),
{
}

/// Which features and extensions break which restriction of a feature.
pub proof fn law_feature_restrictions(
    feature: &'static str,
    other: &'static str,
    enabled: Seq<&'static str>,
    supported_features: Seq<&'static str>,
    device_extensions: Seq<&'static str>,
)
    ensures
        ({
            let on = exists|i: int| 0 <= i < enabled.len() && (#[trigger] enabled[i])@ == feature@;
            let supported = exists|i: int|
                0 <= i < supported_features.len() && (#[trigger] supported_features[i])@
                    == feature@;
            let with_other = exists|i: int|
                0 <= i < enabled.len() && (#[trigger] enabled[i])@ == other@;
            let with_extension = exists|i: int|
                0 <= i < device_extensions.len() && (#[trigger] device_extensions[i])@ == other@;
            let broken = |restriction: FeatureRestriction|
                (FeatureRestrictionError { feature, restriction }).broken_by(
                    enabled,
                    supported_features,
                    device_extensions,
                );
            &&& broken(FeatureRestriction::NotSupported) <==> on && !supported
            &&& broken(FeatureRestriction::RequiresFeature(other)) <==> on && !with_other
            &&& broken(FeatureRestriction::ConflictsFeature(other)) <==> on && with_other
            &&& broken(FeatureRestriction::RequiredByExtension(other)) <==> !on && with_extension
        }),
{
}

/// What is known of a physical device stands at its index in the instance, and its version is the
/// lower of its own and the instance's.
pub proof fn law_physical_device(physical_device: PhysicalDeviceView)
    ensures
        physical_device.wf() <==> physical_device.index
            < physical_device.instance.physical_devices@.len(),
        physical_device.info()
            == physical_device.instance.physical_devices@[physical_device.index as int],
        physical_device.info().api_version.le(physical_device.instance.max_api_version)
            ==> physical_device.usable_version() == physical_device.info().api_version,
        physical_device.instance.max_api_version.le(physical_device.info().api_version)
            ==> physical_device.usable_version() == physical_device.instance.max_api_version,
{
}

/// A queue family is told by its id and the handle of its physical device, and has as many queues
/// as are known of it.
pub proof fn law_queue_families(
    a: QueueFamilyView,
    b: QueueFamilyView,
    physical_device: PhysicalDeviceView,
)
    ensures
        ({
            let info_a = a.physical_device.instance.physical_devices@[
                a.physical_device.index as int
            ];
            let info_b = b.physical_device.instance.physical_devices@[
                b.physical_device.index as int
            ];
            let info = physical_device.instance.physical_devices@[physical_device.index as int];
            &&& a.queue_count() == info_a.queue_families@[a.id as int].queue_count
            &&& a.same_as(b) <==> a.id == b.id && info_a.handle == info_b.handle
            &&& a.belongs_to(physical_device) <==> {
                &&& info_a.handle == info.handle
                &&& a.id < info.queue_families@.len()
                &&& info_a.queue_families@[a.id as int].queue_count
                    == info.queue_families@[a.id as int].queue_count
            }
            &&& a.wf() <==> {
                &&& a.physical_device.index < a.physical_device.instance.physical_devices@.len()
                &&& a.id < info_a.queue_families@.len()
            }
        }),
{
}

/// The layers of an instance can be handed over where no character of any of their names is NUL.
pub proof fn law_c_layers(instance: Instance)
    ensures
        instance.layers_are_c_strings() <==> forall|i: int, j: int|
            0 <= i < instance.enabled_layers@.len() && 0 <= j
                < instance.enabled_layers@[i]@.len() ==> #[trigger] instance.enabled_layers@[i]@[j]
                != '\0',
{
    if instance.layers_are_c_strings() {
        assert forall|i: int, j: int|
            0 <= i < instance.enabled_layers@.len() && 0 <= j
                < instance.enabled_layers@[i]@.len() implies
        #[trigger] instance.enabled_layers@[i]@[j] != '\0' by {
            let name = instance.enabled_layers@[i];
            assert(!name@.contains('\0'));
        }
    }
}

/// What a `DeviceCreateInfo` asks for stands in it: each item of the request is the item at the same
/// place, with its family and all its priorities.
pub proof fn law_request(info: DeviceCreateInfo<'_>)
    ensures
        info@.enabled_extensions == info.enabled_extensions.set@,
        info@.enabled_features == info.enabled_features.set@,
        info@.queues.len() == info.queue_create_infos@.len(),
        forall|i: int|
            0 <= i < info.queue_create_infos@.len() ==> {
                &&& (#[trigger] info@.queues[i]).family == info.queue_create_infos@[i].family@
                &&& info@.queues[i].priorities == info.queue_create_infos@[i].queues@
            },
{
}

/// A set of flags is the set of names that it holds.
pub proof fn law_flags(
    instance_extensions: InstanceExtensions,
    device_extensions: DeviceExtensions,
    features: Features,
)
    ensures
        instance_extensions@ == instance_extensions.set@,
        device_extensions@ == device_extensions.set@,
        features@ == features.set@,
{
}

/// A device has a queue where the family is active and the index is below what is known to be the
/// number of queues of the family; that is what holds of a queue of a device.
pub proof fn law_queues_of_devices(queue: QueueView)
    ensures
        ({
            let device = queue.device;
            let pd = device.physical_device;
            let has = exists|i: int|
                0 <= i < device.active_queue_families.len()
                    && #[trigger] device.active_queue_families[i] == queue.family;
            let families = pd.instance.physical_devices@[pd.index as int].queue_families@;
            &&& (QueueToGet { family: queue.family, id: queue.id }).is_of(device) <==> has
                && queue.id < families[queue.family as int].queue_count
            &&& queue.wf() <==> device.wf() && has && queue.id
                < families[queue.family as int].queue_count
            &&& queue.queue_family().id == queue.family
            &&& queue.queue_family().physical_device == pd
        }),
{
    let list = queue.device.active_queue_families;
    assert(list.contains(queue.family) <==> exists|i: int|
        0 <= i < list.len() && #[trigger] list[i] == queue.family);
}

/// A device is sound where there is its physical device, and its active families are families of
/// it, the lower id first and none twice.
pub proof fn law_sound_devices(device: DeviceView)
    ensures
        ({
            let pd = device.physical_device;
            let active = device.active_queue_families;
            device.wf() <==> {
                &&& pd.index < pd.instance.physical_devices@.len()
                &&& forall|i: int, j: int|
                    0 <= i < j < active.len() ==> #[trigger] active[i] < #[trigger] active[j]
                &&& forall|i: int|
                    0 <= i < active.len() ==> #[trigger] active[i]
                        < pd.instance.physical_devices@[pd.index as int].queue_families@.len()
            }
        }),
{
}

/// Instances are told by their handles, queue families by id and physical device, devices by their
/// handle and their instance, and queues by their place, their family and their device: `==` and
/// the hashes go by that, and by nothing else.
pub proof fn law_sameness(
    a: Device,
    b: Device,
    p: Queue,
    q: Queue,
    i: Instance,
    j: Instance,
    f: QueueFamily<'_>,
    g: QueueFamily<'_>,
)
    ensures
        i.eq_spec(&j) <==> i.handle == j.handle,
        a.eq_spec(&b) <==> a@.handle == b@.handle && a@.physical_device.instance.handle
            == b@.physical_device.instance.handle,
        a@.same_as(b@) <==> a.eq_spec(&b),
        a@.hash_input().0 == a@.handle,
        a@.hash_input().1 == a@.physical_device.instance.handle,
        p.eq_spec(&q) <==> p@.id == q@.id && p@.family == q@.family && p@.device.handle
            == q@.device.handle && p@.device.physical_device.instance.handle
            == q@.device.physical_device.instance.handle,
        p@.same_as(q@) <==> p.eq_spec(&q),
        p@.hash_input().0 == p@.id,
        p@.hash_input().1 == p@.family,
        p@.hash_input().2.0 == p@.device.handle,
        p@.hash_input().2.1 == p@.device.physical_device.instance.handle,
        f.eq_spec(&g) <==> f@.id == g@.id && f@.physical_device.info().handle
            == g@.physical_device.info().handle,
        <Instance as PartialEqSpec>::obeys_eq_spec(),
        <Device as PartialEqSpec>::obeys_eq_spec(),
        <Queue as PartialEqSpec>::obeys_eq_spec(),
        <QueueFamily<'_> as PartialEqSpec>::obeys_eq_spec(),
{
}

/// Which error each code stands for.
pub proof fn law_error_codes(code: i32)
    ensures
        ({
            let error = Error::of_code(code);
            &&& error == Error::OutOfHostMemory <==> code == -1
            &&& error == Error::OutOfDeviceMemory <==> code == -2
            &&& error == Error::InitializationFailed <==> code == -3
            &&& error == Error::DeviceLost <==> code == -4
            &&& error == Error::ExtensionNotPresent <==> code == -7
            &&& error == Error::FeatureNotPresent <==> code == -8
            &&& error == Error::TooManyObjects <==> code == -10
            &&& error == Error::InvalidExternalHandle <==> code == -1000072003
            &&& error is Other ==> error->Other_0 == code
        }),
{
}

/// Which errors may occur where, and that each is told by the error of the same name.
pub proof fn law_narrowed_errors(error: Error, other: Error)
    ensures
        OomError::of(error) is Some <==> error is OutOfHostMemory || error is OutOfDeviceMemory,
        OomError::of(error) == Some(OomError::OutOfHostMemory) <==> error is OutOfHostMemory,
        OomError::of(error) == Some(OomError::OutOfDeviceMemory) <==> error is OutOfDeviceMemory,
        MemoryFdPropertiesError::of(error) is Some <==> error is OutOfHostMemory
            || error is InvalidExternalHandle,
        MemoryFdPropertiesError::of(error) == Some(MemoryFdPropertiesError::OutOfHostMemory)
            <==> error is OutOfHostMemory,
        MemoryFdPropertiesError::of(error) == Some(MemoryFdPropertiesError::InvalidExternalHandle)
            <==> error is InvalidExternalHandle,
        DeviceCreationError::of(error) is None <==> error is InvalidExternalHandle
            || error is Other,
        DeviceCreationError::of(error) == Some(DeviceCreationError::InitializationFailed)
            <==> error is InitializationFailed,
        DeviceCreationError::of(error) == Some(DeviceCreationError::OutOfHostMemory)
            <==> error is OutOfHostMemory,
        DeviceCreationError::of(error) == Some(DeviceCreationError::OutOfDeviceMemory)
            <==> error is OutOfDeviceMemory,
        DeviceCreationError::of(error) == Some(DeviceCreationError::DeviceLost)
            <==> error is DeviceLost,
        DeviceCreationError::of(error) == Some(DeviceCreationError::ExtensionNotPresent)
            <==> error is ExtensionNotPresent,
        DeviceCreationError::of(error) == Some(DeviceCreationError::FeatureNotPresent)
            <==> error is FeatureNotPresent,
        DeviceCreationError::of(error) == Some(DeviceCreationError::TooManyObjects)
            <==> error is TooManyObjects,
        DeviceCreationError::of(error) is Some && DeviceCreationError::of(error)
            == DeviceCreationError::of(other) ==> error == other,
{
}

/// A reply of the driver without an error is a success, with what it brought, and a reply with one
/// is a failure with the error of the same name.
pub proof fn law_outcomes(
    reply: Result<(), Error>,
    checked: Result<(), OomError>,
    bits: Result<u32, Error>,
    properties: Result<MemoryFdProperties, MemoryFdPropertiesError>,
)
    ensures
        OomError::is_outcome(reply, checked) ==> {
            &&& reply is Ok <==> checked is Ok
            &&& reply == Err::<(), Error>(Error::OutOfHostMemory) <==> checked == Err::<
                (),
                OomError,
            >(OomError::OutOfHostMemory)
            &&& reply == Err::<(), Error>(Error::OutOfDeviceMemory) <==> checked == Err::<
                (),
                OomError,
            >(OomError::OutOfDeviceMemory)
        },
        MemoryFdProperties::is_outcome(bits, properties) ==> {
            &&& bits is Ok <==> properties is Ok
            &&& bits is Ok ==> properties->Ok_0.memory_type_bits == bits->Ok_0
            &&& bits == Err::<u32, Error>(Error::OutOfHostMemory) <==> properties is Err
                && properties->Err_0 == MemoryFdPropertiesError::OutOfHostMemory
            &&& bits == Err::<u32, Error>(Error::InvalidExternalHandle) <==> properties is Err
                && properties->Err_0 == MemoryFdPropertiesError::InvalidExternalHandle
            &&& properties is Err ==> properties->Err_0
                != MemoryFdPropertiesError::InvalidExternalHandleType && properties->Err_0
                != MemoryFdPropertiesError::NotSupported
        },
{
}

/// An error of the extensions or of the features is wrapped as such, and kept whole.
pub proof fn law_wrapped_errors(
    extension: ExtensionRestrictionError,
    feature: FeatureRestrictionError,
)
    ensures
        <DeviceCreationError as FromSpec<ExtensionRestrictionError>>::obeys_from_spec(),
        <DeviceCreationError as FromSpec<ExtensionRestrictionError>>::from_spec(extension)
            == DeviceCreationError::ExtensionRestrictionNotMet(extension),
        <DeviceCreationError as FromSpec<FeatureRestrictionError>>::obeys_from_spec(),
        <DeviceCreationError as FromSpec<FeatureRestrictionError>>::from_spec(feature)
            == DeviceCreationError::FeatureRestrictionNotMet(feature),
{
}

/// The properties of file descriptors can be asked for where the extension is enabled on the device,
/// at whatever place among the others.
pub proof fn law_memory_fd(device: DeviceView)
    ensures
        device.has_memory_fd() <==> exists|i: int|
            0 <= i < device.enabled_extensions.len() && (#[trigger] device.enabled_extensions[i])@
                == "VK_KHR_external_memory_fd"@,
{
}

/// Debug utils commands are accepted where the extension is enabled on the instance, at whatever
/// place among the others, and else refused with the name of the extension.
pub proof fn law_labels(queue: QueueView)
    ensures
        ({
            let enabled = queue.device.physical_device.instance.enabled_extensions@;
            let on = exists|i: int|
                0 <= i < enabled.len() && (#[trigger] enabled[i])@ == "VK_EXT_debug_utils"@;
            &&& queue.has_debug_utils() <==> on
            &&& queue.label_verdict() is Ok <==> on
            &&& !on ==> (queue.label_verdict()->Err_0)->extension@ == "ext_debug_utils"@
            &&& !on ==> (queue.label_verdict()->Err_0)->reason@
                == "tried to submit a debug utils command"@
        }),
{
}

/// A request for a pool returns what was found, and changes nothing, or finds nothing, and returns
/// a fresh pool, of which a weak reference is kept.
pub proof fn law_pool_requests<W, P, U: Fn(&W) -> Option<Arc<P>>, D: Fn(&Arc<P>) -> W>(
    before: W,
    after: W,
    pool: Arc<P>,
    fresh: bool,
    upgrade: U,
    downgrade: D,
)
    ensures
        crate::pools::pool_step(before, after, pool, fresh, upgrade, downgrade) <==> {
            ||| call_ensures(upgrade, (&before,), Some(pool)) && after == before
            ||| call_ensures(upgrade, (&before,), None::<Arc<P>>) && fresh && call_ensures(
                downgrade,
                (&pool,),
                after,
            )
        },
        crate::pools::gone::<W, P, U>(upgrade, before) <==> call_ensures(
            upgrade,
            (&before,),
            None::<Arc<P>>,
        ),
{
}

/// A request for the pool of a family returns what was found for the family, and changes nothing,
/// or finds nothing, and returns a fresh pool, of which a weak reference is kept for the family.
pub proof fn law_family_pool_requests<W, P, U: Fn(&W) -> Option<Arc<P>>, D: Fn(&Arc<P>) -> W>(
    before: Map<u32, W>,
    after: Map<u32, W>,
    family: u32,
    pool: Arc<P>,
    fresh: bool,
    upgrade: U,
    downgrade: D,
)
    ensures
        crate::pools::family_pool_step(before, after, family, pool, fresh, upgrade, downgrade)
            <==> {
            ||| before.contains_key(family) && call_ensures(
                upgrade,
                (&before[family],),
                Some(pool),
            ) && after =~= before
            ||| {
                &&& before.contains_key(family) ==> call_ensures(
                    upgrade,
                    (&before[family],),
                    None::<Arc<P>>,
                )
                &&& fresh
                &&& exists|weak: W| #[trigger]
                    call_ensures(downgrade, (&pool,), weak) && after =~= before.insert(family, weak)
            }
        },
{
    if before.contains_key(family) ==> call_ensures(
        upgrade,
        (&before[family],),
        None::<Arc<P>>,
    ) {
        if fresh && exists|weak: W| #[trigger]
            call_ensures(downgrade, (&pool,), weak) && after =~= before.insert(family, weak) {
            let weak = choose|weak: W| #[trigger]
                call_ensures(downgrade, (&pool,), weak) && after =~= before.insert(family, weak);
            assert(after[family] == weak);
        }
    }
}

/// What the errors say.
pub proof fn law_messages(
    extension: ExtensionRestrictionError,
    feature: FeatureRestrictionError,
    name: &'static str,
    reason: &'static str,
    one_of: OneOfRequirements,
)
    ensures
        DeviceCreationError::ExtensionRestrictionNotMet(extension).text()
            == "a restriction for the extension "@ + extension.extension@ + " was not met: "@
            + extension.restriction.text(),
        DeviceCreationError::FeatureRestrictionNotMet(feature).text()
            == "a restriction for the feature "@ + feature.feature@ + " was not met: "@
            + feature.restriction.text(),
        ExtensionRestriction::NotSupported.text()
            == "not supported by the loader or physical device"@,
        ExtensionRestriction::RequiredIfSupported.text()
            == "required to be enabled by the physical device"@,
        ExtensionRestriction::Requires(one_of).text()
            == "requires a newer version of Vulkan or another extension to be enabled"@,
        ExtensionRestriction::ConflictsDeviceExtension(name).text()
            == "requires device extension "@ + name@ + " to be disabled"@,
        FeatureRestriction::NotSupported.text() == "not supported by the physical device"@,
        FeatureRestriction::RequiresFeature(name).text()
            == "requires feature "@ + name@ + " to be enabled"@,
        FeatureRestriction::ConflictsFeature(name).text()
            == "requires feature "@ + name@ + " to be disabled"@,
        FeatureRestriction::RequiredByExtension(name).text()
            == "required to be enabled by extension "@ + name@,
        (DebugUtilsError::ExtensionNotEnabled { extension: name, reason }).text()
            == "the extension "@ + name@ + " must be enabled: "@ + reason@,
        DeviceCreationError::InitializationFailed.text()
            == "failed to create the device for an implementation-specific reason"@,
        DeviceCreationError::OutOfHostMemory.text() == "no memory available on the host"@,
        DeviceCreationError::OutOfDeviceMemory.text()
            == "no memory available on the graphical device"@,
        DeviceCreationError::DeviceLost.text() == "failed to connect to the device"@,
        DeviceCreationError::TooManyQueuesForFamily.text()
            == "tried to create too many queues for a given family"@,
        DeviceCreationError::FeatureNotPresent.text()
            == "some of the requested features are unsupported by the physical device"@,
        DeviceCreationError::PriorityOutOfRange.text()
            == "the priority of one of the queues is out of the [0.0; 1.0] range"@,
        DeviceCreationError::ExtensionNotPresent.text()
            == "some of the requested device extensions are not supported by the physical device"@,
        DeviceCreationError::TooManyObjects.text()
            == "you have reached the limit to the number of devices that can be created from the same physical device"@,
        MemoryFdPropertiesError::OutOfHostMemory.text() == "no memory available on the host"@,
        MemoryFdPropertiesError::InvalidExternalHandle.text()
            == "the provided external handle was not valid"@,
        MemoryFdPropertiesError::InvalidExternalHandleType.text()
            == "the provided external handle type was not valid"@,
        MemoryFdPropertiesError::NotSupported.text()
            == "the `khr_external_memory_fd` extension was not enabled on the device"@,
{
}

/// A request can be dealt with only where it asks for queues at all; where each item is about a
/// family of the physical device, with what is known of it there, that no other item is about; and
/// where it asks for at least one queue of it, with a priority between zero and one at every place.
pub proof fn law_proper_requests(request: DeviceRequest, physical_device: PhysicalDeviceView)
    requires
        request.is_proper_for(physical_device),
    ensures
        request.queues.len() > 0,
        ({
            let info = physical_device.instance.physical_devices@[physical_device.index as int];
            forall|i: int|
                0 <= i < request.queues.len() ==> {
                    let family = (#[trigger] request.queues[i]).family;
                    let other = family.physical_device.instance.physical_devices@[
                        family.physical_device.index as int
                    ];
                    &&& other.handle == info.handle
                    &&& family.id < info.queue_families@.len()
                    &&& other.queue_families@[family.id as int].queue_count
                        == info.queue_families@[family.id as int].queue_count
                    &&& request.queues[i].priorities.len() > 0
                }
        }),
        forall|i: int, j: int|
            0 <= i < request.queues.len() && 0 <= j < request.queues.len() && i != j ==> (
            #[trigger] request.queues[i]).family.id != (#[trigger] request.queues[j]).family.id,
        forall|i: int, k: int|
            0 <= i < request.queues.len() && 0 <= k < request.queues[i].priorities.len()
                ==> crate::priority::in_unit_range(
                (#[trigger] request.queues[i].priorities[k]).bits,
            ) && (request.queues[i].priorities[k].bits <= 0x3F80_0000
                || request.queues[i].priorities[k].bits == 0x8000_0000),
{
    assert forall|i: int| 0 <= i < request.queues.len() implies {
        &&& (#[trigger] request.queues[i]).family.belongs_to(physical_device)
        &&& request.queues[i].priorities.len() > 0
    } by {
        assert(crate::create::is_proper(request.queues, i, physical_device));
    }
    assert forall|i: int, j: int|
        0 <= i < request.queues.len() && 0 <= j < request.queues.len() && i != j implies (
    #[trigger] request.queues[i]).family.id != (#[trigger] request.queues[j]).family.id by {
        assert(crate::create::is_proper(request.queues, i, physical_device));
        assert(crate::create::is_proper(request.queues, j, physical_device));
        assert(!request.queues[j].family.same_as(request.queues[i].family));
    }
    assert forall|i: int, k: int|
        0 <= i < request.queues.len() && 0 <= k
            < request.queues[i].priorities.len() implies crate::priority::in_unit_range(
        (#[trigger] request.queues[i].priorities[k]).bits,
    ) && (request.queues[i].priorities[k].bits <= 0x3F80_0000
        || request.queues[i].priorities[k].bits == 0x8000_0000) by {
        assert(crate::create::is_proper(request.queues, i, physical_device));
        crate::priority::lemma_unit_range(request.queues[i].priorities[k].bits);
    }
}

/// The total is bounded by what each request asks for at most.
proof fn lemma_total_queues_bound(requests: Seq<QueueRequest>, most: nat)
    requires
        forall|i: int|
            0 <= i < requests.len() ==> (#[trigger] requests[i]).priorities.len() <= most,
    ensures
        crate::create::total_queues(requests) <= requests.len() * most,
    decreases requests.len(),
{
    if requests.len() > 0 {
        let front = requests.drop_last();
        assert forall|i: int| 0 <= i < front.len() implies (#[trigger] front[i]).priorities.len()
            <= most by {
            assert(front[i] == requests[i]);
        }
        lemma_total_queues_bound(front, most);
        let n = requests.len() as int;
        assert((n - 1) * most + most == n * most) by (nonlinear_arith);
        assert(requests[n - 1].priorities.len() <= most);
    }
}

/// Every request is one that can be dealt with which asks for something, of families of the physical
/// device only, of no family twice, of each for at least one queue and for priorities between zero
/// and one only, as long as lists of the queues fit in memory.
pub proof fn law_requests_that_are_proper(
    request: DeviceRequest,
    physical_device: PhysicalDeviceView,
    most: nat,
)
    requires
        request.queues.len() > 0,
        forall|i: int|
            0 <= i < request.queues.len() ==> {
                let family = (#[trigger] request.queues[i]).family;
                let info = physical_device.instance.physical_devices@[
                    physical_device.index as int
                ];
                let other = family.physical_device.instance.physical_devices@[
                    family.physical_device.index as int
                ];
                &&& other.handle == info.handle
                &&& family.id < info.queue_families@.len()
                &&& other.queue_families@[family.id as int].queue_count
                    == info.queue_families@[family.id as int].queue_count
                &&& 0 < request.queues[i].priorities.len() <= most
            },
        forall|i: int, j: int|
            0 <= i < request.queues.len() && 0 <= j < request.queues.len() && i != j ==> (
            #[trigger] request.queues[i]).family.id != (#[trigger] request.queues[j]).family.id,
        forall|i: int, k: int|
            0 <= i < request.queues.len() && 0 <= k < request.queues[i].priorities.len() ==> (
            #[trigger] request.queues[i].priorities[k]).bits <= 0x3F80_0000
                || request.queues[i].priorities[k].bits == 0x8000_0000,
        (request.queues.len() + request.queues.len() * most + 1) * 16 <= isize::MAX,
    ensures
        request.is_proper_for(physical_device),
{
    let requests = request.queues;
    assert forall|i: int| 0 <= i < requests.len() implies #[trigger] crate::create::is_proper(
        requests,
        i,
        physical_device,
    ) by {
        assert(requests[i].family.belongs_to(physical_device));
        assert forall|k: int| 0 <= k
            < requests[i].priorities.len() implies crate::priority::in_unit_range(
            (#[trigger] requests[i].priorities[k]).bits,
        ) by {
            crate::priority::lemma_unit_range(requests[i].priorities[k].bits);
        }
        assert forall|j: int| 0 <= j < requests.len() && j != i implies !(
        #[trigger] requests[j]).family.same_as(requests[i].family) by {
            assert(requests[i].family.id != requests[j].family.id);
        }
    }
    assert forall|n: int| 0 <= n <= requests.len() implies (requests.len()
        + #[trigger] crate::create::total_queues(requests.take(n)) + 1) * 16 <= isize::MAX by {
        let first = requests.take(n);
        assert forall|i: int| 0 <= i < first.len() implies (#[trigger] first[i]).priorities.len()
            <= most by {
            assert(first[i] == requests[i]);
        }
        lemma_total_queues_bound(first, most);
        let len = requests.len() as int;
        assert(n * most <= len * most) by (nonlinear_arith)
            requires
                0 <= n <= len,
                0 <= most,
        ;
    }
}

} // verus!
