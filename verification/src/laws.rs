//! What holds of the library as a whole.
use crate::create::{DevicePlan, DeviceRequest, QueueRequest};
use crate::device::DeviceView;
use crate::error::DeviceCreationError;
use crate::extensions::{
    ExtensionContext, ExtensionRestriction, ExtensionRule, KHR_PORTABILITY_SUBSET,
};
use crate::features::{
    FeatureContext, FeatureRestriction, FeatureRule, ROBUST_BUFFER_ACCESS,
};
use crate::hashing::{feed_u32, feed_u64};
use crate::lists::QueueToGet;
use crate::physical::PhysicalDeviceView;
use crate::pools::Destruction;
use crate::queue::{Queue, QueueView};
use std::hash::Hasher;
use std::sync::Arc;
use vstd::prelude::*;

verus! {

/// Sameness of devices is an equivalence.
pub proof fn law_device_equality(a: DeviceView, b: DeviceView, c: DeviceView)
    ensures
        a.same_as(a),
        a.same_as(b) ==> b.same_as(a),
        a.same_as(b) && b.same_as(c) ==> a.same_as(c),
{
}

/// Sameness of queues is an equivalence.
pub proof fn law_queue_equality(a: QueueView, b: QueueView, c: QueueView)
    ensures
        a.same_as(a),
        a.same_as(b) ==> b.same_as(a),
        a.same_as(b) && b.same_as(c) ==> a.same_as(c),
{
}

/// Devices are the same exactly where their hashes are made from the same numbers.
pub proof fn law_device_hash(a: DeviceView, b: DeviceView)
    ensures
        a.same_as(b) <==> a.hash_input() == b.hash_input(),
{
}

/// Queues are the same exactly where their hashes are made from the same numbers.
pub proof fn law_queue_hash(a: QueueView, b: QueueView)
    ensures
        a.same_as(b) <==> a.hash_input() == b.hash_input(),
{
}

/// Devices that are the same hash alike: where the next state of a hasher depends on nothing but
/// its state and the number that it is fed, feeding one device or the other to hashers in the same
/// state leaves them in the same state.
pub proof fn law_same_devices_hash_alike<H: Hasher>(
    a: DeviceView,
    b: DeviceView,
    before: H,
    after_a: H,
    after_b: H,
)
    requires
        a.same_as(b),
        forall|value: u64, s: &mut H, t: &mut H| #[trigger]
            call_ensures(feed_u64::<H>, (value, s), ()) && #[trigger] call_ensures(
                feed_u64::<H>,
                (value, t),
                (),
            ) && *s == *t ==> *final(s) == *final(t),
        exists|first: &mut H, second: &mut H| #[trigger]
            call_ensures(feed_u64::<H>, (a.hash_input().0, first), ()) && #[trigger]
            call_ensures(feed_u64::<H>, (a.hash_input().1, second), ())
                && *first == before && *final(first) == *second && *final(second) == after_a,
        exists|first: &mut H, second: &mut H| #[trigger]
            call_ensures(feed_u64::<H>, (b.hash_input().0, first), ()) && #[trigger]
            call_ensures(feed_u64::<H>, (b.hash_input().1, second), ())
                && *first == before && *final(first) == *second && *final(second) == after_b,
    ensures
        after_a == after_b,
{
}

/// Queues that are the same hash alike: where the next state of a hasher depends on nothing but
/// its state and the number that it is fed, feeding one queue or the other to hashers in the same
/// state leaves them in the same state.
pub proof fn law_same_queues_hash_alike<H: Hasher>(
    a: QueueView,
    b: QueueView,
    before: H,
    after_a: H,
    after_b: H,
)
    requires
        a.same_as(b),
        forall|value: u32, s: &mut H, t: &mut H| #[trigger]
            call_ensures(feed_u32::<H>, (value, s), ()) && #[trigger] call_ensures(
                feed_u32::<H>,
                (value, t),
                (),
            ) && *s == *t ==> *final(s) == *final(t),
        forall|value: u64, s: &mut H, t: &mut H| #[trigger]
            call_ensures(feed_u64::<H>, (value, s), ()) && #[trigger] call_ensures(
                feed_u64::<H>,
                (value, t),
                (),
            ) && *s == *t ==> *final(s) == *final(t),
        exists|first: &mut H, second: &mut H, third: &mut H, fourth: &mut H| #[trigger]
            call_ensures(feed_u32::<H>, (a.hash_input().0, first), ()) && #[trigger]
            call_ensures(feed_u32::<H>, (a.hash_input().1, second), ()) && #[trigger]
            call_ensures(feed_u64::<H>, (a.hash_input().2.0, third), ()) && #[trigger]
            call_ensures(feed_u64::<H>, (a.hash_input().2.1, fourth), ())
                && *first == before && *final(first) == *second && *final(second) == *third
                && *final(third) == *fourth && *final(fourth) == after_a,
        exists|first: &mut H, second: &mut H, third: &mut H, fourth: &mut H| #[trigger]
            call_ensures(feed_u32::<H>, (b.hash_input().0, first), ()) && #[trigger]
            call_ensures(feed_u32::<H>, (b.hash_input().1, second), ()) && #[trigger]
            call_ensures(feed_u64::<H>, (b.hash_input().2.0, third), ()) && #[trigger]
            call_ensures(feed_u64::<H>, (b.hash_input().2.1, fourth), ())
                && *first == before && *final(first) == *second && *final(second) == *third
                && *final(third) == *fourth && *final(fourth) == after_b,
    ensures
        after_a == after_b,
{
}

/// The version of a device is one of the physical device's and the instance's, and is not above
/// either.
pub proof fn law_version(physical_device: PhysicalDeviceView)
    ensures
        physical_device.usable_version().le(physical_device.info().api_version),
        physical_device.usable_version().le(physical_device.instance.max_api_version),
        physical_device.usable_version() == physical_device.info().api_version
            || physical_device.usable_version() == physical_device.instance.max_api_version,
{
}

/// No extension is unsupported exactly where the whole set is supported; otherwise the error names
/// one of the set that is not.
proof fn lemma_first_unsupported_extension(
    enabled: Seq<&'static str>,
    supported: Seq<&'static str>,
)
    ensures
        crate::extensions::first_unsupported_extension(enabled, supported) is None
            <==> crate::names::all_in(enabled, supported),
        crate::extensions::first_unsupported_extension(enabled, supported) matches Some(error) ==> {
            &&& error.restriction == ExtensionRestriction::NotSupported
            &&& crate::names::listed(enabled, error.extension@)
            &&& !crate::names::listed(supported, error.extension@)
        },
    decreases enabled.len(),
{
    if enabled.len() > 0 {
        let rest = enabled.drop_first();
        lemma_first_unsupported_extension(rest, supported);
        assert(forall|i: int| 0 <= i < rest.len() ==> #[trigger] rest[i] == enabled[i + 1]);
        if crate::names::listed(supported, enabled[0]@) {
            if crate::names::all_in(rest, supported) {
                assert forall|i: int| 0 <= i < enabled.len() implies crate::names::listed(
                    supported,
                    (#[trigger] enabled[i])@,
                ) by {
                    if i > 0 {
                        assert(rest[i - 1] == enabled[i]);
                    }
                }
            } else {
                let i = choose|i: int|
                    0 <= i < rest.len() && !crate::names::listed(
                        supported,
                        (#[trigger] rest[i])@,
                    );
                assert(!crate::names::listed(supported, enabled[i + 1]@));
            }
        } else {
            assert(enabled[0]@ == enabled[0]@);
        }
    }
}

/// No feature is unsupported exactly where the whole set is supported; otherwise the error names
/// one of the set that is not.
proof fn lemma_first_unsupported_feature(
    enabled: Seq<&'static str>,
    supported: Seq<&'static str>,
)
    ensures
        crate::features::first_unsupported_feature(enabled, supported) is None
            <==> crate::names::all_in(enabled, supported),
        crate::features::first_unsupported_feature(enabled, supported) matches Some(error) ==> {
            &&& error.restriction == FeatureRestriction::NotSupported
            &&& crate::names::listed(enabled, error.feature@)
            &&& !crate::names::listed(supported, error.feature@)
        },
    decreases enabled.len(),
{
    if enabled.len() > 0 {
        let rest = enabled.drop_first();
        lemma_first_unsupported_feature(rest, supported);
        assert(forall|i: int| 0 <= i < rest.len() ==> #[trigger] rest[i] == enabled[i + 1]);
        if crate::names::listed(supported, enabled[0]@) {
            if crate::names::all_in(rest, supported) {
                assert forall|i: int| 0 <= i < enabled.len() implies crate::names::listed(
                    supported,
                    (#[trigger] enabled[i])@,
                ) by {
                    if i > 0 {
                        assert(rest[i - 1] == enabled[i]);
                    }
                }
            } else {
                let i = choose|i: int|
                    0 <= i < rest.len() && !crate::names::listed(
                        supported,
                        (#[trigger] rest[i])@,
                    );
                assert(!crate::names::listed(supported, enabled[i + 1]@));
            }
        } else {
            assert(enabled[0]@ == enabled[0]@);
        }
    }
}

/// A rule is found broken exactly where one that applies is, and the one that is found is.
proof fn lemma_first_broken_extension_rule(
    rules: Seq<ExtensionRule>,
    enabled: Seq<&'static str>,
    context: ExtensionContext,
)
    ensures
        crate::extensions::first_broken_extension_rule(rules, enabled, context) is None <==> forall|
            i: int,
        |
            0 <= i < rules.len() && (#[trigger] rules[i]).since.le(context.api_version)
                ==> !rules[i].error.broken_by(enabled, context),
        crate::extensions::first_broken_extension_rule(rules, enabled, context) matches Some(error)
            ==> error.broken_by(enabled, context) && exists|i: int|
            0 <= i < rules.len() && (#[trigger] rules[i]).error == error,
    decreases rules.len(),
{
    if rules.len() > 0 {
        let rest = rules.drop_first();
        lemma_first_broken_extension_rule(rest, enabled, context);
        assert(forall|i: int| 0 <= i < rest.len() ==> #[trigger] rest[i] == rules[i + 1]);
        assert(forall|i: int| 1 <= i < rules.len() ==> #[trigger] rules[i] == rest[i - 1]);
        assert(rules[0] == rules[0]);
    }
}

/// A rule is found broken exactly where one that applies is, and the one that is found is.
proof fn lemma_first_broken_feature_rule(
    rules: Seq<FeatureRule>,
    enabled: Seq<&'static str>,
    context: FeatureContext,
)
    ensures
        crate::features::first_broken_feature_rule(rules, enabled, context) is None <==> forall|
            i: int,
        |
            0 <= i < rules.len() && (#[trigger] rules[i]).since.le(context.api_version)
                ==> !rules[i].error.broken_by(
                enabled,
                context.supported,
                context.device_extensions,
            ),
        crate::features::first_broken_feature_rule(rules, enabled, context) matches Some(error)
            ==> error.broken_by(enabled, context.supported, context.device_extensions) && exists|
            i: int,
        |
            0 <= i < rules.len() && (#[trigger] rules[i]).error == error,
    decreases rules.len(),
{
    if rules.len() > 0 {
        let rest = rules.drop_first();
        lemma_first_broken_feature_rule(rest, enabled, context);
        assert(forall|i: int| 0 <= i < rest.len() ==> #[trigger] rest[i] == rules[i + 1]);
        assert(forall|i: int| 1 <= i < rules.len() ==> #[trigger] rules[i] == rest[i - 1]);
        assert(rules[0] == rules[0]);
    }
}

/// Extensions are refused exactly where one is not supported or breaks a rule that applies, and
/// the error tells one that does.
pub proof fn law_extension_fault(
    enabled: Seq<&'static str>,
    context: ExtensionContext,
    rules: Seq<ExtensionRule>,
)
    ensures
        crate::extensions::extension_fault(enabled, context, rules) is None <==> {
            &&& crate::names::all_in(enabled, context.supported)
            &&& forall|i: int|
                0 <= i < rules.len() && (#[trigger] rules[i]).since.le(context.api_version)
                    ==> !rules[i].error.broken_by(enabled, context)
        },
        crate::extensions::extension_fault(enabled, context, rules) matches Some(error)
            ==> error.broken_by(enabled, context),
{
    lemma_first_unsupported_extension(enabled, context.supported);
    lemma_first_broken_extension_rule(rules, enabled, context);
}

/// Features are refused exactly where one is not supported or breaks a rule that applies, and the
/// error tells one that does.
pub proof fn law_feature_fault(
    enabled: Seq<&'static str>,
    context: FeatureContext,
    rules: Seq<FeatureRule>,
)
    ensures
        crate::features::feature_fault(enabled, context, rules) is None <==> {
            &&& crate::names::all_in(enabled, context.supported)
            &&& forall|i: int|
                0 <= i < rules.len() && (#[trigger] rules[i]).since.le(context.api_version)
                    ==> !rules[i].error.broken_by(
                    enabled,
                    context.supported,
                    context.device_extensions,
                )
        },
        crate::features::feature_fault(enabled, context, rules) matches Some(error)
            ==> error.broken_by(enabled, context.supported, context.device_extensions),
{
    lemma_first_unsupported_feature(enabled, context.supported);
    lemma_first_broken_feature_rule(rules, enabled, context);
}

/// What is enabled on a device is supported by its physical device.
pub proof fn law_enabled_is_supported(
    plan: DevicePlan<'_>,
    request: DeviceRequest,
    physical_device: PhysicalDeviceView,
)
    requires
        request.fault(physical_device) is None,
        plan.is_for(request, physical_device),
    ensures
        crate::names::all_in(
            plan.enabled_extensions@,
            physical_device.info().supported_extensions@,
        ),
        crate::names::all_in(plan.enabled_features@, physical_device.info().supported_features@),
{
    lemma_first_unsupported_extension(
        request.extensions_on(physical_device),
        physical_device.info().supported_extensions@,
    );
    lemma_first_unsupported_feature(
        crate::create::features_for(request.enabled_features),
        physical_device.info().supported_features@,
    );
}

/// Features of which one is not supported are refused as such, where the queues and the
/// extensions are in order.
pub proof fn law_unsupported_features_are_refused(
    request: DeviceRequest,
    physical_device: PhysicalDeviceView,
)
    requires
        forall|i: int| 0 <= i < request.queues.len() ==> (#[trigger] request.queues[i]).fits(),
        request.extension_fault(physical_device) is None,
        !crate::names::all_in(
            request.enabled_features,
            physical_device.info().supported_features@,
        ),
    ensures
        request.fault(physical_device) matches Some(
            DeviceCreationError::FeatureRestrictionNotMet(error),
        ) && error.restriction == FeatureRestriction::NotSupported && !crate::names::listed(
            physical_device.info().supported_features@,
            error.feature@,
        ),
{
    let enabled = crate::create::features_for(request.enabled_features);
    let supported = physical_device.info().supported_features@;
    lemma_first_unsupported_feature(enabled, supported);
    let i = choose|i: int|
        0 <= i < request.enabled_features.len() && !crate::names::listed(
            supported,
            (#[trigger] request.enabled_features[i])@,
        );
    assert(enabled[i] == request.enabled_features[i]);
}

/// A request that asks of a family for more queues than it has is refused for that, whatever else
/// it asks for; and for nothing else.
pub proof fn law_too_many_queues(request: DeviceRequest, physical_device: PhysicalDeviceView)
    ensures
        request.fault(physical_device) == Some(DeviceCreationError::TooManyQueuesForFamily)
            <==> exists|i: int|
            0 <= i < request.queues.len() && (#[trigger] request.queues[i]).priorities.len()
                > request.queues[i].family.queue_count(),
{
    if exists|i: int| 0 <= i < request.queues.len() && !(#[trigger] request.queues[i]).fits() {
        let i = choose|i: int|
            0 <= i < request.queues.len() && !(#[trigger] request.queues[i]).fits();
        assert(request.queues[i].priorities.len() > request.queues[i].family.queue_count());
    } else if exists|i: int|
        0 <= i < request.queues.len() && (#[trigger] request.queues[i]).priorities.len()
            > request.queues[i].family.queue_count() {
        let i = choose|i: int|
            0 <= i < request.queues.len() && (#[trigger] request.queues[i]).priorities.len()
                > request.queues[i].family.queue_count();
        assert(!request.queues[i].fits());
    }
}

/// With a name added to a list, the names are those of the list and that one.
proof fn lemma_with_name(list: Seq<&'static str>, added: &'static str, name: Seq<char>)
    ensures
        crate::names::listed(crate::names::with_name(list, added), name) <==> crate::names::listed(
            list,
            name,
        ) || name == added@,
{
    let with = crate::names::with_name(list, added);
    if crate::names::listed(list, name) {
        let i = choose|i: int| 0 <= i < list.len() && (#[trigger] list[i])@ == name;
        assert(with[i]@ == name);
    }
    if !crate::names::listed(list, added@) {
        assert(with[with.len() - 1] == added);
        if crate::names::listed(with, name) && name != added@ {
            let i = choose|i: int| 0 <= i < with.len() && (#[trigger] with[i])@ == name;
            assert(list[i]@ == name);
        }
    }
}

/// The extensions of a device are those that were asked for, and the portability subset extension
/// where it is supported.
pub proof fn law_extensions_of_device(
    request: DeviceRequest,
    physical_device: PhysicalDeviceView,
    name: Seq<char>,
)
    ensures
        crate::names::listed(request.extensions_on(physical_device), name) <==> {
            ||| crate::names::listed(request.enabled_extensions, name)
            ||| name == KHR_PORTABILITY_SUBSET@ && crate::names::listed(
                physical_device.info().supported_extensions@,
                KHR_PORTABILITY_SUBSET@,
            )
        },
{
    lemma_with_name(request.enabled_extensions, KHR_PORTABILITY_SUBSET, name);
}

/// A device is never refused because the portability subset extension must be enabled and is not.
pub proof fn law_portability_subset_is_never_missing(
    request: DeviceRequest,
    physical_device: PhysicalDeviceView,
)
    ensures
        request.extension_fault(physical_device) matches Some(error) ==> !(error.extension@
            == KHR_PORTABILITY_SUBSET@ && error.restriction
            == ExtensionRestriction::RequiredIfSupported),
{
    law_extensions_of_device(request, physical_device, KHR_PORTABILITY_SUBSET@);
    law_extension_fault(
        request.extensions_on(physical_device),
        ExtensionContext {
            supported: physical_device.info().supported_extensions@,
            api_version: physical_device.usable_version(),
            instance_extensions: physical_device.instance.enabled_extensions@,
        },
        physical_device.instance.registry.extension_rules@,
    );
}

/// The features of a device are those that were asked for, and robust buffer access always.
pub proof fn law_features_of_device(request: DeviceRequest, name: Seq<char>)
    ensures
        crate::names::listed(crate::create::features_for(request.enabled_features), name) <==> {
            ||| crate::names::listed(request.enabled_features, name)
            ||| name == ROBUST_BUFFER_ACCESS@
        },
{
    lemma_with_name(request.enabled_features, ROBUST_BUFFER_ACCESS, name);
}

/// Where every request is proper, no two are about families of the same id.
proof fn lemma_ids_are_distinct(
    requests: Seq<QueueRequest>,
    physical_device: PhysicalDeviceView,
    i: int,
    j: int,
)
    requires
        crate::create::are_proper(requests, physical_device),
        0 <= i < requests.len(),
        0 <= j < requests.len(),
        i != j,
    ensures
        requests[i].family.id != requests[j].family.id,
{
    assert(crate::create::is_proper(requests, i, physical_device));
    assert(crate::create::is_proper(requests, j, physical_device));
    assert(!requests[j].family.same_as(requests[i].family));
}

/// Each queue that a request asks for is among the queues to get.
proof fn lemma_queues_of(requests: Seq<QueueRequest>, r: int, id: int)
    requires
        forall|k: int| 0 <= k < requests.len() ==> (#[trigger] requests[k]).fits(),
        0 <= r < requests.len(),
        0 <= id < requests[r].priorities.len(),
    ensures
        crate::create::queues_of(requests).contains(
            QueueToGet { family: requests[r].family.id, id: id as u32 },
        ),
    decreases requests.len(),
{
    let front = requests.drop_last();
    let before = crate::create::queues_of(front);
    let all = crate::create::queues_of(requests);
    let wanted = QueueToGet { family: requests[r].family.id, id: id as u32 };
    if r < front.len() {
        assert(front[r] == requests[r]);
        assert forall|k: int| 0 <= k < front.len() implies (#[trigger] front[k]).fits() by {
            assert(front[k] == requests[k]);
        }
        lemma_queues_of(front, r, id);
        let i = choose|i: int| 0 <= i < before.len() && before[i] == wanted;
        assert(all[i] == wanted);
    } else {
        assert(all[before.len() + id] == wanted);
    }
}

/// There are as many queues to get as are asked for.
proof fn lemma_queues_of_len(requests: Seq<QueueRequest>)
    ensures
        crate::create::queues_of(requests).len() == crate::create::total_queues(requests),
    decreases requests.len(),
{
    if requests.len() > 0 {
        lemma_queues_of_len(requests.drop_last());
    }
}

/// No queue is to be got twice.
proof fn lemma_queues_are_distinct(requests: Seq<QueueRequest>)
    requires
        forall|k: int| 0 <= k < requests.len() ==> (#[trigger] requests[k]).fits(),
        forall|i: int, j: int|
            0 <= i < requests.len() && 0 <= j < requests.len() && i != j ==> (
            #[trigger] requests[i]).family.id != (#[trigger] requests[j]).family.id,
    ensures
        crate::create::queues_of(requests).no_duplicates(),
    decreases requests.len(),
{
    if requests.len() > 0 {
        let front = requests.drop_last();
        let before = crate::create::queues_of(front);
        let all = crate::create::queues_of(requests);
        let last = requests[requests.len() - 1];
        assert(last.fits());
        assert(forall|k: int| 0 <= k < front.len() ==> #[trigger] front[k] == requests[k]);
        lemma_queues_are_distinct(front);
        assert forall|i: int, j: int| 0 <= i < j < all.len() implies all[i] != all[j] by {
            if j < before.len() {
                assert(all[i] == before[i] && all[j] == before[j]);
            } else if i < before.len() {
                let r = crate::create::lemma_queue_is_of_request(front, i);
                assert(all[i] == before[i]);
                assert(requests[r].family.id != last.family.id);
                assert(all[j].family == last.family.id);
            } else {
                assert(all[i].id == (i - before.len()) as u32);
                assert(all[j].id == (j - before.len()) as u32);
            }
        }
    }
}

/// Each queue that is asked for is got once, and no other.
pub proof fn law_queues_to_get(
    plan: DevicePlan<'_>,
    request: DeviceRequest,
    physical_device: PhysicalDeviceView,
)
    requires
        request.is_proper_for(physical_device),
        request.fault(physical_device) is None,
        plan.is_for(request, physical_device),
    ensures
        plan.queues_to_get@.no_duplicates(),
        plan.queues_to_get@.len() == crate::create::total_queues(request.queues),
        forall|queue: QueueToGet| #[trigger]
            plan.queues_to_get@.contains(queue) <==> exists|r: int|
                0 <= r < request.queues.len() && (#[trigger] request.queues[r]).family.id
                    == queue.family && queue.id < request.queues[r].priorities.len(),
{
    let requests = request.queues;
    let queues = plan.queues_to_get@;
    assert forall|i: int, j: int|
        0 <= i < requests.len() && 0 <= j < requests.len() && i != j implies (
    #[trigger] requests[i]).family.id != (#[trigger] requests[j]).family.id by {
        lemma_ids_are_distinct(requests, physical_device, i, j);
    }
    lemma_queues_are_distinct(requests);
    lemma_queues_of_len(requests);
    assert forall|queue: QueueToGet| #[trigger] queues.contains(queue) implies exists|r: int|
        0 <= r < requests.len() && (#[trigger] requests[r]).family.id == queue.family && queue.id
            < requests[r].priorities.len() by {
        let i = choose|i: int| 0 <= i < queues.len() && queues[i] == queue;
        let r = crate::create::lemma_queue_is_of_request(requests, i);
        assert(requests[r].family.id == queue.family);
    }
    assert forall|queue: QueueToGet|
        exists|r: int|
            0 <= r < requests.len() && (#[trigger] requests[r]).family.id == queue.family
                && queue.id < requests[r].priorities.len() implies #[trigger] queues.contains(
        queue,
    ) by {
        let r = choose|r: int|
            0 <= r < requests.len() && (#[trigger] requests[r]).family.id == queue.family
                && queue.id < requests[r].priorities.len();
        lemma_queues_of(requests, r, queue.id as int);
    }
}

/// Each queue that a device was created with is of the family of exactly one request. That family
/// is active, and the place of the queue is below the number of queues that were asked of it, which
/// is not above the number of queues that it has.
pub proof fn law_family_of_queue<G: Fn(u64, u32, u32) -> u64>(
    plan: DevicePlan<'_>,
    request: DeviceRequest,
    physical_device: PhysicalDeviceView,
    handle: u64,
    queues: Seq<Arc<Queue>>,
    get_device_queue: G,
    i: int,
)
    requires
        request.is_proper_for(physical_device),
        request.fault(physical_device) is None,
        plan.is_for(request, physical_device),
        Queue::are_of(queues, plan.device(handle), plan.queues_to_get@, get_device_queue),
        0 <= i < queues.len(),
    ensures
        queues[i]@.queue_family().belongs_to(physical_device),
        queues[i]@.device.active_queue_families.contains(queues[i]@.family),
        queues[i]@.id < queues[i]@.queue_family().queue_count(),
        exists|r: int|
            0 <= r < request.queues.len() && (#[trigger] request.queues[r]).family.same_as(
                queues[i]@.queue_family(),
            ) && queues[i]@.id < request.queues[r].priorities.len()
                <= queues[i]@.queue_family().queue_count() && forall|s: int|
                0 <= s < request.queues.len() && s != r ==> !(
                #[trigger] request.queues[s]).family.same_as(queues[i]@.queue_family()),
{
    let queue = queues[i]@;
    assert(queue.device == plan.device(handle));
    let r = crate::create::lemma_queue_is_of_request(request.queues, i);
    assert(crate::create::is_proper(request.queues, r, physical_device));
    assert(request.queues[r].fits());
    let ids = crate::create::ids_of(request.queues);
    assert(ids[r] == queue.family);
    assert(ids.contains(queue.family));
    assert forall|s: int| 0 <= s < request.queues.len() && s != r implies !(
    #[trigger] request.queues[s]).family.same_as(queue.queue_family()) by {
        lemma_ids_are_distinct(request.queues, physical_device, r, s);
    }
}

/// No two queues that a device was created with are the same.
pub proof fn law_queues_differ<G: Fn(u64, u32, u32) -> u64>(
    plan: DevicePlan<'_>,
    request: DeviceRequest,
    physical_device: PhysicalDeviceView,
    handle: u64,
    queues: Seq<Arc<Queue>>,
    get_device_queue: G,
    i: int,
    j: int,
)
    requires
        request.is_proper_for(physical_device),
        request.fault(physical_device) is None,
        plan.is_for(request, physical_device),
        Queue::are_of(queues, plan.device(handle), plan.queues_to_get@, get_device_queue),
        0 <= i < queues.len(),
        0 <= j < queues.len(),
        i != j,
    ensures
        !queues[i]@.same_as(queues[j]@),
{
    law_queues_to_get(plan, request, physical_device);
    let wanted = plan.queues_to_get@;
    assert(wanted[i] != wanted[j]);
    assert(queues[i]@.id == wanted[i].id && queues[i]@.family == wanted[i].family);
    assert(queues[j]@.id == wanted[j].id && queues[j]@.family == wanted[j].family);
}

/// Opening, closing and inserting a label are answered alike, on all queues of an instance.
pub proof fn law_label_verdict(a: QueueView, b: QueueView)
    requires
        a.device.physical_device.instance == b.device.physical_device.instance,
    ensures
        a.label_verdict() == b.label_verdict(),
{
}

/// Two strictly ascending lists of the same ids are equal up to the length of the shorter.
proof fn lemma_ascending_is_unique(a: Seq<u32>, b: Seq<u32>, i: int)
    requires
        crate::create::strictly_ascending(a),
        crate::create::strictly_ascending(b),
        forall|id: u32| a.contains(id) <==> b.contains(id),
        0 <= i < a.len(),
    ensures
        i < b.len(),
        a[i] == b[i],
    decreases i,
{
    if i > 0 {
        lemma_ascending_is_unique(a, b, i - 1);
        lemma_ascending_is_unique(b, a, i - 1);
    }
    assert forall|j: int| 0 <= j < i implies a[j] == b[j] by {
        lemma_ascending_is_unique(a, b, j);
    }
    assert(b.contains(a[i]));
    let k = choose|k: int| 0 <= k < b.len() && b[k] == a[i];
    assert(k >= i);
    assert(a.contains(b[i]));
    let m = choose|m: int| 0 <= m < a.len() && a[m] == b[i];
    assert(m >= i);
}

/// The active queue families of a device are determined by the requests: they are the families
/// that were asked of, one for each request, in ascending order of their ids.
pub proof fn law_active_queue_families(
    a: DevicePlan<'_>,
    b: DevicePlan<'_>,
    request: DeviceRequest,
    physical_device: PhysicalDeviceView,
)
    requires
        request.is_proper_for(physical_device),
        request.fault(physical_device) is None,
        a.is_for(request, physical_device),
        b.is_for(request, physical_device),
    ensures
        a.active_queue_families@ == b.active_queue_families@,
        a.active_queue_families@.len() == request.queues.len(),
        forall|r: int|
            0 <= r < request.queues.len() ==> a.active_queue_families@.contains(
                (#[trigger] request.queues[r]).family.id,
            ),
{
    let x = a.active_queue_families@;
    let y = b.active_queue_families@;
    let ids = crate::create::ids_of(request.queues);
    if x.len() > y.len() {
        lemma_ascending_is_unique(x, y, y.len() as int);
    }
    if y.len() > x.len() {
        lemma_ascending_is_unique(y, x, x.len() as int);
    }
    assert forall|i: int| 0 <= i < x.len() implies x[i] == y[i] by {
        lemma_ascending_is_unique(x, y, i);
    }
    assert forall|r: int| 0 <= r < request.queues.len() implies x.contains(
        (#[trigger] request.queues[r]).family.id,
    ) by {
        assert(ids[r] == request.queues[r].family.id);
        assert(ids.contains(ids[r]));
    }
    assert forall|i: int, j: int| 0 <= i < j < ids.len() implies ids[i] != ids[j] by {
        lemma_ids_are_distinct(request.queues, physical_device, i, j);
    }
    assert(x.to_set() =~= ids.to_set());
    x.unique_seq_to_set();
    ids.unique_seq_to_set();
}

/// A device is taken down by one call for each handle in its pools, then one for itself.
pub proof fn law_destructions(
    device: u64,
    fences: Seq<u64>,
    semaphores: Seq<u64>,
    events: Seq<u64>,
)
    ensures
        ({
            let calls = crate::pools::destructions(device, fences, semaphores, events);
            &&& calls.len() == fences.len() + semaphores.len() + events.len() + 1
            &&& forall|i: int|
                0 <= i < fences.len() ==> #[trigger] calls[i] == Destruction::Fence(fences[i])
            &&& forall|i: int|
                0 <= i < semaphores.len() ==> calls[fences.len() + i] == Destruction::Semaphore(
                    #[trigger] semaphores[i],
                )
            &&& forall|i: int|
                0 <= i < events.len() ==> calls[fences.len() + semaphores.len() + i]
                    == Destruction::Event(#[trigger] events[i])
            &&& calls.last() == Destruction::Device(device)
            &&& forall|i: int|
                0 <= i < calls.len() - 1 ==> !((#[trigger] calls[i]) is Device)
        }),
{
}

/// While the pool that was returned last is there, it is returned again, and nothing changes.
pub proof fn law_pool_is_kept<W, P, U: Fn(&W) -> Option<Arc<P>>, D: Fn(&Arc<P>) -> W>(
    first: W,
    second: W,
    third: W,
    pool: Arc<P>,
    again: Arc<P>,
    fresh: bool,
    fresh_again: bool,
    upgrade: U,
    downgrade: D,
)
    requires
        crate::pools::pool_step(first, second, pool, fresh, upgrade, downgrade),
        crate::pools::pool_step(second, third, again, fresh_again, upgrade, downgrade),
        forall|found: Option<Arc<P>>|
            call_ensures(upgrade, (&second,), found) ==> found == Some(pool),
    ensures
        again == pool,
        third == second,
{
}

/// Where no pool is there, a fresh one is returned and remembered; and while it is there, it is
/// returned again, and nothing changes.
pub proof fn law_dead_pool_is_replaced<W, P, U: Fn(&W) -> Option<Arc<P>>, D: Fn(&Arc<P>) -> W>(
    first: W,
    second: W,
    third: W,
    pool: Arc<P>,
    again: Arc<P>,
    fresh: bool,
    fresh_again: bool,
    upgrade: U,
    downgrade: D,
)
    requires
        forall|found: Option<Arc<P>>| call_ensures(upgrade, (&first,), found) ==> found is None,
        crate::pools::pool_step(first, second, pool, fresh, upgrade, downgrade),
        crate::pools::pool_step(second, third, again, fresh_again, upgrade, downgrade),
    ensures
        fresh,
        crate::pools::remembered(downgrade, pool, second),
        (forall|found: Option<Arc<P>>|
            call_ensures(upgrade, (&second,), found) ==> found == Some(pool)) ==> again == pool
            && third == second,
{
}

/// While the pool that was returned last for a queue family is there, it is returned for that
/// family again, and nothing changes.
pub proof fn law_family_pool_is_kept<W, P, U: Fn(&W) -> Option<Arc<P>>, D: Fn(&Arc<P>) -> W>(
    first: Map<u32, W>,
    second: Map<u32, W>,
    third: Map<u32, W>,
    family: u32,
    pool: Arc<P>,
    again: Arc<P>,
    fresh: bool,
    fresh_again: bool,
    upgrade: U,
    downgrade: D,
)
    requires
        crate::pools::family_pool_step(first, second, family, pool, fresh, upgrade, downgrade),
        crate::pools::family_pool_step(
            second,
            third,
            family,
            again,
            fresh_again,
            upgrade,
            downgrade,
        ),
        forall|found: Option<Arc<P>>|
            call_ensures(upgrade, (&second[family],), found) ==> found == Some(pool),
    ensures
        again == pool,
        third == second,
{
}

/// Where no pool of a queue family is there, a fresh one is returned, and is remembered for that
/// family in place of what was; and while it is there, it is returned for that family again, and
/// nothing changes.
pub proof fn law_dead_family_pool_is_replaced<
    W,
    P,
    U: Fn(&W) -> Option<Arc<P>>,
    D: Fn(&Arc<P>) -> W,
>(
    first: Map<u32, W>,
    second: Map<u32, W>,
    third: Map<u32, W>,
    family: u32,
    pool: Arc<P>,
    again: Arc<P>,
    fresh: bool,
    fresh_again: bool,
    upgrade: U,
    downgrade: D,
)
    requires
        first.contains_key(family) ==> forall|found: Option<Arc<P>>|
            call_ensures(upgrade, (&first[family],), found) ==> found is None,
        crate::pools::family_pool_step(first, second, family, pool, fresh, upgrade, downgrade),
        crate::pools::family_pool_step(
            second,
            third,
            family,
            again,
            fresh_again,
            upgrade,
            downgrade,
        ),
    ensures
        fresh,
        second.contains_key(family),
        crate::pools::remembered(downgrade, pool, second[family]),
        (forall|found: Option<Arc<P>>|
            call_ensures(upgrade, (&second[family],), found) ==> found == Some(pool)) ==> again
            == pool && third == second,
{
}

/// A request for the pool of one queue family leaves what is remembered for the others.
pub proof fn law_other_family_pools_stay<W, P, U: Fn(&W) -> Option<Arc<P>>, D: Fn(&Arc<P>) -> W>(
    before: Map<u32, W>,
    after: Map<u32, W>,
    family: u32,
    other: u32,
    pool: Arc<P>,
    fresh: bool,
    upgrade: U,
    downgrade: D,
)
    requires
        crate::pools::family_pool_step(before, after, family, pool, fresh, upgrade, downgrade),
        other != family,
    ensures
        after.contains_key(other) <==> before.contains_key(other),
        before.contains_key(other) ==> after[other] == before[other],
{
}

/// That what is remembered for each family finds only pools of that family holds where nothing is
/// remembered, and every request keeps it; and the pool that is returned is of the family that was
/// asked of.
pub proof fn law_own_pools_are_kept<W, P, U: Fn(&W) -> Option<Arc<P>>, D: Fn(&Arc<P>) -> W>(
    before: Map<u32, W>,
    after: Map<u32, W>,
    family: u32,
    pool: Arc<P>,
    fresh: bool,
    family_of: spec_fn(Arc<P>) -> u32,
    upgrade: U,
    downgrade: D,
)
    requires
        crate::pools::own_pools(before, family_of, upgrade),
        crate::pools::remembers_itself::<W, P, U, D>(upgrade, downgrade),
        fresh ==> family_of(pool) == family,
        crate::pools::family_pool_step(before, after, family, pool, fresh, upgrade, downgrade),
    ensures
        crate::pools::own_pools(Map::<u32, W>::empty(), family_of, upgrade),
        crate::pools::own_pools(after, family_of, upgrade),
        family_of(pool) == family,
{
}

/// The pools of two queue families differ, and the request for the second leaves what is remembered
/// for the first.
pub proof fn law_pools_of_two_families_differ<
    W,
    P,
    U: Fn(&W) -> Option<Arc<P>>,
    D: Fn(&Arc<P>) -> W,
>(
    first: Map<u32, W>,
    second: Map<u32, W>,
    third: Map<u32, W>,
    family: u32,
    other: u32,
    pool: Arc<P>,
    other_pool: Arc<P>,
    fresh: bool,
    other_fresh: bool,
    family_of: spec_fn(Arc<P>) -> u32,
    upgrade: U,
    downgrade: D,
)
    requires
        family != other,
        crate::pools::own_pools(first, family_of, upgrade),
        crate::pools::remembers_itself::<W, P, U, D>(upgrade, downgrade),
        fresh ==> family_of(pool) == family,
        other_fresh ==> family_of(other_pool) == other,
        crate::pools::family_pool_step(first, second, family, pool, fresh, upgrade, downgrade),
        crate::pools::family_pool_step(
            second,
            third,
            other,
            other_pool,
            other_fresh,
            upgrade,
            downgrade,
        ),
    ensures
        pool != other_pool,
        third.contains_key(family),
        third[family] == second[family],
{
    law_own_pools_are_kept(
        first,
        second,
        family,
        pool,
        fresh,
        family_of,
        upgrade,
        downgrade,
    );
    law_own_pools_are_kept(
        second,
        third,
        other,
        other_pool,
        other_fresh,
        family_of,
        upgrade,
        downgrade,
    );
}

/// What a plan hands over and what it leads to stands in the request and in the instance: the
/// parameters of each family, with all its priorities, at the place of the item that asked for it;
/// the layers of the instance; and the features in the chain of structures exactly where the
/// instance has the extension for that.
pub proof fn law_plan(
    plan: DevicePlan<'_>,
    request: DeviceRequest,
    physical_device: PhysicalDeviceView,
)
    requires
        plan.is_for(request, physical_device),
    ensures
        plan.physical_device@ == physical_device,
        plan.api_version == physical_device.usable_version(),
        plan.queue_create_infos@.len() == request.queues.len(),
        forall|i: int|
            0 <= i < request.queues.len() ==> {
                &&& (#[trigger] plan.queue_create_infos@[i]).queue_family_index
                    == request.queues[i].family.id
                &&& plan.queue_create_infos@[i].queue_count == request.queues[i].priorities.len()
                &&& plan.queue_create_infos@[i].queue_priorities@ == request.queues[i].priorities
            },
        plan.enabled_layers@.len() == physical_device.instance.enabled_layers@.len(),
        forall|i: int|
            0 <= i < plan.enabled_layers@.len() ==> (#[trigger] plan.enabled_layers@[i])@
                == physical_device.instance.enabled_layers@[i]@,
        plan.features_in_chain <==> crate::names::listed(
            physical_device.instance.enabled_extensions@,
            "VK_KHR_get_physical_device_properties2"@,
        ),
        forall|i: int, j: int|
            0 <= i < j < plan.active_queue_families@.len() ==> #[trigger]
            plan.active_queue_families@[i] < #[trigger] plan.active_queue_families@[j],
        forall|id: u32| #[trigger]
            plan.active_queue_families@.contains(id) <==> exists|r: int|
                0 <= r < request.queues.len() && (#[trigger] request.queues[r]).family.id == id,
{
    let ids = crate::create::ids_of(request.queues);
    assert forall|id: u32| #[trigger] plan.active_queue_families@.contains(id) <==> exists|r: int|
        0 <= r < request.queues.len() && (#[trigger] request.queues[r]).family.id == id by {
        if ids.contains(id) {
            let r = choose|r: int| 0 <= r < ids.len() && ids[r] == id;
            assert(request.queues[r].family.id == id);
        }
        if exists|r: int|
            0 <= r < request.queues.len() && (#[trigger] request.queues[r]).family.id == id {
            let r = choose|r: int|
                0 <= r < request.queues.len() && (#[trigger] request.queues[r]).family.id == id;
            assert(ids[r] == id);
        }
    }
}

/// Every priority that a plan for a proper request hands over stands for a number between zero and
/// one.
pub proof fn law_planned_priorities(
    plan: DevicePlan<'_>,
    request: DeviceRequest,
    physical_device: PhysicalDeviceView,
    i: int,
    k: int,
)
    requires
        request.is_proper_for(physical_device),
        plan.is_for(request, physical_device),
        0 <= i < plan.queue_create_infos@.len(),
        0 <= k < plan.queue_create_infos@[i].queue_priorities@.len(),
    ensures
        crate::priority::is_finite(plan.queue_create_infos@[i].queue_priorities@[k].bits),
        0 <= crate::priority::scaled_value(plan.queue_create_infos@[i].queue_priorities@[k].bits)
            <= crate::priority::scaled_one(),
        crate::priority::in_unit_range(plan.queue_create_infos@[i].queue_priorities@[k].bits),
{
    crate::meaning::law_proper_requests(request, physical_device);
    assert(plan.queue_create_infos@[i].is_for(request.queues[i]));
    assert(plan.queue_create_infos@[i].queue_priorities@[k] == request.queues[i].priorities[k]);
}

/// The queues of a request stand behind those of the requests before it.
proof fn lemma_places(requests: Seq<QueueRequest>, starts: Seq<int>)
    requires
        starts.len() == requests.len() + 1,
        starts[0] == 0,
        forall|r: int|
            0 <= r < requests.len() ==> starts[r + 1] == starts[r] + (
            #[trigger] requests[r]).priorities.len(),
    ensures
        crate::create::queues_of(requests).len() == starts[requests.len() as int],
    decreases requests.len(),
{
    if requests.len() > 0 {
        let front = requests.drop_last();
        let n = front.len() as int;
        let first = starts.take(n + 1);
        assert forall|r: int| 0 <= r < n implies first[r + 1] == first[r] + (
        #[trigger] front[r]).priorities.len() by {
            assert(front[r] == requests[r]);
        }
        lemma_places(front, first);
        assert(starts[n + 1] == starts[n] + requests[n].priorities.len());
    }
}

/// The queue of an index that a request asks for stands that far behind the start of the request.
proof fn lemma_place(requests: Seq<QueueRequest>, starts: Seq<int>, r: int, id: int)
    requires
        starts.len() == requests.len() + 1,
        starts[0] == 0,
        forall|k: int|
            0 <= k < requests.len() ==> starts[k + 1] == starts[k] + (
            #[trigger] requests[k]).priorities.len(),
        0 <= r < requests.len(),
        0 <= id < requests[r].priorities.len(),
    ensures
        0 <= starts[r] + id < crate::create::queues_of(requests).len(),
        crate::create::queues_of(requests)[starts[r] + id] == (QueueToGet {
            family: requests[r].family.id,
            id: id as u32,
        }),
    decreases requests.len(),
{
    let front = requests.drop_last();
    let n = front.len() as int;
    let first = starts.take(n + 1);
    assert forall|k: int| 0 <= k < n implies first[k + 1] == first[k] + (
    #[trigger] front[k]).priorities.len() by {
        assert(front[k] == requests[k]);
    }
    lemma_places(front, first);
    lemma_places(requests, starts);
    if r < n {
        assert(front[r] == requests[r]);
        lemma_place(front, first, r, id);
    }
}

/// The queues to get stand in the order in which they were asked for: where `starts` counts how many
/// queues are asked for before each request, the queue `id` of the request `r` stands at the place
/// `starts[r] + id`.
pub proof fn law_order_of_queues(
    plan: DevicePlan<'_>,
    request: DeviceRequest,
    physical_device: PhysicalDeviceView,
    starts: Seq<int>,
    r: int,
    id: int,
)
    requires
        request.fault(physical_device) is None,
        plan.is_for(request, physical_device),
        starts.len() == request.queues.len() + 1,
        starts[0] == 0,
        forall|k: int|
            0 <= k < request.queues.len() ==> starts[k + 1] == starts[k] + (
            #[trigger] request.queues[k]).priorities.len(),
        0 <= r < request.queues.len(),
        0 <= id < request.queues[r].priorities.len(),
    ensures
        plan.queues_to_get@.len() == starts[request.queues.len() as int],
        0 <= starts[r] + id < plan.queues_to_get@.len(),
        plan.queues_to_get@[starts[r] + id].family == request.queues[r].family.id,
        plan.queues_to_get@[starts[r] + id].id == id,
{
    lemma_places(request.queues, starts);
    lemma_place(request.queues, starts, r, id);
    assert(request.queues[r].fits());
}

/// The queues that a device was created with are returned in the order in which they were asked
/// for, each with the handle that the driver gave for it: where `starts` counts how many queues are
/// asked for before each request, the queue `id` of the request `r` is at the place
/// `starts[r] + id`.
pub proof fn law_order_of_created_queues<G: Fn(u64, u32, u32) -> u64>(
    plan: DevicePlan<'_>,
    request: DeviceRequest,
    physical_device: PhysicalDeviceView,
    handle: u64,
    queues: Seq<Arc<Queue>>,
    get_device_queue: G,
    starts: Seq<int>,
    r: int,
    id: int,
)
    requires
        request.fault(physical_device) is None,
        plan.is_for(request, physical_device),
        Queue::are_of(queues, plan.device(handle), plan.queues_to_get@, get_device_queue),
        starts.len() == request.queues.len() + 1,
        starts[0] == 0,
        forall|k: int|
            0 <= k < request.queues.len() ==> starts[k + 1] == starts[k] + (
            #[trigger] request.queues[k]).priorities.len(),
        0 <= r < request.queues.len(),
        0 <= id < request.queues[r].priorities.len(),
    ensures
        queues.len() == starts[request.queues.len() as int],
        0 <= starts[r] + id < queues.len(),
        queues[starts[r] + id]@.family == request.queues[r].family.id,
        queues[starts[r] + id]@.id == id,
        queues[starts[r] + id]@.device == plan.device(handle),
        call_ensures(
            get_device_queue,
            (handle, request.queues[r].family.id, id as u32),
            queues[starts[r] + id]@.handle,
        ),
{
    law_order_of_queues(plan, request, physical_device, starts, r, id);
    assert(queues[starts[r] + id]@.device == plan.device(handle));
}

/// A created device is what was asked for, of the physical device that it was asked of: it has the
/// features that were asked for and robust buffer access, the extensions that were asked for and
/// the portability subset where that is supported, the lower of the two versions, and the families
/// that were asked of; and the driver was asked for the same.
pub proof fn law_created_device(
    plan: DevicePlan<'_>,
    request: DeviceRequest,
    physical_device: PhysicalDeviceView,
    handle: u64,
    device: DeviceView,
    name: Seq<char>,
)
    requires
        plan.is_for(request, physical_device),
        device == plan.device(handle),
    ensures
        device.handle == handle,
        device.physical_device == physical_device,
        device.api_version == physical_device.usable_version(),
        plan.api_version == device.api_version,
        crate::names::listed(device.enabled_features, name) <==> {
            ||| crate::names::listed(request.enabled_features, name)
            ||| name == "robust_buffer_access"@
        },
        plan.enabled_features@ == device.enabled_features,
        crate::names::listed(device.enabled_extensions, name) <==> {
            ||| crate::names::listed(request.enabled_extensions, name)
            ||| name == "VK_KHR_portability_subset"@ && crate::names::listed(
                physical_device.instance.physical_devices@[
                    physical_device.index as int
                ].supported_extensions@,
                "VK_KHR_portability_subset"@,
            )
        },
        plan.enabled_extensions@ == device.enabled_extensions,
        forall|id: u32| #[trigger]
            device.active_queue_families.contains(id) <==> exists|r: int|
                0 <= r < request.queues.len() && (#[trigger] request.queues[r]).family.id == id,
{
    law_plan(plan, request, physical_device);
    law_extensions_of_device(request, physical_device, name);
    law_features_of_device(request, name);
}

/// What is asked for stands first among what is enabled, in the same order, and at most one name
/// comes behind it.
pub proof fn law_enabled_lists(
    plan: DevicePlan<'_>,
    request: DeviceRequest,
    physical_device: PhysicalDeviceView,
)
    requires
        plan.is_for(request, physical_device),
    ensures
        request.enabled_extensions.len() <= plan.enabled_extensions@.len()
            <= request.enabled_extensions.len() + 1,
        forall|i: int|
            0 <= i < request.enabled_extensions.len() ==> #[trigger] plan.enabled_extensions@[i]
                == request.enabled_extensions[i],
        request.enabled_features.len() <= plan.enabled_features@.len()
            <= request.enabled_features.len() + 1,
        forall|i: int|
            0 <= i < request.enabled_features.len() ==> #[trigger] plan.enabled_features@[i]
                == request.enabled_features[i],
        crate::names::distinct(request.enabled_extensions) ==> crate::names::distinct(
            plan.enabled_extensions@,
        ),
        crate::names::distinct(request.enabled_features) ==> crate::names::distinct(
            plan.enabled_features@,
        ),
{
}

/// Whether a restriction of an extension is broken depends on which names are enabled, not on their
/// places.
proof fn lemma_extension_sets(
    error: crate::extensions::ExtensionRestrictionError,
    a: Seq<&'static str>,
    b: Seq<&'static str>,
    context: ExtensionContext,
)
    requires
        forall|name: Seq<char>| #[trigger]
            crate::names::listed(a, name) <==> crate::names::listed(b, name),
    ensures
        error.broken_by(a, context) <==> error.broken_by(b, context),
{
    if let ExtensionRestriction::Requires(one_of) = error.restriction {
        let wanted = one_of.device_extensions@;
        assert(crate::extensions::any_listed(wanted, a) <==> crate::extensions::any_listed(
            wanted,
            b,
        )) by {
            if crate::extensions::any_listed(wanted, a) {
                let i = choose|i: int|
                    0 <= i < wanted.len() && crate::names::listed(a, (#[trigger] wanted[i])@);
                assert(crate::names::listed(b, wanted[i]@));
            }
            if crate::extensions::any_listed(wanted, b) {
                let i = choose|i: int|
                    0 <= i < wanted.len() && crate::names::listed(b, (#[trigger] wanted[i])@);
                assert(crate::names::listed(a, wanted[i]@));
            }
        }
    }
    assert(crate::names::listed(a, error.extension@) <==> crate::names::listed(
        b,
        error.extension@,
    ));
    if let ExtensionRestriction::ConflictsDeviceExtension(other) = error.restriction {
        assert(crate::names::listed(a, other@) <==> crate::names::listed(b, other@));
    }
}

/// Whether all names of a list are in another depends on which names they are, not on their places.
proof fn lemma_all_in_sets(
    a: Seq<&'static str>,
    b: Seq<&'static str>,
    other: Seq<&'static str>,
)
    requires
        forall|name: Seq<char>| #[trigger]
            crate::names::listed(a, name) ==> crate::names::listed(b, name),
        crate::names::all_in(b, other),
    ensures
        crate::names::all_in(a, other),
{
    assert forall|i: int| 0 <= i < a.len() implies crate::names::listed(
        other,
        (#[trigger] a[i])@,
    ) by {
        assert(crate::names::listed(a, a[i]@));
        let j = choose|j: int| 0 <= j < b.len() && (#[trigger] b[j])@ == a[i]@;
        assert(crate::names::listed(other, b[j]@));
    }
}

/// What is accepted keeps all rules at the version of the device itself: all extensions of the plan
/// are supported, and none breaks a rule that applies to that version, where what a rule requires of
/// the version is held against that same version.
pub proof fn law_accepted_extensions(
    plan: DevicePlan<'_>,
    request: DeviceRequest,
    physical_device: PhysicalDeviceView,
)
    requires
        request.fault(physical_device) is None,
        plan.is_for(request, physical_device),
    ensures
        ({
            let info = physical_device.instance.physical_devices@[physical_device.index as int];
            let rules = physical_device.instance.registry.extension_rules@;
            let context = ExtensionContext {
                supported: info.supported_extensions@,
                api_version: plan.api_version,
                instance_extensions: physical_device.instance.enabled_extensions@,
            };
            &&& crate::names::all_in(plan.enabled_extensions@, info.supported_extensions@)
            &&& forall|i: int|
                0 <= i < rules.len() && (#[trigger] rules[i]).since.le(plan.api_version)
                    ==> !rules[i].error.broken_by(plan.enabled_extensions@, context)
        }),
{
    law_extension_fault(
        request.extensions_on(physical_device),
        ExtensionContext {
            supported: physical_device.info().supported_extensions@,
            api_version: physical_device.usable_version(),
            instance_extensions: physical_device.instance.enabled_extensions@,
        },
        physical_device.instance.registry.extension_rules@,
    );
}

/// What is accepted keeps all rules at the version of the device itself: all features of the plan
/// are supported, and none breaks a rule that applies to that version.
pub proof fn law_accepted_features(
    plan: DevicePlan<'_>,
    request: DeviceRequest,
    physical_device: PhysicalDeviceView,
)
    requires
        request.fault(physical_device) is None,
        plan.is_for(request, physical_device),
    ensures
        ({
            let info = physical_device.instance.physical_devices@[physical_device.index as int];
            let rules = physical_device.instance.registry.feature_rules@;
            &&& crate::names::all_in(plan.enabled_features@, info.supported_features@)
            &&& forall|i: int|
                0 <= i < rules.len() && (#[trigger] rules[i]).since.le(plan.api_version)
                    ==> !rules[i].error.broken_by(
                    plan.enabled_features@,
                    info.supported_features@,
                    plan.enabled_extensions@,
                )
        }),
{
    law_feature_fault(
        crate::create::features_for(request.enabled_features),
        FeatureContext {
            supported: physical_device.info().supported_features@,
            api_version: physical_device.usable_version(),
            device_extensions: request.extensions_on(physical_device),
        },
        physical_device.instance.registry.feature_rules@,
    );
}

/// Whether a restriction of a feature is broken depends on which names are enabled, not on their
/// places.
proof fn lemma_feature_sets(
    error: crate::features::FeatureRestrictionError,
    a: Seq<&'static str>,
    b: Seq<&'static str>,
    supported: Seq<&'static str>,
    extensions_a: Seq<&'static str>,
    extensions_b: Seq<&'static str>,
)
    requires
        forall|name: Seq<char>| #[trigger]
            crate::names::listed(a, name) <==> crate::names::listed(b, name),
        forall|name: Seq<char>| #[trigger]
            crate::names::listed(extensions_a, name) <==> crate::names::listed(extensions_b, name),
    ensures
        error.broken_by(a, supported, extensions_a) <==> error.broken_by(
            b,
            supported,
            extensions_b,
        ),
{
    assert(crate::names::listed(a, error.feature@) <==> crate::names::listed(b, error.feature@));
    match error.restriction {
        FeatureRestriction::RequiresFeature(other) => {
            assert(crate::names::listed(a, other@) <==> crate::names::listed(b, other@));
        },
        FeatureRestriction::ConflictsFeature(other) => {
            assert(crate::names::listed(a, other@) <==> crate::names::listed(b, other@));
        },
        FeatureRestriction::RequiredByExtension(other) => {
            assert(crate::names::listed(extensions_a, other@) <==> crate::names::listed(
                extensions_b,
                other@,
            ));
        },
        _ => {},
    }
}

/// Which requests are refused, and for what. Let `extensions` be any list of the names that were
/// asked for and the portability subset where that is supported, and `features` any list of those
/// that were asked for and robust buffer access. A request is refused for its queues exactly where
/// a family has too few; for its extensions exactly where the queues are in order and one of
/// `extensions` is not supported or breaks a rule that applies to the device's version; and for its
/// features exactly where all that is in order and the same holds of `features`.
pub proof fn law_refusals(
    request: DeviceRequest,
    physical_device: PhysicalDeviceView,
    extensions: Seq<&'static str>,
    features: Seq<&'static str>,
)
    requires
        forall|name: Seq<char>| #[trigger]
            crate::names::listed(extensions, name) <==> {
                ||| crate::names::listed(request.enabled_extensions, name)
                ||| name == "VK_KHR_portability_subset"@ && crate::names::listed(
                    physical_device.instance.physical_devices@[
                        physical_device.index as int
                    ].supported_extensions@,
                    "VK_KHR_portability_subset"@,
                )
            },
        forall|name: Seq<char>| #[trigger]
            crate::names::listed(features, name) <==> {
                ||| crate::names::listed(request.enabled_features, name)
                ||| name == "robust_buffer_access"@
            },
    ensures
        ({
            let instance = physical_device.instance;
            let info = instance.physical_devices@[physical_device.index as int];
            let version = physical_device.usable_version();
            let context = ExtensionContext {
                supported: info.supported_extensions@,
                api_version: version,
                instance_extensions: instance.enabled_extensions@,
            };
            let extension_rules = instance.registry.extension_rules@;
            let feature_rules = instance.registry.feature_rules@;
            let too_many = exists|i: int|
                0 <= i < request.queues.len() && (#[trigger] request.queues[i]).priorities.len()
                    > request.queues[i].family.queue_count();
            let extensions_in_order = {
                &&& crate::names::all_in(extensions, info.supported_extensions@)
                &&& forall|i: int|
                    0 <= i < extension_rules.len() && (#[trigger] extension_rules[i]).since.le(
                        version,
                    ) ==> !extension_rules[i].error.broken_by(extensions, context)
            };
            let features_in_order = {
                &&& crate::names::all_in(features, info.supported_features@)
                &&& forall|i: int|
                    0 <= i < feature_rules.len() && (#[trigger] feature_rules[i]).since.le(version)
                        ==> !feature_rules[i].error.broken_by(
                        features,
                        info.supported_features@,
                        extensions,
                    )
            };
            let fault = request.fault(physical_device);
            &&& fault is None <==> !too_many && extensions_in_order && features_in_order
            &&& fault == Some(DeviceCreationError::TooManyQueuesForFamily) <==> too_many
            &&& fault is Some && fault->Some_0 is ExtensionRestrictionNotMet <==> !too_many
                && !extensions_in_order
            &&& fault is Some && fault->Some_0 is FeatureRestrictionNotMet <==> !too_many
                && extensions_in_order && !features_in_order
        }),
{
    let instance = physical_device.instance;
    let info = physical_device.info();
    let version = physical_device.usable_version();
    let context = ExtensionContext {
        supported: info.supported_extensions@,
        api_version: version,
        instance_extensions: instance.enabled_extensions@,
    };
    let on = request.extensions_on(physical_device);
    let enabled = crate::create::features_for(request.enabled_features);
    let extension_rules = instance.registry.extension_rules@;
    let feature_rules = instance.registry.feature_rules@;
    assert forall|name: Seq<char>| #[trigger]
        crate::names::listed(extensions, name) <==> crate::names::listed(on, name) by {
        law_extensions_of_device(request, physical_device, name);
    }
    assert forall|name: Seq<char>| #[trigger]
        crate::names::listed(features, name) <==> crate::names::listed(enabled, name) by {
        law_features_of_device(request, name);
    }
    assert(forall|name: Seq<char>| #[trigger]
        crate::names::listed(on, name) ==> crate::names::listed(extensions, name));
    assert(forall|name: Seq<char>| #[trigger]
        crate::names::listed(enabled, name) ==> crate::names::listed(features, name));
    if crate::names::all_in(extensions, info.supported_extensions@) {
        lemma_all_in_sets(on, extensions, info.supported_extensions@);
    }
    if crate::names::all_in(on, info.supported_extensions@) {
        lemma_all_in_sets(extensions, on, info.supported_extensions@);
    }
    if crate::names::all_in(features, info.supported_features@) {
        lemma_all_in_sets(enabled, features, info.supported_features@);
    }
    if crate::names::all_in(enabled, info.supported_features@) {
        lemma_all_in_sets(features, enabled, info.supported_features@);
    }
    assert forall|i: int| 0 <= i < extension_rules.len() implies (
    #[trigger] extension_rules[i]).error.broken_by(extensions, context)
        == extension_rules[i].error.broken_by(on, context) by {
        lemma_extension_sets(extension_rules[i].error, extensions, on, context);
    }
    assert forall|i: int| 0 <= i < feature_rules.len() implies (
    #[trigger] feature_rules[i]).error.broken_by(features, info.supported_features@, extensions)
        == feature_rules[i].error.broken_by(enabled, info.supported_features@, on) by {
        lemma_feature_sets(
            feature_rules[i].error,
            features,
            enabled,
            info.supported_features@,
            extensions,
            on,
        );
    }
    law_extension_fault(on, context, extension_rules);
    law_feature_fault(
        enabled,
        FeatureContext {
            supported: info.supported_features@,
            api_version: version,
            device_extensions: on,
        },
        feature_rules,
    );
    law_too_many_queues(request, physical_device);
}

/// The error of a set of extensions is that of the first one that is not supported, and where all
/// are, of the first rule that applies and is broken.
pub proof fn law_first_extension_error(
    enabled: Seq<&'static str>,
    context: ExtensionContext,
    rules: Seq<ExtensionRule>,
    i: int,
)
    ensures
        0 <= i < enabled.len() && !crate::names::listed(context.supported, enabled[i]@) && (
        forall|j: int|
            0 <= j < i ==> crate::names::listed(context.supported, (#[trigger] enabled[j])@)) ==> {
            let error = crate::extensions::extension_fault(enabled, context, rules);
            &&& error is Some
            &&& error->Some_0.extension == enabled[i]
            &&& error->Some_0.restriction == ExtensionRestriction::NotSupported
        },
        crate::names::all_in(enabled, context.supported) && 0 <= i < rules.len()
            && rules[i].since.le(context.api_version) && rules[i].error.broken_by(enabled, context)
            && (forall|j: int|
            0 <= j < i ==> !((#[trigger] rules[j]).since.le(context.api_version)
                && rules[j].error.broken_by(enabled, context)))
            ==> crate::extensions::extension_fault(enabled, context, rules) == Some(rules[i].error),
{
    lemma_first_unsupported_extension(enabled, context.supported);
    if 0 <= i < enabled.len() && !crate::names::listed(context.supported, enabled[i]@) && (forall|
        j: int,
    |
        0 <= j < i ==> crate::names::listed(context.supported, (#[trigger] enabled[j])@)) {
        lemma_unsupported_extension_at(enabled, context.supported, i);
    }
    if 0 <= i < rules.len() && rules[i].since.le(context.api_version) && rules[i].error.broken_by(
        enabled,
        context,
    ) && (forall|j: int|
        0 <= j < i ==> !((#[trigger] rules[j]).since.le(context.api_version)
            && rules[j].error.broken_by(enabled, context))) {
        lemma_broken_extension_rule_at(rules, enabled, context, i);
    }
}

/// The first extension that is not supported is the one that is found.
proof fn lemma_unsupported_extension_at(
    enabled: Seq<&'static str>,
    supported: Seq<&'static str>,
    i: int,
)
    requires
        0 <= i < enabled.len(),
        !crate::names::listed(supported, enabled[i]@),
        forall|j: int| 0 <= j < i ==> crate::names::listed(supported, (#[trigger] enabled[j])@),
    ensures
        crate::extensions::first_unsupported_extension(enabled, supported) is Some,
        crate::extensions::first_unsupported_extension(enabled, supported)->Some_0.extension
            == enabled[i],
    decreases i,
{
    if i > 0 {
        let rest = enabled.drop_first();
        assert(crate::names::listed(supported, enabled[0]@));
        assert forall|j: int| 0 <= j < i - 1 implies crate::names::listed(
            supported,
            (#[trigger] rest[j])@,
        ) by {
            assert(rest[j] == enabled[j + 1]);
        }
        lemma_unsupported_extension_at(rest, supported, i - 1);
    }
}

/// The first rule that applies and is broken is the one that is found.
proof fn lemma_broken_extension_rule_at(
    rules: Seq<ExtensionRule>,
    enabled: Seq<&'static str>,
    context: ExtensionContext,
    i: int,
)
    requires
        0 <= i < rules.len(),
        rules[i].since.le(context.api_version),
        rules[i].error.broken_by(enabled, context),
        forall|j: int|
            0 <= j < i ==> !((#[trigger] rules[j]).since.le(context.api_version)
                && rules[j].error.broken_by(enabled, context)),
    ensures
        crate::extensions::first_broken_extension_rule(rules, enabled, context) == Some(
            rules[i].error,
        ),
    decreases i,
{
    if i > 0 {
        let rest = rules.drop_first();
        assert(!(rules[0].since.le(context.api_version) && rules[0].error.broken_by(
            enabled,
            context,
        )));
        assert forall|j: int| 0 <= j < i - 1 implies !((#[trigger] rest[j]).since.le(
            context.api_version,
        ) && rest[j].error.broken_by(enabled, context)) by {
            assert(rest[j] == rules[j + 1]);
        }
        lemma_broken_extension_rule_at(rest, enabled, context, i - 1);
    }
}

/// The error of a set of features is that of the first one that is not supported, and where all
/// are, of the first rule that applies and is broken.
pub proof fn law_first_feature_error(
    enabled: Seq<&'static str>,
    context: FeatureContext,
    rules: Seq<FeatureRule>,
    i: int,
)
    ensures
        0 <= i < enabled.len() && !crate::names::listed(context.supported, enabled[i]@) && (
        forall|j: int|
            0 <= j < i ==> crate::names::listed(context.supported, (#[trigger] enabled[j])@)) ==> {
            let error = crate::features::feature_fault(enabled, context, rules);
            &&& error is Some
            &&& error->Some_0.feature == enabled[i]
            &&& error->Some_0.restriction == FeatureRestriction::NotSupported
        },
        crate::names::all_in(enabled, context.supported) && 0 <= i < rules.len()
            && rules[i].since.le(context.api_version) && rules[i].error.broken_by(
            enabled,
            context.supported,
            context.device_extensions,
        ) && (forall|j: int|
            0 <= j < i ==> !((#[trigger] rules[j]).since.le(context.api_version)
                && rules[j].error.broken_by(
                enabled,
                context.supported,
                context.device_extensions,
            ))) ==> crate::features::feature_fault(enabled, context, rules) == Some(
            rules[i].error,
        ),
{
    lemma_first_unsupported_feature(enabled, context.supported);
    if 0 <= i < enabled.len() && !crate::names::listed(context.supported, enabled[i]@) && (forall|
        j: int,
    |
        0 <= j < i ==> crate::names::listed(context.supported, (#[trigger] enabled[j])@)) {
        lemma_unsupported_feature_at(enabled, context.supported, i);
    }
    if 0 <= i < rules.len() && rules[i].since.le(context.api_version) && rules[i].error.broken_by(
        enabled,
        context.supported,
        context.device_extensions,
    ) && (forall|j: int|
        0 <= j < i ==> !((#[trigger] rules[j]).since.le(context.api_version)
            && rules[j].error.broken_by(enabled, context.supported, context.device_extensions))) {
        lemma_broken_feature_rule_at(rules, enabled, context, i);
    }
}

/// The first feature that is not supported is the one that is found.
proof fn lemma_unsupported_feature_at(
    enabled: Seq<&'static str>,
    supported: Seq<&'static str>,
    i: int,
)
    requires
        0 <= i < enabled.len(),
        !crate::names::listed(supported, enabled[i]@),
        forall|j: int| 0 <= j < i ==> crate::names::listed(supported, (#[trigger] enabled[j])@),
    ensures
        crate::features::first_unsupported_feature(enabled, supported) is Some,
        crate::features::first_unsupported_feature(enabled, supported)->Some_0.feature
            == enabled[i],
    decreases i,
{
    if i > 0 {
        let rest = enabled.drop_first();
        assert(crate::names::listed(supported, enabled[0]@));
        assert forall|j: int| 0 <= j < i - 1 implies crate::names::listed(
            supported,
            (#[trigger] rest[j])@,
        ) by {
            assert(rest[j] == enabled[j + 1]);
        }
        lemma_unsupported_feature_at(rest, supported, i - 1);
    }
}

/// The first rule that applies and is broken is the one that is found.
proof fn lemma_broken_feature_rule_at(
    rules: Seq<FeatureRule>,
    enabled: Seq<&'static str>,
    context: FeatureContext,
    i: int,
)
    requires
        0 <= i < rules.len(),
        rules[i].since.le(context.api_version),
        rules[i].error.broken_by(enabled, context.supported, context.device_extensions),
        forall|j: int|
            0 <= j < i ==> !((#[trigger] rules[j]).since.le(context.api_version)
                && rules[j].error.broken_by(enabled, context.supported, context.device_extensions)),
    ensures
        crate::features::first_broken_feature_rule(rules, enabled, context) == Some(
            rules[i].error,
        ),
    decreases i,
{
    if i > 0 {
        let rest = rules.drop_first();
        assert(!(rules[0].since.le(context.api_version) && rules[0].error.broken_by(
            enabled,
            context.supported,
            context.device_extensions,
        )));
        assert forall|j: int| 0 <= j < i - 1 implies !((#[trigger] rest[j]).since.le(
            context.api_version,
        ) && rest[j].error.broken_by(enabled, context.supported, context.device_extensions)) by {
            assert(rest[j] == rules[j + 1]);
        }
        lemma_broken_feature_rule_at(rest, enabled, context, i - 1);
    }
}

/// A refusal for the extensions tells the error of the planned list, held against the version of
/// the device; and one for the features tells theirs.
pub proof fn law_refusal_errors(
    request: DeviceRequest,
    physical_device: PhysicalDeviceView,
    extensions: Seq<&'static str>,
    features: Seq<&'static str>,
)
    requires
        forall|i: int|
            0 <= i < request.queues.len() ==> (#[trigger] request.queues[i]).priorities.len()
                <= request.queues[i].family.queue_count(),
        extensions == crate::names::with_name(
            request.enabled_extensions,
            "VK_KHR_portability_subset",
        ) && crate::names::listed(
            physical_device.info().supported_extensions@,
            "VK_KHR_portability_subset"@,
        ) || extensions == request.enabled_extensions && !crate::names::listed(
            physical_device.info().supported_extensions@,
            "VK_KHR_portability_subset"@,
        ),
        features == crate::names::with_name(request.enabled_features, "robust_buffer_access"),
    ensures
        ({
            let extension_error = crate::extensions::extension_fault(
                extensions,
                ExtensionContext {
                    supported: physical_device.info().supported_extensions@,
                    api_version: physical_device.usable_version(),
                    instance_extensions: physical_device.instance.enabled_extensions@,
                },
                physical_device.instance.registry.extension_rules@,
            );
            let feature_error = crate::features::feature_fault(
                features,
                FeatureContext {
                    supported: physical_device.info().supported_features@,
                    api_version: physical_device.usable_version(),
                    device_extensions: extensions,
                },
                physical_device.instance.registry.feature_rules@,
            );
            request.fault(physical_device) == match (extension_error, feature_error) {
                (Some(error), _) => Some(DeviceCreationError::ExtensionRestrictionNotMet(error)),
                (None, Some(error)) => Some(DeviceCreationError::FeatureRestrictionNotMet(error)),
                (None, None) => None,
            }
        }),
{
    assert(forall|i: int| 0 <= i < request.queues.len() ==> (#[trigger] request.queues[i]).fits());
}

} // verus!
