//! What is asked of a new device, and what becomes of it.
use crate::error::DeviceCreationError;
use crate::extensions::{
    DeviceExtensions, KHR_GET_PHYSICAL_DEVICE_PROPERTIES2, KHR_PORTABILITY_SUBSET,
};
use crate::features::{Features, ROBUST_BUFFER_ACCESS};
use crate::lists::{FamilyIds, QueueList, QueueToGet};
use crate::physical::{PhysicalDevice, QueueFamily};
use crate::priority::QueuePriority;
use crate::version::Version;
use vstd::prelude::*;

verus! {

/// Parameters to create queues in a new `Device`.
#[derive(Debug)]
pub struct QueueCreateInfo<'qf> {
    /// The queue family to create queues for.
    pub family: QueueFamily<'qf>,
    /// The queues to create for the given queue family, each with a relative priority.
    ///
    /// The relative priority value is an arbitrary number between 0.0 and 1.0. Giving a queue a
    /// higher priority is a hint to the driver that the queue should be given more processing
    /// time. As this is only a hint, different drivers may handle this value differently and there
    /// are no guarantees about its behavior.
    ///
    /// The default value is a single queue with a priority of 0.5.
    pub queues: Vec<QueuePriority>,
}

/// What a `QueueCreateInfo` asks for.
pub struct QueueRequest {
    pub family: crate::physical::QueueFamilyView,
    pub priorities: Seq<QueuePriority>,
}

impl<'qf> View for QueueCreateInfo<'qf> {
    type V = QueueRequest;

    open spec fn view(&self) -> QueueRequest {
        QueueRequest { family: self.family@, priorities: self.queues@ }
    }
}

impl<'qf> Clone for QueueCreateInfo<'qf> {
    fn clone(&self) -> (copy: Self)
        ensures
            copy@ == self@,
    {
        let queues = self.queues.clone();
        assert(queues@ =~= self.queues@);
        QueueCreateInfo { family: self.family, queues }
    }
}

impl<'qf> QueueCreateInfo<'qf> {
    /// Returns a `QueueCreateInfo` with the given queue family.
    pub fn family(family: QueueFamily<'qf>) -> (info: QueueCreateInfo<'qf>)
        ensures
            info.family == family,
            info.queues@.len() == 1,
            info.queues@[0].bits == 0x3F00_0000,
            crate::priority::is_finite(info.queues@[0].bits),
            2 * crate::priority::scaled_value(info.queues@[0].bits)
                == crate::priority::scaled_one(),
            info@.priorities_in_range(),
    {
        QueueCreateInfo { family, queues: vec![QueuePriority::half()] }
    }
}

/// Parameters to create a new `Device`.
#[derive(Debug)]
pub struct DeviceCreateInfo<'qf> {
    /// The extensions to enable on the device.
    ///
    /// The default value is [`DeviceExtensions::none()`].
    pub enabled_extensions: DeviceExtensions,
    /// The features to enable on the device.
    ///
    /// The default value is [`Features::none()`].
    pub enabled_features: Features,
    /// The queues to create for the device.
    ///
    /// The default value is empty, which must be overridden.
    pub queue_create_infos: Vec<QueueCreateInfo<'qf>>,
}

/// What a `DeviceCreateInfo` asks for.
pub struct DeviceRequest {
    pub enabled_extensions: Seq<&'static str>,
    pub enabled_features: Seq<&'static str>,
    pub queues: Seq<QueueRequest>,
}

/// What a list of `QueueCreateInfo`s asks for.
pub open spec fn requests_of(infos: Seq<QueueCreateInfo<'_>>) -> Seq<QueueRequest> {
    infos.map_values(|info: QueueCreateInfo<'_>| info@)
}

impl<'qf> View for DeviceCreateInfo<'qf> {
    type V = DeviceRequest;

    open spec fn view(&self) -> DeviceRequest {
        DeviceRequest {
            enabled_extensions: self.enabled_extensions@,
            enabled_features: self.enabled_features@,
            queues: requests_of(self.queue_create_infos@),
        }
    }
}

impl<'qf> Clone for DeviceCreateInfo<'qf> {
    fn clone(&self) -> (copy: Self)
        ensures
            copy@ == self@,
    {
        let queue_create_infos = self.queue_create_infos.clone();
        assert(requests_of(queue_create_infos@) =~= requests_of(self.queue_create_infos@));
        DeviceCreateInfo {
            enabled_extensions: self.enabled_extensions.clone(),
            enabled_features: self.enabled_features.clone(),
            queue_create_infos,
        }
    }
}

impl Default for DeviceCreateInfo<'static> {
    fn default() -> (info: Self)
        ensures
            info.enabled_extensions@ == Seq::<&'static str>::empty(),
            info.enabled_features@ == Seq::<&'static str>::empty(),
            info.queue_create_infos@ == Seq::<QueueCreateInfo<'static>>::empty(),
    {
        DeviceCreateInfo {
            enabled_extensions: DeviceExtensions::none(),
            enabled_features: Features::none(),
            queue_create_infos: Vec::new(),
        }
    }
}

impl QueueRequest {
    /// Whether the family has as many queues as are asked for.
    pub open spec fn fits(self) -> bool {
        self.priorities.len() <= self.family.queue_count()
    }

    /// Whether every priority is a number between 0.0 and 1.0.
    pub open spec fn priorities_in_range(self) -> bool {
        forall|k: int|
            0 <= k < self.priorities.len() ==> crate::priority::in_unit_range(
                (#[trigger] self.priorities[k]).bits,
            )
    }
}

/// Whether the request at place `i` can be dealt with: its family belongs to the physical device
/// and is asked of in no other request, and it asks for at least one queue and for priorities in
/// range only.
pub open spec fn is_proper(
    requests: Seq<QueueRequest>,
    i: int,
    physical_device: crate::physical::PhysicalDeviceView,
) -> bool {
    &&& requests[i].family.belongs_to(physical_device)
    &&& forall|j: int|
        0 <= j < requests.len() && j != i ==> !(#[trigger] requests[j]).family.same_as(
            requests[i].family,
        )
    &&& requests[i].priorities.len() > 0
    &&& requests[i].priorities_in_range()
}

/// Whether `requests` can be dealt with: there is one, and each is proper.
pub open spec fn are_proper(
    requests: Seq<QueueRequest>,
    physical_device: crate::physical::PhysicalDeviceView,
) -> bool {
    &&& requests.len() > 0
    &&& forall|i: int|
        0 <= i < requests.len() ==> #[trigger] is_proper(requests, i, physical_device)
}

/// How many queues `requests` ask for.
pub open spec fn total_queues(requests: Seq<QueueRequest>) -> nat
    decreases requests.len(),
{
    if requests.len() == 0 {
        0
    } else {
        total_queues(requests.drop_last()) + requests.last().priorities.len()
    }
}

/// Whether lists of the requests, and of the queues that are asked for up to the first request
/// that asks for more than its family has, have a place in memory.
pub open spec fn fit_in_memory(requests: Seq<QueueRequest>) -> bool {
    forall|n: int|
        0 <= n <= requests.len() && (forall|j: int|
            0 <= j < n ==> (#[trigger] requests[j]).fits()) ==> (requests.len()
            + #[trigger] total_queues(requests.take(n)) + 1) * 16 <= isize::MAX
}

/// The ids of the families that `requests` are about.
pub open spec fn ids_of(requests: Seq<QueueRequest>) -> Seq<u32> {
    requests.map_values(|request: QueueRequest| request.family.id)
}

/// The queues that `requests` ask for: those of one request after those of the other.
pub open spec fn queues_of(requests: Seq<QueueRequest>) -> Seq<QueueToGet>
    decreases requests.len(),
{
    if requests.len() == 0 {
        Seq::empty()
    } else {
        queues_of(requests.drop_last()) + Seq::new(
            requests.last().priorities.len(),
            |id: int| QueueToGet { family: requests.last().family.id, id: id as u32 },
        )
    }
}

/// Whether each item of `list` is larger than those before it.
pub open spec fn strictly_ascending(list: Seq<u32>) -> bool {
    forall|i: int, j: int| 0 <= i < j < list.len() ==> list[i] < list[j]
}

/// The extensions that are enabled where `requested` are asked for.
pub open spec fn extensions_for(
    requested: Seq<&'static str>,
    supported: Seq<&'static str>,
) -> Seq<&'static str> {
    if crate::names::listed(supported, KHR_PORTABILITY_SUBSET@) {
        crate::names::with_name(requested, KHR_PORTABILITY_SUBSET)
    } else {
        requested
    }
}

/// The features that are enabled where `requested` are asked for.
pub open spec fn features_for(requested: Seq<&'static str>) -> Seq<&'static str> {
    crate::names::with_name(requested, ROBUST_BUFFER_ACCESS)
}

impl DeviceRequest {
    /// The extensions that a device made from `physical_device` has.
    pub open spec fn extensions_on(
        self,
        physical_device: crate::physical::PhysicalDeviceView,
    ) -> Seq<&'static str> {
        extensions_for(
            self.enabled_extensions,
            physical_device.info().supported_extensions@,
        )
    }

    /// What is wrong with the extensions.
    pub open spec fn extension_fault(
        self,
        physical_device: crate::physical::PhysicalDeviceView,
    ) -> Option<crate::extensions::ExtensionRestrictionError> {
        crate::extensions::extension_fault(
            self.extensions_on(physical_device),
            crate::extensions::ExtensionContext {
                supported: physical_device.info().supported_extensions@,
                api_version: physical_device.usable_version(),
                instance_extensions: physical_device.instance.enabled_extensions@,
            },
            physical_device.instance.registry.extension_rules@,
        )
    }

    /// What is wrong with the features.
    pub open spec fn feature_fault(
        self,
        physical_device: crate::physical::PhysicalDeviceView,
    ) -> Option<crate::features::FeatureRestrictionError> {
        crate::features::feature_fault(
            features_for(self.enabled_features),
            crate::features::FeatureContext {
                supported: physical_device.info().supported_features@,
                api_version: physical_device.usable_version(),
                device_extensions: self.extensions_on(physical_device),
            },
            physical_device.instance.registry.feature_rules@,
        )
    }

    /// Why the device cannot be created, as far as that is known before the driver is asked.
    pub open spec fn fault(
        self,
        physical_device: crate::physical::PhysicalDeviceView,
    ) -> Option<DeviceCreationError> {
        if exists|i: int| 0 <= i < self.queues.len() && !(#[trigger] self.queues[i]).fits() {
            Some(DeviceCreationError::TooManyQueuesForFamily)
        } else if let Some(error) = self.extension_fault(physical_device) {
            Some(DeviceCreationError::ExtensionRestrictionNotMet(error))
        } else if let Some(error) = self.feature_fault(physical_device) {
            Some(DeviceCreationError::FeatureRestrictionNotMet(error))
        } else {
            None
        }
    }

    /// Whether the request can be dealt with at all.
    pub open spec fn is_proper_for(
        self,
        physical_device: crate::physical::PhysicalDeviceView,
    ) -> bool {
        &&& are_proper(self.queues, physical_device)
        &&& fit_in_memory(self.queues)
    }
}

/// Parameters by which the driver creates the queues of one family.
#[derive(Debug)]
pub struct DeviceQueueCreateInfo {
    pub queue_family_index: u32,
    pub queue_count: u32,
    pub queue_priorities: Vec<QueuePriority>,
}

impl DeviceQueueCreateInfo {
    /// Whether these are the parameters for `request`.
    pub open spec fn is_for(self, request: QueueRequest) -> bool {
        &&& self.queue_family_index == request.family.id
        &&& self.queue_count == request.priorities.len()
        &&& self.queue_priorities@ == request.priorities
    }
}

/// A device that is about to be created: what the driver is to be asked for, and what the device
/// will be.
#[derive(Debug)]
pub struct DevicePlan<'a> {
    pub physical_device: PhysicalDevice<'a>,
    pub api_version: Version,
    /// The queues to create, one item for each family.
    pub queue_create_infos: Vec<DeviceQueueCreateInfo>,
    /// The layers to enable, which are those of the instance.
    pub enabled_layers: Vec<String>,
    pub enabled_extensions: DeviceExtensions,
    pub enabled_features: Features,
    /// Whether the features are handed over in the chain of structures rather than on their own.
    pub features_in_chain: bool,
    pub active_queue_families: FamilyIds,
    pub queues_to_get: QueueList,
}

impl<'a> DevicePlan<'a> {
    /// Whether this is the plan by which `request` is met on `physical_device`.
    pub open spec fn is_for(
        self,
        request: DeviceRequest,
        physical_device: crate::physical::PhysicalDeviceView,
    ) -> bool {
        &&& self.physical_device@ == physical_device
        &&& self.api_version == physical_device.usable_version()
        &&& self.queue_create_infos@.len() == request.queues.len()
        &&& forall|i: int|
            0 <= i < request.queues.len() ==> (#[trigger] self.queue_create_infos@[i]).is_for(
                request.queues[i],
            )
        &&& self.enabled_layers@.len() == physical_device.instance.enabled_layers@.len()
        &&& forall|i: int|
            0 <= i < self.enabled_layers@.len() ==> (#[trigger] self.enabled_layers@[i])@
                == physical_device.instance.enabled_layers@[i]@
        &&& self.enabled_extensions@ == request.extensions_on(physical_device)
        &&& self.enabled_features@ == features_for(request.enabled_features)
        &&& self.features_in_chain == crate::names::listed(
            physical_device.instance.enabled_extensions@,
            KHR_GET_PHYSICAL_DEVICE_PROPERTIES2@,
        )
        &&& strictly_ascending(self.active_queue_families@)
        &&& forall|id: u32|
            self.active_queue_families@.contains(id) <==> ids_of(request.queues).contains(id)
        &&& self.queues_to_get@ == queues_of(request.queues)
    }
}

/// The first requests ask for no more queues than more of them.
proof fn lemma_total_queues_prefix(requests: Seq<QueueRequest>, m: int, n: int)
    requires
        0 <= m <= n <= requests.len(),
    ensures
        total_queues(requests.take(m)) <= total_queues(requests.take(n)),
    decreases n - m,
{
    if m < n {
        lemma_total_queues_prefix(requests, m, n - 1);
        assert(requests.take(n).drop_last() =~= requests.take(n - 1));
    }
}

/// Lists have a place in memory where those up to the first request that does not fit have.
proof fn lemma_fit_in_memory(requests: Seq<QueueRequest>, end: int)
    requires
        0 <= end <= requests.len(),
        end < requests.len() ==> !requests[end].fits(),
        (requests.len() + total_queues(requests.take(end)) + 1) * 16 <= isize::MAX,
    ensures
        fit_in_memory(requests),
{
    assert forall|n: int|
        0 <= n <= requests.len() && (forall|j: int|
            0 <= j < n ==> (#[trigger] requests[j]).fits()) implies (requests.len()
        + #[trigger] total_queues(requests.take(n)) + 1) * 16 <= isize::MAX by {
        if n > end {
            assert(requests[end].fits());
        }
        lemma_total_queues_prefix(requests, n, end);
    }
}

/// Every queue to get is of the family of a request, and within what is asked of it.
pub proof fn lemma_queue_is_of_request(requests: Seq<QueueRequest>, i: int) -> (r: int)
    requires
        forall|k: int| 0 <= k < requests.len() ==> (#[trigger] requests[k]).fits(),
        0 <= i < queues_of(requests).len(),
    ensures
        0 <= r < requests.len(),
        queues_of(requests)[i].family == requests[r].family.id,
        queues_of(requests)[i].id < requests[r].priorities.len(),
    decreases requests.len(),
{
    let front = requests.drop_last();
    if i < queues_of(front).len() {
        assert forall|k: int| 0 <= k < front.len() implies (#[trigger] front[k]).fits() by {
            assert(front[k] == requests[k]);
        }
        let r = lemma_queue_is_of_request(front, i);
        assert(front[r] == requests[r]);
        r
    } else {
        assert(requests[requests.len() - 1].fits());
        requests.len() - 1
    }
}

/// Dropping repeats keeps which ids there are, and leaves an ascending list strictly ascending.
proof fn lemma_without_repeats(list: Seq<u32>)
    requires
        crate::lists::ascending(list),
    ensures
        strictly_ascending(crate::lists::without_repeats(list)),
        forall|id: u32|
            crate::lists::without_repeats(list).contains(id) <==> list.contains(id),
        list.len() > 0 ==> crate::lists::without_repeats(list).len() > 0
            && crate::lists::without_repeats(list).last() == list.last(),
    decreases list.len(),
{
    if list.len() > 1 {
        let front = list.drop_last();
        let kept = crate::lists::without_repeats(front);
        lemma_without_repeats(front);
        assert(list =~= front.push(list.last()));
        assert(front.last() == list[list.len() - 2]);
        if front.last() == list.last() {
            assert forall|id: u32| list.contains(id) implies kept.contains(id) by {
                let i = choose|i: int| 0 <= i < list.len() && list[i] == id;
                if i < front.len() {
                    assert(front[i] == id);
                } else {
                    assert(front[front.len() - 1] == id);
                }
                assert(front.contains(id));
            }
            assert forall|id: u32| kept.contains(id) implies list.contains(id) by {
                assert(front.contains(id));
                let i = choose|i: int| 0 <= i < front.len() && front[i] == id;
                assert(list[i] == id);
            }
        } else {
            let all = kept.push(list.last());
            assert forall|id: u32| list.contains(id) implies all.contains(id) by {
                let i = choose|i: int| 0 <= i < list.len() && list[i] == id;
                if i < front.len() {
                    assert(front[i] == id);
                    assert(front.contains(id));
                    let k = choose|k: int| 0 <= k < kept.len() && kept[k] == id;
                    assert(all[k] == id);
                } else {
                    assert(all[all.len() - 1] == id);
                }
            }
            assert forall|id: u32| all.contains(id) implies list.contains(id) by {
                let k = choose|k: int| 0 <= k < all.len() && all[k] == id;
                if k < kept.len() {
                    assert(kept[k] == id);
                    assert(front.contains(id));
                    let i = choose|i: int| 0 <= i < front.len() && front[i] == id;
                    assert(list[i] == id);
                } else {
                    assert(list[list.len() - 1] == id);
                }
            }
        }
    }
}

/// Two lists with the same items, counted, hold the same ids.
proof fn lemma_same_ids(a: Seq<u32>, b: Seq<u32>)
    requires
        a.to_multiset() == b.to_multiset(),
    ensures
        forall|id: u32| a.contains(id) <==> b.contains(id),
{
    assert forall|id: u32| a.contains(id) <==> b.contains(id) by {
        vstd::seq_lib::to_multiset_contains(a, id);
        vstd::seq_lib::to_multiset_contains(b, id);
    }
}

impl<'qf> DeviceCreateInfo<'qf> {
    /// Whether the request at place `i` can be dealt with.
    fn request_is_proper(
        infos: &Vec<QueueCreateInfo<'qf>>,
        i: usize,
        physical_device: &PhysicalDevice<'_>,
    ) -> (proper: bool)
        requires
            i < infos@.len(),
        ensures
            proper == is_proper(requests_of(infos@), i as int, physical_device@),
    {
        let ghost requests = requests_of(infos@);
        let info = &infos[i];
        if !info.family.is_of(physical_device) {
            return false;
        }
        let mut j: usize = 0;
        while j < infos.len()
            invariant
                j <= infos@.len(),
                i < infos@.len(),
                *info == infos@[i as int],
                requests == requests_of(infos@),
                forall|k: int|
                    0 <= k < j && k != i ==> !(#[trigger] requests[k]).family.same_as(
                        requests[i as int].family,
                    ),
            decreases infos@.len() - j,
        {
            assert(requests[j as int] == infos@[j as int]@);
            if j != i && infos[j].family == info.family {
                assert(requests[j as int].family.same_as(requests[i as int].family));
                return false;
            }
            j += 1;
        }
        if info.queues.len() == 0 {
            return false;
        }
        let mut k: usize = 0;
        while k < info.queues.len()
            invariant
                k <= info.queues@.len(),
                i < infos@.len(),
                *info == infos@[i as int],
                requests == requests_of(infos@),
                forall|q: int|
                    0 <= q < k ==> crate::priority::in_unit_range(
                        (#[trigger] requests[i as int].priorities[q]).bits,
                    ),
            decreases info.queues@.len() - k,
        {
            assert(requests[i as int].priorities[k as int] == info.queues@[k as int]);
            if !info.queues[k].is_in_range() {
                return false;
            }
            k += 1;
        }
        true
    }

    /// Whether a device can be asked of `physical_device` in this way: there is something in
    /// `queue_create_infos`; each item is about a family of the physical device that no other item
    /// is about, and asks for at least one queue and for priorities between 0.0 and 1.0 only; and
    /// the lists have a place in memory.
    pub fn is_proper_for(&self, physical_device: &PhysicalDevice<'_>) -> (proper: bool)
        ensures
            proper == self@.is_proper_for(physical_device@),
            proper ==> forall|i: int, k: int|
                0 <= i < self.queue_create_infos@.len() && 0 <= k
                    < self.queue_create_infos@[i].queues@.len() ==> crate::priority::in_unit_range(
                    (#[trigger] self.queue_create_infos@[i].queues@[k]).bits,
                ),
    {
        let infos = &self.queue_create_infos;
        let ghost requests = requests_of(infos@);
        if infos.len() == 0 {
            return false;
        }
        let limit: usize = isize::MAX as usize / 16;
        assert(total_queues(requests.take(0)) == 0);
        if infos.len() >= limit {
            return false;
        }
        let mut room: usize = limit - infos.len() - 1;
        let mut all_fit = true;
        let mut k: usize = 0;
        while k < infos.len()
            invariant
                k <= infos@.len(),
                requests == requests_of(infos@),
                forall|j: int|
                    0 <= j < k ==> #[trigger] is_proper(requests, j, physical_device@),
                infos@.len() > 0,
                *infos == self.queue_create_infos,
                limit == isize::MAX as usize / 16,
                all_fit ==> forall|j: int| 0 <= j < k ==> (#[trigger] requests[j]).fits(),
                all_fit ==> infos@.len() + total_queues(requests.take(k as int)) + 1 + room
                    == limit,
                !all_fit ==> fit_in_memory(requests),
            decreases infos@.len() - k,
        {
            assert(requests.take(k + 1).drop_last() =~= requests.take(k as int));
            assert(requests[k as int] == infos@[k as int]@);
            if !Self::request_is_proper(infos, k, physical_device) {
                return false;
            }
            if all_fit {
                if infos[k].queues.len() > infos[k].family.queues_count() {
                    assert(!requests[k as int].fits());
                    proof {
                        lemma_fit_in_memory(requests, k as int);
                    }
                    all_fit = false;
                } else if infos[k].queues.len() > room {
                    assert(total_queues(requests.take(k + 1)) > limit - infos@.len() - 1);
                    return false;
                } else {
                    room -= infos[k].queues.len();
                }
            }
            k += 1;
        }
        proof {
            if all_fit {
                lemma_fit_in_memory(requests, k as int);
            }
            crate::meaning::law_proper_requests(self@, physical_device@);
            assert forall|i: int, k: int|
                0 <= i < self.queue_create_infos@.len() && 0 <= k
                    < self.queue_create_infos@[i].queues@.len() implies
            crate::priority::in_unit_range(
                (#[trigger] self.queue_create_infos@[i].queues@[k]).bits,
            ) by {
                assert(self@.queues[i].priorities[k] == self.queue_create_infos@[i].queues@[k]);
            }
        }
        true
    }

    /// What the driver is to be asked for to create the queues, with the ids of the families and
    /// the queues themselves; `None` where a family has too few queues.
    fn plan_queues(infos: &Vec<QueueCreateInfo<'qf>>) -> (planned: Option<
        (Vec<DeviceQueueCreateInfo>, FamilyIds, QueueList),
    >)
        requires
            fit_in_memory(requests_of(infos@)),
        ensures
            planned is None <==> exists|i: int|
                0 <= i < infos@.len() && !(#[trigger] requests_of(infos@)[i]).fits(),
            planned matches Some((create_infos, ids, queues)) ==> {
                &&& create_infos@.len() == infos@.len()
                &&& forall|i: int|
                    0 <= i < infos@.len() ==> (#[trigger] create_infos@[i]).is_for(
                        requests_of(infos@)[i],
                    )
                &&& ids@ == ids_of(requests_of(infos@))
                &&& queues@ == queues_of(requests_of(infos@))
            },
    {
        let ghost requests = requests_of(infos@);
        assert((requests.len() + total_queues(requests.take(0)) + 1) * 16 <= isize::MAX);
        let mut create_infos: Vec<DeviceQueueCreateInfo> = Vec::with_capacity(infos.len());
        let mut ids = FamilyIds::with_capacity(infos.len());
        let mut queues = QueueList::with_capacity(infos.len());
        let mut i: usize = 0;
        while i < infos.len()
            invariant
                i <= infos@.len(),
                requests == requests_of(infos@),
                fit_in_memory(requests),
                forall|j: int| 0 <= j < i ==> (#[trigger] requests[j]).fits(),
                create_infos@.len() == i,
                forall|j: int| 0 <= j < i ==> (#[trigger] create_infos@[j]).is_for(requests[j]),
                ids@ == ids_of(requests.take(i as int)),
                queues@ == queues_of(requests.take(i as int)),
                queues@.len() == total_queues(requests.take(i as int)),
            decreases infos@.len() - i,
        {
            let info = &infos[i];
            assert(requests[i as int] == info@);
            if info.queues.len() > info.family.queues_count() {
                assert(!requests[i as int].fits());
                return None;
            }
            assert(requests[i as int].fits());
            assert(requests.take(i + 1).drop_last() =~= requests.take(i as int));
            assert((requests.len() + total_queues(requests.take(i + 1)) + 1) * 16 <= isize::MAX);
            let family = info.family.id();
            let count: u32 = info.queues.len() as u32;
            let queue_priorities = info.queues.clone();
            assert(queue_priorities@ =~= info.queues@);
            create_infos.push(
                DeviceQueueCreateInfo {
                    queue_family_index: family,
                    queue_count: count,
                    queue_priorities,
                },
            );
            ids.push(family);
            assert(ids@ =~= ids_of(requests.take(i + 1)));
            let ghost before = queues@;
            let mut id: u32 = 0;
            while id < count
                invariant
                    id <= count,
                    queues@ == before + Seq::new(
                        id as nat,
                        |k: int| QueueToGet { family, id: k as u32 },
                    ),
                    (before.len() + count + 1) * 16 <= isize::MAX,
                decreases count - id,
            {
                queues.push(QueueToGet { family, id });
                id += 1;
                assert(queues@ =~= before + Seq::new(
                    id as nat,
                    |k: int| QueueToGet { family, id: k as u32 },
                ));
            }
            assert(queues@ =~= queues_of(requests.take(i + 1)));
            i += 1;
        }
        assert(requests.take(i as int) =~= requests);
        Some((create_infos, ids, queues))
    }

    /// Works out how the device is to be created, or why it cannot be.
    ///
    /// On top of what is asked for, the portability subset extension is enabled where it is
    /// supported, and robust buffer access always.
    pub fn plan<'a>(self, physical_device: PhysicalDevice<'a>) -> (planned: Result<
        DevicePlan<'a>,
        DeviceCreationError,
    >)
        requires
            self@.is_proper_for(physical_device@),
        ensures
            match self@.fault(physical_device@) {
                Some(error) => planned == Err::<DevicePlan<'a>, DeviceCreationError>(error),
                None => {
                    &&& planned is Ok
                    &&& planned->Ok_0.is_for(self@, physical_device@)
                    &&& planned->Ok_0.wf()
                },
            },
    {
        let ghost request = self@;
        let DeviceCreateInfo { mut enabled_extensions, mut enabled_features, queue_create_infos } =
            self;
        let instance = physical_device.instance();
        let info = physical_device.info();
        let api_version = info.api_version.min(instance.max_api_version);

        let (create_infos, mut active_queue_families, queues_to_get) = match Self::plan_queues(
            &queue_create_infos,
        ) {
            Some(planned) => planned,
            None => {
                return Err(DeviceCreationError::TooManyQueuesForFamily);
            },
        };
        let ghost ids = active_queue_families@;
        active_queue_families.sort_unstable();
        let ghost sorted = active_queue_families@;
        active_queue_families.dedup();
        proof {
            lemma_same_ids(ids, sorted);
            lemma_without_repeats(sorted);
        }

        if info.supported_extensions.contains(KHR_PORTABILITY_SUBSET) {
            enabled_extensions.enable(KHR_PORTABILITY_SUBSET);
        }
        match enabled_extensions.check_requirements(
            &info.supported_extensions,
            api_version,
            &instance.enabled_extensions,
            &instance.registry.extension_rules,
        ) {
            Ok(()) => {},
            Err(error) => {
                return Err(DeviceCreationError::from(error));
            },
        }

        enabled_features.enable(ROBUST_BUFFER_ACCESS);
        match enabled_features.check_requirements(
            &info.supported_features,
            api_version,
            &enabled_extensions,
            &instance.registry.feature_rules,
        ) {
            Ok(()) => {},
            Err(error) => {
                return Err(DeviceCreationError::from(error));
            },
        }

        let mut enabled_layers: Vec<String> = Vec::new();
        let mut i: usize = 0;
        while i < instance.enabled_layers.len()
            invariant
                i <= instance.enabled_layers@.len(),
                enabled_layers@.len() == i,
                forall|k: int|
                    0 <= k < i ==> (#[trigger] enabled_layers@[k])@
                        == instance.enabled_layers@[k]@,
            decreases instance.enabled_layers@.len() - i,
        {
            enabled_layers.push(instance.enabled_layers[i].clone());
            i += 1;
        }
        let features_in_chain = instance.enabled_extensions.contains(
            KHR_GET_PHYSICAL_DEVICE_PROPERTIES2,
        );
        let plan = DevicePlan {
            physical_device,
            api_version,
            queue_create_infos: create_infos,
            enabled_layers,
            enabled_extensions,
            enabled_features,
            features_in_chain,
            active_queue_families,
            queues_to_get,
        };
        proof {
            use_type_invariant(&physical_device);
            plan.lemma_sound(request, physical_device@);
        }
        Ok(plan)
    }
}

} // verus!
