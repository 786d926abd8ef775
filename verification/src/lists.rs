//! Short lists.
//!
//! Most devices use one or two queue families, so the lists that are made while a device is
//! created live in `smallvec::SmallVec`, with room for two items in place. Everything that is not
//! proved about that crate is said here.
use smallvec::SmallVec;
use vstd::prelude::*;

verus! {

/// One queue to be retrieved from a device.
#[derive(Clone, Copy, Debug, PartialEq, Eq, Structural)]
pub struct QueueToGet {
    /// The id of the queue family.
    pub family: u32,
    /// The index of the queue within the family.
    pub id: u32,
}

/// `list` without the items that equal the one before them.
pub open spec fn without_repeats(list: Seq<u32>) -> Seq<u32>
    decreases list.len(),
{
    if list.len() <= 1 {
        list
    } else if list[list.len() - 2] == list.last() {
        without_repeats(list.drop_last())
    } else {
        without_repeats(list.drop_last()).push(list.last())
    }
}

/// Whether no item of `list` is larger than one behind it.
pub open spec fn ascending(list: Seq<u32>) -> bool {
    forall|i: int, j: int| 0 <= i < j < list.len() ==> list[i] <= list[j]
}

/// A list of queue family ids.
#[verifier::external_body]
#[derive(Debug)]
pub struct FamilyIds {
    list: SmallVec<[u32; 2]>,
}

/// The ids that a list holds, in their order.
pub uninterp spec fn family_ids(list: FamilyIds) -> Seq<u32>;

impl View for FamilyIds {
    type V = Seq<u32>;

    open spec fn view(&self) -> Seq<u32> {
        family_ids(*self)
    }
}

impl FamilyIds {
    /// Calls `SmallVec::with_capacity`: the new list is empty. That function panics where the
    /// capacity, in bytes, is more than an allocation can have, and such capacities are left out.
    #[verifier::external_body]
    pub(crate) fn with_capacity(capacity: usize) -> (list: Self)
        requires
            capacity * 8 <= isize::MAX,
        ensures
            family_ids(list) == Seq::<u32>::empty(),
    {
        FamilyIds { list: SmallVec::with_capacity(capacity) }
    }

    /// Calls `SmallVec::push`: the id comes to stand at the end, and the others stay. To make room
    /// it rounds the capacity up to a power of two, and it panics where that is more than an
    /// allocation can have; such lengths are left out.
    #[verifier::external_body]
    pub(crate) fn push(&mut self, id: u32)
        requires
            (family_ids(*old(self)).len() + 1) * 16 <= isize::MAX,
        ensures
            family_ids(*final(self)) == family_ids(*old(self)).push(id),
    {
        self.list.push(id)
    }

    /// Calls `sort_unstable` on the slice that a `SmallVec` is: the same ids, each as often as
    /// before, come to stand in ascending order.
    #[verifier::external_body]
    pub(crate) fn sort_unstable(&mut self)
        ensures
            ascending(family_ids(*final(self))),
            family_ids(*final(self)).to_multiset() == family_ids(*old(self)).to_multiset(),
    {
        self.list.sort_unstable()
    }

    /// Calls `SmallVec::dedup`: of ids that stand next to each other and are equal, only the first
    /// stays.
    #[verifier::external_body]
    pub(crate) fn dedup(&mut self)
        ensures
            family_ids(*final(self)) == without_repeats(family_ids(*old(self))),
    {
        self.list.dedup()
    }

    /// Calls `SmallVec::len`: how many ids the list holds.
    #[verifier::external_body]
    pub(crate) fn len(&self) -> (len: usize)
        ensures
            len == family_ids(*self).len(),
    {
        self.list.len()
    }

    /// Indexes a `SmallVec`: the id at that place. Indexing panics behind the end, and such places
    /// are left out.
    #[verifier::external_body]
    pub(crate) fn get(&self, index: usize) -> (id: u32)
        requires
            index < family_ids(*self).len(),
        ensures
            id == family_ids(*self)[index as int],
    {
        self.list[index]
    }
}

/// A list of queues to be retrieved.
#[verifier::external_body]
#[derive(Debug)]
pub struct QueueList {
    list: SmallVec<[QueueToGet; 2]>,
}

/// The queues that a list holds, in their order.
pub uninterp spec fn listed_queues(list: QueueList) -> Seq<QueueToGet>;

impl View for QueueList {
    type V = Seq<QueueToGet>;

    open spec fn view(&self) -> Seq<QueueToGet> {
        listed_queues(*self)
    }
}

impl QueueList {
    /// Calls `SmallVec::with_capacity`: the new list is empty. That function panics where the
    /// capacity, in bytes, is more than an allocation can have, and such capacities are left out.
    #[verifier::external_body]
    pub(crate) fn with_capacity(capacity: usize) -> (list: Self)
        requires
            capacity * 16 <= isize::MAX,
        ensures
            listed_queues(list) == Seq::<QueueToGet>::empty(),
    {
        QueueList { list: SmallVec::with_capacity(capacity) }
    }

    /// Calls `SmallVec::push`: the queue comes to stand at the end, and the others stay. To make
    /// room it rounds the capacity up to a power of two, and it panics where that is more than an
    /// allocation can have; such lengths are left out.
    #[verifier::external_body]
    pub(crate) fn push(&mut self, queue: QueueToGet)
        requires
            (listed_queues(*old(self)).len() + 1) * 16 <= isize::MAX,
        ensures
            listed_queues(*final(self)) == listed_queues(*old(self)).push(queue),
    {
        self.list.push(queue)
    }

    /// Calls `SmallVec::len`: how many queues the list holds.
    #[verifier::external_body]
    pub(crate) fn len(&self) -> (len: usize)
        ensures
            len == listed_queues(*self).len(),
    {
        self.list.len()
    }

    /// Indexes a `SmallVec`: the queue at that place. Indexing panics behind the end, and such
    /// places are left out.
    #[verifier::external_body]
    pub(crate) fn get(&self, index: usize) -> (queue: QueueToGet)
        requires
            index < listed_queues(*self).len(),
        ensures
            queue == listed_queues(*self)[index as int],
    {
        self.list[index]
    }
}

} // verus!
