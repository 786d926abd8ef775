//! The pools that a device remembers, and how it is taken down.
//!
//! A device hands out the same pool for as long as somebody uses it, without keeping it alive
//! itself. So what it remembers is a weak reference `W`, from which `upgrade` gets the pool back
//! if it is still there, and which `downgrade` makes from a pool. What a pool `P` is does not
//! matter here: only `make` can bring one about, and it is called at most once and only where no
//! pool was found. So the pool that is remembered is the very one that is returned.
use crate::device::Device;
use crate::physical::QueueFamily;
use std::collections::hash_map::Entry;
use std::collections::HashMap;
use std::sync::Arc;
use vstd::prelude::*;

verus! {

/// Whether `upgrade` may find `pool` behind `weak`.
pub open spec fn found<W, P, U: Fn(&W) -> Option<Arc<P>>>(
    upgrade: U,
    weak: W,
    pool: Arc<P>,
) -> bool {
    call_ensures(upgrade, (&weak,), Some(pool))
}

/// Whether `upgrade` may find nothing behind `weak`.
pub open spec fn gone<W, P, U: Fn(&W) -> Option<Arc<P>>>(upgrade: U, weak: W) -> bool {
    call_ensures(upgrade, (&weak,), None::<Arc<P>>)
}

/// Whether `weak` may be what `downgrade` makes of `pool`.
pub open spec fn remembered<W, P, D: Fn(&Arc<P>) -> W>(
    downgrade: D,
    pool: Arc<P>,
    weak: W,
) -> bool {
    call_ensures(downgrade, (&pool,), weak)
}

/// One request for a remembered pool: the pool that was remembered, if it is still there, and
/// nothing changes; or else a `fresh` one, which is remembered from now on.
pub open spec fn pool_step<W, P, U: Fn(&W) -> Option<Arc<P>>, D: Fn(&Arc<P>) -> W>(
    before: W,
    after: W,
    pool: Arc<P>,
    fresh: bool,
    upgrade: U,
    downgrade: D,
) -> bool {
    ||| found(upgrade, before, pool) && after == before
    ||| gone(upgrade, before) && fresh && remembered(downgrade, pool, after)
}

/// One request for a remembered pool of a queue family, as `pool_step`, where there may be nothing
/// remembered for the family yet. What is remembered for the other families stays.
pub open spec fn family_pool_step<W, P, U: Fn(&W) -> Option<Arc<P>>, D: Fn(&Arc<P>) -> W>(
    before: Map<u32, W>,
    after: Map<u32, W>,
    family: u32,
    pool: Arc<P>,
    fresh: bool,
    upgrade: U,
    downgrade: D,
) -> bool {
    ||| {
        &&& before.contains_key(family)
        &&& found(upgrade, before[family], pool)
        &&& after =~= before
    }
    ||| {
        &&& before.contains_key(family) ==> gone(upgrade, before[family])
        &&& fresh
        &&& after.contains_key(family)
        &&& remembered(downgrade, pool, after[family])
        &&& after =~= before.insert(family, after[family])
    }
}

impl Device {
    /// Returns the standard memory pool used by default if you don't provide any other pool.
    pub fn standard_pool<
        W,
        P,
        M: FnOnce(Arc<Device>) -> Arc<P>,
        U: Fn(&W) -> Option<Arc<P>>,
        D: Fn(&Arc<P>) -> W,
    >(me: &Arc<Self>, standard_pool: &mut W, make: M, upgrade: U, downgrade: D) -> (pool: Arc<P>)
        requires
            call_requires(upgrade, (&*old(standard_pool),)),
            gone::<W, P, U>(upgrade, *old(standard_pool)) ==> call_requires(make, (*me,)),
            forall|pool: Arc<P>|
                call_ensures(make, (*me,), pool) ==> #[trigger] call_requires(downgrade, (&pool,)),
        ensures
            pool_step(
                *old(standard_pool),
                *final(standard_pool),
                pool,
                call_ensures(make, (*me,), pool),
                upgrade,
                downgrade,
            ),
    {
        if let Some(pool) = upgrade(&*standard_pool) {
            return pool;
        }
        // The weak pointer is empty, so we create the pool.
        let new_pool = make(me.clone());
        *standard_pool = downgrade(&new_pool);
        new_pool
    }

    /// Returns the standard descriptor pool used by default if you don't provide any other pool.
    pub fn standard_descriptor_pool<
        W,
        P,
        M: FnOnce(Arc<Device>) -> Arc<P>,
        U: Fn(&W) -> Option<Arc<P>>,
        D: Fn(&Arc<P>) -> W,
    >(
        me: &Arc<Self>,
        standard_descriptor_pool: &mut W,
        make: M,
        upgrade: U,
        downgrade: D,
    ) -> (pool: Arc<P>)
        requires
            call_requires(upgrade, (&*old(standard_descriptor_pool),)),
            gone::<W, P, U>(upgrade, *old(standard_descriptor_pool)) ==> call_requires(
                make,
                (*me,),
            ),
            forall|pool: Arc<P>|
                call_ensures(make, (*me,), pool) ==> #[trigger] call_requires(downgrade, (&pool,)),
        ensures
            pool_step(
                *old(standard_descriptor_pool),
                *final(standard_descriptor_pool),
                pool,
                call_ensures(make, (*me,), pool),
                upgrade,
                downgrade,
            ),
    {
        if let Some(pool) = upgrade(&*standard_descriptor_pool) {
            return pool;
        }
        // The weak pointer is empty, so we create the pool.
        let new_pool = make(me.clone());
        *standard_descriptor_pool = downgrade(&new_pool);
        new_pool
    }

    /// Returns the standard command buffer pool used by default if you don't provide any other
    /// pool. The device and the queue family must belong to the same physical device.
    pub fn standard_command_pool<
        W,
        P,
        M: FnOnce(Arc<Device>, u32) -> Arc<P>,
        U: Fn(&W) -> Option<Arc<P>>,
        D: Fn(&Arc<P>) -> W,
    >(
        me: &Arc<Self>,
        standard_command_pools: &mut HashMap<u32, W>,
        queue: QueueFamily<'_>,
        make: M,
        upgrade: U,
        downgrade: D,
    ) -> (pool: Arc<P>)
        requires
            queue@.physical_device.info().handle == me@.physical_device.info().handle,
            old(standard_command_pools)@.contains_key(queue@.id) ==> call_requires(
                upgrade,
                (&old(standard_command_pools)@[queue@.id],),
            ),
            (old(standard_command_pools)@.contains_key(queue@.id) ==> gone::<W, P, U>(
                upgrade,
                old(standard_command_pools)@[queue@.id],
            )) ==> call_requires(make, (*me, queue@.id)),
            forall|pool: Arc<P>|
                call_ensures(make, (*me, queue@.id), pool) ==> #[trigger] call_requires(
                    downgrade,
                    (&pool,),
                ),
        ensures
            family_pool_step(
                old(standard_command_pools)@,
                final(standard_command_pools)@,
                queue@.id,
                pool,
                call_ensures(make, (*me, queue@.id), pool),
                upgrade,
                downgrade,
            ),
    {
        broadcast use vstd::std_specs::hash::group_hash_axioms;

        let id = queue.id();
        match standard_command_pools.entry(id) {
            Entry::Occupied(mut entry) => {
                if let Some(pool) = upgrade(entry.get()) {
                    return pool;
                }
                let new_pool = make(me.clone(), id);
                *entry.get_mut() = downgrade(&new_pool);
                new_pool
            },
            Entry::Vacant(entry) => {
                let new_pool = make(me.clone(), id);
                entry.insert(downgrade(&new_pool));
                new_pool
            },
        }
    }
}

/// Whether what is remembered for each family finds only pools of that family, where `family_of`
/// tells the family of a pool.
pub open spec fn own_pools<W, P, U: Fn(&W) -> Option<Arc<P>>>(
    pools: Map<u32, W>,
    family_of: spec_fn(Arc<P>) -> u32,
    upgrade: U,
) -> bool {
    forall|family: u32, pool: Arc<P>|
        pools.contains_key(family) && #[trigger] found(upgrade, pools[family], pool) ==> family_of(
            pool,
        ) == family
}

/// Whether what `downgrade` remembers of a pool finds that pool, if any.
pub open spec fn remembers_itself<W, P, U: Fn(&W) -> Option<Arc<P>>, D: Fn(&Arc<P>) -> W>(
    upgrade: U,
    downgrade: D,
) -> bool {
    forall|pool: Arc<P>, weak: W, other: Arc<P>| #[trigger]
        remembered(downgrade, pool, weak) && #[trigger] found(upgrade, weak, other) ==> other
            == pool
}

/// One call by which a device is taken down.
#[derive(Clone, Copy, Debug, PartialEq, Eq, Structural)]
pub enum Destruction {
    /// Destroys the fence of that handle.
    Fence(u64),
    /// Destroys the semaphore of that handle.
    Semaphore(u64),
    /// Destroys the event of that handle.
    Event(u64),
    /// Destroys the device of that handle.
    Device(u64),
}

/// The calls by which a device is taken down, in their order: what lies in its pools first, and
/// the device itself last.
pub open spec fn destructions(
    device: u64,
    fences: Seq<u64>,
    semaphores: Seq<u64>,
    events: Seq<u64>,
) -> Seq<Destruction> {
    fences.map_values(|fence: u64| Destruction::Fence(fence)) + semaphores.map_values(
        |semaphore: u64| Destruction::Semaphore(semaphore),
    ) + events.map_values(|event: u64| Destruction::Event(event)) + seq![
        Destruction::Device(device),
    ]
}

impl Device {
    /// Works out by which calls the device is taken down, with the handles that lie in its pools
    /// of fences, semaphores and events.
    pub fn destructions(
        &self,
        fence_pool: &Vec<u64>,
        semaphore_pool: &Vec<u64>,
        event_pool: &Vec<u64>,
    ) -> (calls: Vec<Destruction>)
        ensures
            calls@ == destructions(self@.handle, fence_pool@, semaphore_pool@, event_pool@),
    {
        let mut calls: Vec<Destruction> = Vec::new();
        let ghost fences = fence_pool@.map_values(|fence: u64| Destruction::Fence(fence));
        let ghost semaphores = semaphore_pool@.map_values(
            |semaphore: u64| Destruction::Semaphore(semaphore),
        );
        let ghost events = event_pool@.map_values(|event: u64| Destruction::Event(event));
        let mut i: usize = 0;
        while i < fence_pool.len()
            invariant
                i <= fence_pool@.len(),
                fences == fence_pool@.map_values(|fence: u64| Destruction::Fence(fence)),
                calls@ == fences.take(i as int),
            decreases fence_pool@.len() - i,
        {
            calls.push(Destruction::Fence(fence_pool[i]));
            i += 1;
        }
        let mut j: usize = 0;
        while j < semaphore_pool.len()
            invariant
                j <= semaphore_pool@.len(),
                semaphores == semaphore_pool@.map_values(
                    |semaphore: u64| Destruction::Semaphore(semaphore),
                ),
                calls@ == fences + semaphores.take(j as int),
            decreases semaphore_pool@.len() - j,
        {
            calls.push(Destruction::Semaphore(semaphore_pool[j]));
            j += 1;
        }
        let mut k: usize = 0;
        while k < event_pool.len()
            invariant
                k <= event_pool@.len(),
                events == event_pool@.map_values(|event: u64| Destruction::Event(event)),
                calls@ == fences + semaphores + events.take(k as int),
            decreases event_pool@.len() - k,
        {
            calls.push(Destruction::Event(event_pool[k]));
            k += 1;
        }
        calls.push(Destruction::Device(self.handle()));
        calls
    }
}

} // verus!
