use std::cell::Cell;
use std::collections::HashMap;
use std::sync::{Arc, Weak};
use vulkano_device::extensions::EXT_DEBUG_UTILS;
use vulkano_device::features::ROBUST_BUFFER_ACCESS;
use vulkano_device::names::{has_nul, same_str, NameSet};
use vulkano_device::{
    DebugUtilsError, DebugUtilsLabel, Destruction, Device, DeviceCreateInfo, DeviceExtensions,
    DevicePlan, Error, Features, Instance, InstanceExtensions, OomError, PhysicalDevice,
    PhysicalDeviceInfo, Queue, QueueCreateInfo, QueueFamilyInfo, Registry, Version,
};

struct Pool {
    device: Arc<Device>,
}

struct FamilyPool {
    device: Arc<Device>,
    queue_family_index: u32,
}

fn instance(debug_utils: bool) -> Arc<Instance> {
    let mut supported_features = Features::none();
    supported_features.enable(ROBUST_BUFFER_ACCESS);
    let mut enabled_extensions = InstanceExtensions::none();
    if debug_utils {
        enabled_extensions.enable(EXT_DEBUG_UTILS);
    }
    Arc::new(Instance {
        handle: 1,
        max_api_version: Version { major: 1, minor: 3, patch: 0 },
        enabled_extensions,
        enabled_layers: Vec::new(),
        registry: Registry {
            features: vec![ROBUST_BUFFER_ACCESS],
            extension_rules: Vec::new(),
            feature_rules: Vec::new(),
        },
        physical_devices: vec![PhysicalDeviceInfo {
            handle: 2,
            api_version: Version { major: 1, minor: 0, patch: 5 },
            supported_extensions: DeviceExtensions::none(),
            supported_features,
            queue_families: vec![
                QueueFamilyInfo { queue_count: 1 },
                QueueFamilyInfo { queue_count: 1 },
            ],
        }],
    })
}

fn device_and_queue(instance: &Arc<Instance>) -> (Arc<Device>, Arc<Queue>) {
    let physical = PhysicalDevice::from_index(instance, 0).unwrap();
    let family = physical.queue_family_by_id(1).unwrap();
    let info = DeviceCreateInfo {
        queue_create_infos: vec![QueueCreateInfo::family(family)],
        ..Default::default()
    };
    assert!(info.is_proper_for(&physical));
    let (device, queues) = Device::new(
        physical,
        info,
        |_: &DevicePlan<'_>| Ok(3),
        |_: u64, _: u32, _: u32| 4,
    )
    .unwrap();
    (device, queues[0].clone())
}

fn label(name: &str) -> DebugUtilsLabel {
    DebugUtilsLabel {
        label_name: name.to_string(),
        color: [1.0f32.to_bits(), 0.0f32.to_bits(), 0.5f32.to_bits(), 1.0f32.to_bits()],
    }
}

fn is_refusal(submitted: Result<(), DebugUtilsError>) -> bool {
    match submitted {
        Ok(()) => false,
        Err(error) => {
            assert_eq!(
                error.message(),
                "the extension ext_debug_utils must be enabled: tried to submit a debug utils command"
            );
            true
        }
    }
}

#[test]
fn waiting_for_a_queue() {
    let (_, queue) = device_and_queue(&instance(false));
    assert_eq!(
        queue.wait(|handle: u64| {
            assert_eq!(handle, 4);
            Ok(())
        }),
        Ok(())
    );
    assert_eq!(
        queue.wait(|_: u64| Err(Error::OutOfDeviceMemory)),
        Err(OomError::OutOfDeviceMemory)
    );
}

#[test]
fn labels_need_the_extension() {
    let (device, queue) = device_and_queue(&instance(false));
    assert!(is_refusal(
        queue.begin_debug_utils_label(label("a"), |_: u64, _: &DebugUtilsLabel| panic!())
    ));
    assert!(is_refusal(queue.end_debug_utils_label(|_: u64| panic!())));
    drop(device);
    let mut queue = Arc::try_unwrap(queue).unwrap();
    assert!(is_refusal(
        queue.insert_debug_utils_label(label("a"), |_: u64, _: &DebugUtilsLabel| panic!())
    ));
}

#[test]
fn labels_reach_the_driver() {
    let (_, queue) = device_and_queue(&instance(true));
    let calls = Cell::new(0);
    let check = |handle: u64, given: &DebugUtilsLabel| {
        assert_eq!(handle, 4);
        assert_eq!(given.label_name, "pass");
        assert_eq!(given.color, label("").color);
        calls.set(calls.get() + 1);
    };
    assert!(queue.begin_debug_utils_label(label("pass"), check).is_ok());
    assert!(queue
        .end_debug_utils_label(|handle: u64| {
            assert_eq!(handle, 4);
            calls.set(calls.get() + 1);
        })
        .is_ok());
    let mut queue = Arc::try_unwrap(queue).unwrap();
    assert!(queue.insert_debug_utils_label(label("pass"), check).is_ok());
    assert_eq!(calls.get(), 3);
}

#[test]
fn the_memory_pool_is_kept_while_it_is_used() {
    let (device, _) = device_and_queue(&instance(false));
    let mut slot: Weak<Pool> = Weak::new();
    let made = Cell::new(0);
    let mut pool = || {
        Device::standard_pool(
            &device,
            &mut slot,
            |device: Arc<Device>| {
                made.set(made.get() + 1);
                Arc::new(Pool { device })
            },
            |weak: &Weak<Pool>| weak.upgrade(),
            |pool: &Arc<Pool>| Arc::downgrade(pool),
        )
    };
    let first = pool();
    let second = pool();
    assert!(Arc::ptr_eq(&first, &second));
    assert!(Arc::ptr_eq(&first.device, &device));
    let held = Arc::downgrade(&first);
    drop(first);
    drop(second);
    assert!(held.upgrade().is_none());
    let third = pool();
    assert!(held.upgrade().is_none());
    assert!(Arc::ptr_eq(&third, &pool()));
    assert_eq!(made.get(), 2);
}

#[test]
fn the_descriptor_pool_is_kept_while_it_is_used() {
    let (device, _) = device_and_queue(&instance(false));
    let mut slot: Weak<Pool> = Weak::new();
    let made = Cell::new(0);
    let mut pool = || {
        Device::standard_descriptor_pool(
            &device,
            &mut slot,
            |device: Arc<Device>| {
                made.set(made.get() + 1);
                Arc::new(Pool { device })
            },
            |weak: &Weak<Pool>| weak.upgrade(),
            |pool: &Arc<Pool>| Arc::downgrade(pool),
        )
    };
    let first = pool();
    assert!(Arc::ptr_eq(&first, &pool()));
    assert!(Arc::ptr_eq(&first.device, &device));
    let held = Arc::downgrade(&first);
    drop(first);
    let second = pool();
    assert!(held.upgrade().is_none());
    assert!(Arc::ptr_eq(&second, &pool()));
    assert_eq!(made.get(), 2);
}

#[test]
fn each_family_has_a_command_pool() {
    let instance = instance(false);
    let (device, _) = device_and_queue(&instance);
    let physical = device.physical_device();
    let mut slots: HashMap<u32, Weak<FamilyPool>> = HashMap::new();
    let made = Cell::new(0);
    let mut pool = |id: u32| {
        Device::standard_command_pool(
            &device,
            &mut slots,
            physical.queue_family_by_id(id).unwrap(),
            |device: Arc<Device>, queue_family_index: u32| {
                made.set(made.get() + 1);
                Arc::new(FamilyPool { device, queue_family_index })
            },
            |weak: &Weak<FamilyPool>| weak.upgrade(),
            |pool: &Arc<FamilyPool>| Arc::downgrade(pool),
        )
    };
    let zero = pool(0);
    let one = pool(1);
    assert_eq!((zero.queue_family_index, one.queue_family_index), (0, 1));
    assert!(!Arc::ptr_eq(&zero, &one));
    assert!(Arc::ptr_eq(&zero.device, &device));
    assert!(Arc::ptr_eq(&zero, &pool(0)));
    assert!(Arc::ptr_eq(&one, &pool(1)));
    let held = Arc::downgrade(&zero);
    drop(zero);
    let again = pool(0);
    assert!(held.upgrade().is_none());
    assert!(Arc::ptr_eq(&again, &pool(0)));
    assert!(Arc::ptr_eq(&one, &pool(1)));
    drop(pool);
    assert_eq!(slots.len(), 2);
    assert_eq!(made.get(), 3);
}

#[test]
fn pools_do_not_keep_the_device_remembered() {
    let (mut device, queue) = device_and_queue(&instance(false));
    drop(queue);
    let mut slot: Weak<Pool> = Weak::new();
    let pool = Device::standard_pool(
        &device,
        &mut slot,
        |device: Arc<Device>| Arc::new(Pool { device }),
        |weak: &Weak<Pool>| weak.upgrade(),
        |pool: &Arc<Pool>| Arc::downgrade(pool),
    );
    assert!(Arc::get_mut(&mut device).is_none());
    drop(pool);
    assert!(Arc::get_mut(&mut device).is_some());
}

#[test]
fn a_device_is_taken_down_last() {
    let (device, _) = device_and_queue(&instance(false));
    assert_eq!(
        device.destructions(&vec![10, 11], &vec![20], &vec![30, 31, 30]),
        [
            Destruction::Fence(10),
            Destruction::Fence(11),
            Destruction::Semaphore(20),
            Destruction::Event(30),
            Destruction::Event(31),
            Destruction::Event(30),
            Destruction::Device(3),
        ]
    );
    assert_eq!(
        device.destructions(&Vec::new(), &Vec::new(), &Vec::new()),
        [Destruction::Device(3)]
    );
}

#[test]
fn names() {
    assert!(same_str("", ""));
    assert!(same_str("caf\u{e9}", "caf\u{e9}"));
    assert!(!same_str("a", "b"));
    assert!(!same_str("a", "ab"));
    assert!(has_nul("a\0"));
    assert!(has_nul("\0a"));
    assert!(!has_nul("a0"));
    assert!(!has_nul(""));
    let mut set = NameSet::none();
    set.insert("b");
    set.insert("a");
    set.insert("b");
    assert_eq!(set.names(), &["b", "a"]);
    assert!(set.contains("a") && !set.contains("c"));
    let copy = set.clone();
    assert!(copy.is_superset_of(&set) && set.is_superset_of(&copy));
}
