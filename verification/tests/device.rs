use std::collections::hash_map::DefaultHasher;
use std::hash::{Hash, Hasher};
use std::sync::Arc;
use vulkano_device::extensions::{
    EXT_DEBUG_UTILS, KHR_EXTERNAL_MEMORY_FD, KHR_GET_PHYSICAL_DEVICE_PROPERTIES2,
    KHR_PORTABILITY_SUBSET,
};
use vulkano_device::features::ROBUST_BUFFER_ACCESS;
use vulkano_device::{
    Device, DeviceCreateInfo, DeviceCreationError, DeviceExtensions, DeviceOwned, DevicePlan,
    Error, ExtensionRestriction, ExtensionRestrictionError, ExtensionRule,
    ExternalMemoryHandleType, FeatureRestriction, FeatureRestrictionError, FeatureRule, Features,
    Instance, InstanceExtensions, MemoryFdPropertiesError, OneOfRequirements, OomError,
    PhysicalDevice, PhysicalDeviceInfo, Queue, QueueCreateInfo, QueueFamilyInfo, QueuePriority,
    Registry, Version, VulkanObject,
};

fn version(major: u32, minor: u32) -> Version {
    Version { major, minor, patch: 0 }
}

fn priorities(values: &[f32]) -> Vec<QueuePriority> {
    values.iter().map(|v| QueuePriority { bits: v.to_bits() }).collect()
}

fn plain_instance() -> Instance {
    let mut supported_features = Features::none();
    supported_features.enable(ROBUST_BUFFER_ACCESS);
    supported_features.enable("geometry_shader");
    let mut supported_extensions = DeviceExtensions::none();
    supported_extensions.enable("VK_KHR_swapchain");
    supported_extensions.enable(KHR_EXTERNAL_MEMORY_FD);
    Instance {
        handle: 0x11,
        max_api_version: version(1, 1),
        enabled_extensions: InstanceExtensions::none(),
        enabled_layers: vec!["VK_LAYER_KHRONOS_validation".to_string()],
        registry: Registry {
            features: vec![
                ROBUST_BUFFER_ACCESS,
                "geometry_shader",
                "tessellation_shader",
                "geometry_shader",
            ],
            extension_rules: Vec::new(),
            feature_rules: Vec::new(),
        },
        physical_devices: vec![PhysicalDeviceInfo {
            handle: 0x22,
            api_version: version(1, 2),
            supported_extensions,
            supported_features,
            queue_families: vec![
                QueueFamilyInfo { queue_count: 2 },
                QueueFamilyInfo { queue_count: 1 },
                QueueFamilyInfo { queue_count: 4 },
            ],
        }],
    }
}

fn instance() -> Arc<Instance> {
    Arc::new(plain_instance())
}

fn create(
    physical: PhysicalDevice<'_>,
    info: DeviceCreateInfo<'_>,
) -> Result<(Arc<Device>, Vec<Arc<Queue>>), DeviceCreationError> {
    assert!(info.is_proper_for(&physical));
    Device::new(
        physical,
        info,
        |_: &DevicePlan<'_>| Ok(0x33),
        |device: u64, family: u32, id: u32| device * 0x10000 + (family as u64) * 0x100 + id as u64,
    )
}

fn gfx_dev_and_queue(instance: &Arc<Instance>) -> (Arc<Device>, Arc<Queue>) {
    let physical = PhysicalDevice::from_index(instance, 0).unwrap();
    let family = physical.queue_family_by_id(0).unwrap();
    let (device, queues) = create(
        physical,
        DeviceCreateInfo {
            queue_create_infos: vec![QueueCreateInfo::family(family)],
            ..Default::default()
        },
    )
    .unwrap();
    (device, queues.into_iter().next().unwrap())
}

#[test]
fn one_ref() {
    let instance = instance();
    let (mut device, _) = gfx_dev_and_queue(&instance);
    assert!(Arc::get_mut(&mut device).is_some());
}

#[test]
fn too_many_queues() {
    let instance = instance();
    let physical = PhysicalDevice::from_index(&instance, 0).unwrap();
    let family = physical.queue_family_by_id(0).unwrap();
    match create(
        physical,
        DeviceCreateInfo {
            queue_create_infos: vec![QueueCreateInfo {
                queues: priorities(&vec![0.5; family.queues_count() + 1]),
                ..QueueCreateInfo::family(family)
            }],
            ..Default::default()
        },
    ) {
        Err(DeviceCreationError::TooManyQueuesForFamily) => return, // Success
        _ => panic!(),
    };
}

#[test]
fn unsupposed_features() {
    let instance = instance();
    let physical = PhysicalDevice::from_index(&instance, 0).unwrap();
    let family = physical.queue_family_by_id(0).unwrap();
    let features = Features::all(&instance.registry.features);
    assert!(!physical.info().supported_features.is_superset_of(&features));
    match create(
        physical,
        DeviceCreateInfo {
            enabled_features: features,
            queue_create_infos: vec![QueueCreateInfo::family(family)],
            ..Default::default()
        },
    ) {
        Err(DeviceCreationError::FeatureRestrictionNotMet(FeatureRestrictionError {
            restriction: FeatureRestriction::NotSupported,
            feature,
        })) => assert_eq!(feature, "tessellation_shader"),
        _ => panic!(),
    };
}

#[test]
fn priority_out_of_range() {
    let instance = instance();
    let physical = PhysicalDevice::from_index(&instance, 0).unwrap();
    let family = physical.queue_family_by_id(0).unwrap();
    for priority in [1.4, -0.2, f32::NAN, f32::INFINITY, f32::NEG_INFINITY, -1.0e-45, 1.0000001] {
        let info = DeviceCreateInfo {
            queue_create_infos: vec![QueueCreateInfo {
                queues: priorities(&[priority]),
                ..QueueCreateInfo::family(family)
            }],
            ..Default::default()
        };
        assert!(!info.is_proper_for(&physical));
    }
    for priority in [0.0, -0.0, 1.0, 0.5, 0.99999994, 1.0e-45] {
        let info = DeviceCreateInfo {
            queue_create_infos: vec![QueueCreateInfo {
                queues: priorities(&[priority]),
                ..QueueCreateInfo::family(family)
            }],
            ..Default::default()
        };
        assert!(info.is_proper_for(&physical));
    }
}

#[test]
fn priorities_are_judged_as_numbers() {
    for bits in (0..u32::MAX).step_by(65_521) {
        let value = f32::from_bits(bits);
        assert_eq!(QueuePriority { bits }.is_in_range(), value >= 0.0 && value <= 1.0);
    }
}

#[test]
fn a_new_queue_create_info_asks_for_one_queue_of_middle_priority() {
    let instance = instance();
    let physical = PhysicalDevice::from_index(&instance, 0).unwrap();
    let info = QueueCreateInfo::family(physical.queue_family_by_id(1).unwrap());
    assert_eq!(info.family.id(), 1);
    assert_eq!(info.queues, priorities(&[0.5]));
}

#[test]
fn a_default_create_info_asks_for_nothing() {
    let instance = instance();
    let physical = PhysicalDevice::from_index(&instance, 0).unwrap();
    let info = DeviceCreateInfo::default();
    assert!(info.enabled_extensions.names().is_empty());
    assert!(info.enabled_features.names().is_empty());
    assert!(info.queue_create_infos.is_empty());
    assert!(!info.is_proper_for(&physical));
}

#[test]
fn improper_requests() {
    let mut other = plain_instance();
    other.physical_devices[0].handle = 0x99;
    let other = Arc::new(other);
    let foreign = PhysicalDevice::from_index(&other, 0).unwrap().queue_family_by_id(0).unwrap();

    let instance = instance();
    let physical = PhysicalDevice::from_index(&instance, 0).unwrap();
    let family = physical.queue_family_by_id(0).unwrap();
    let with = |infos| DeviceCreateInfo { queue_create_infos: infos, ..Default::default() };

    assert!(with(vec![QueueCreateInfo::family(family)]).is_proper_for(&physical));
    assert!(!with(vec![QueueCreateInfo::family(foreign)]).is_proper_for(&physical));
    assert!(!with(vec![QueueCreateInfo::family(family), QueueCreateInfo::family(family)])
        .is_proper_for(&physical));
    assert!(!with(vec![QueueCreateInfo { family, queues: Vec::new() }]).is_proper_for(&physical));
}

#[test]
fn an_improper_item_is_improper_wherever_it_stands() {
    let instance = instance();
    let physical = PhysicalDevice::from_index(&instance, 0).unwrap();
    let small = physical.queue_family_by_id(1).unwrap();
    let other = physical.queue_family_by_id(2).unwrap();
    let with = |queues| DeviceCreateInfo {
        queue_create_infos: vec![
            QueueCreateInfo { family: small, queues: priorities(&[0.1, 0.2]) },
            QueueCreateInfo { family: other, queues },
        ],
        ..Default::default()
    };
    assert!(!with(Vec::new()).is_proper_for(&physical));
    assert!(!with(priorities(&[f32::NAN])).is_proper_for(&physical));
    assert!(with(priorities(&[0.0, 1.0])).is_proper_for(&physical));
    assert!(matches!(
        create(physical, with(priorities(&[0.0, 1.0]))),
        Err(DeviceCreationError::TooManyQueuesForFamily)
    ));
}

#[test]
fn a_family_of_which_something_else_is_known_does_not_belong() {
    let mut other = plain_instance();
    other.physical_devices[0].queue_families[0].queue_count = 3;
    let other = Arc::new(other);
    let instance = instance();
    let physical = PhysicalDevice::from_index(&instance, 0).unwrap();
    let known = |instance, id| {
        PhysicalDevice::from_index(instance, 0).unwrap().queue_family_by_id(id).unwrap()
    };
    assert!(known(&instance, 0).is_of(&physical));
    assert!(!known(&other, 0).is_of(&physical));
    assert!(known(&other, 1).is_of(&physical));
}

#[test]
fn what_is_not_supported_never_reaches_the_driver() {
    let instance = instance();
    let physical = PhysicalDevice::from_index(&instance, 0).unwrap();
    let family = physical.queue_family_by_id(0).unwrap();
    let mut enabled_features = Features::none();
    enabled_features.enable("tessellation_shader");
    let mut enabled_extensions = DeviceExtensions::none();
    enabled_extensions.enable("VK_KHR_nothing");
    let infos = vec![
        DeviceCreateInfo {
            enabled_features,
            queue_create_infos: vec![QueueCreateInfo::family(family)],
            ..Default::default()
        },
        DeviceCreateInfo {
            enabled_extensions,
            queue_create_infos: vec![QueueCreateInfo::family(family)],
            ..Default::default()
        },
    ];
    for info in infos {
        assert!(info.is_proper_for(&physical));
        assert!(matches!(
            Device::new(
                physical,
                info,
                |_: &DevicePlan<'_>| panic!(),
                |_: u64, _: u32, _: u32| panic!(),
            ),
            Err(DeviceCreationError::FeatureRestrictionNotMet(_)
                | DeviceCreationError::ExtensionRestrictionNotMet(_))
        ));
    }
}

#[test]
fn a_layer_name_with_a_nul_cannot_be_handed_over() {
    let mut plain = plain_instance();
    plain.enabled_layers.push("a\0b".to_string());
    let instance = Arc::new(plain);
    let physical = PhysicalDevice::from_index(&instance, 0).unwrap();
    let family = physical.queue_family_by_id(0).unwrap();
    let info = DeviceCreateInfo {
        queue_create_infos: vec![QueueCreateInfo::family(family)],
        ..Default::default()
    };
    assert!(info.is_proper_for(&physical));
    assert!(!instance.has_c_layers());
    assert!(plain_instance().has_c_layers());

    // The names do not matter where the driver is not asked.
    let info = DeviceCreateInfo {
        queue_create_infos: vec![QueueCreateInfo {
            family,
            queues: priorities(&[0.5; 17]),
        }],
        ..Default::default()
    };
    assert!(info.is_proper_for(&physical));
    assert!(matches!(
        Device::new(
            physical,
            info,
            |_: &DevicePlan<'_>| panic!(),
            |_: u64, _: u32, _: u32| panic!(),
        ),
        Err(DeviceCreationError::TooManyQueuesForFamily)
    ));
}

#[test]
fn the_driver_is_asked_for_what_was_requested() {
    let mut plain = plain_instance();
    plain.enabled_extensions.enable(KHR_GET_PHYSICAL_DEVICE_PROPERTIES2);
    plain.physical_devices[0].supported_extensions.enable(KHR_PORTABILITY_SUBSET);
    let instance = Arc::new(plain);
    let physical = PhysicalDevice::from_index(&instance, 0).unwrap();
    let mut enabled_extensions = DeviceExtensions::none();
    enabled_extensions.enable("VK_KHR_swapchain");
    let mut enabled_features = Features::none();
    enabled_features.enable("geometry_shader");
    let info = DeviceCreateInfo {
        enabled_extensions,
        enabled_features,
        queue_create_infos: vec![
            QueueCreateInfo {
                family: physical.queue_family_by_id(2).unwrap(),
                queues: priorities(&[0.25, 1.0]),
            },
            QueueCreateInfo::family(physical.queue_family_by_id(0).unwrap()),
        ],
    };
    assert!(info.is_proper_for(&physical));
    let (device, queues) = Device::new(
        physical,
        info,
        |plan: &DevicePlan<'_>| {
            assert_eq!(plan.physical_device.internal_object(), 0x22);
            assert_eq!(plan.enabled_layers, ["VK_LAYER_KHRONOS_validation"]);
            assert_eq!(
                plan.enabled_extensions.names(),
                &["VK_KHR_swapchain", KHR_PORTABILITY_SUBSET]
            );
            assert_eq!(plan.enabled_features.names(), &["geometry_shader", ROBUST_BUFFER_ACCESS]);
            assert!(plan.features_in_chain);
            assert_eq!(plan.queue_create_infos.len(), 2);
            assert_eq!(plan.queue_create_infos[0].queue_family_index, 2);
            assert_eq!(plan.queue_create_infos[0].queue_count, 2);
            assert_eq!(plan.queue_create_infos[0].queue_priorities, priorities(&[0.25, 1.0]));
            assert_eq!(plan.queue_create_infos[1].queue_family_index, 0);
            assert_eq!(plan.queue_create_infos[1].queue_count, 1);
            Ok(77)
        },
        |device: u64, family: u32, id: u32| {
            assert_eq!(device, 77);
            (family * 10 + id) as u64
        },
    )
    .unwrap();

    assert_eq!(device.internal_object(), 77);
    assert_eq!(device.api_version(), version(1, 1));
    assert_eq!(device.instance().handle, 0x11);
    assert_eq!(device.physical_device().index(), 0);
    assert!(device.enabled_extensions().contains(KHR_PORTABILITY_SUBSET));
    assert!(!device.enabled_extensions().contains(KHR_EXTERNAL_MEMORY_FD));
    assert!(device.enabled_features().contains(ROBUST_BUFFER_ACCESS));
    let active: Vec<u32> = device.active_queue_families().iter().map(|f| f.id()).collect();
    assert_eq!(active, [0, 2]);
    let got: Vec<(u64, u32, u32)> = queues
        .iter()
        .map(|q| (q.handle(), q.family().id(), q.id_within_family()))
        .collect();
    assert_eq!(got, [(20, 2, 0), (21, 2, 1), (0, 0, 0)]);
    assert!(queues.iter().all(|q| Arc::ptr_eq(q.device(), &device)));
}

#[test]
fn many_families_are_listed_in_order_of_their_ids() {
    let mut plain = plain_instance();
    plain.physical_devices[0].queue_families =
        (0..9).map(|_| QueueFamilyInfo { queue_count: 1 }).collect();
    let instance = Arc::new(plain);
    let physical = PhysicalDevice::from_index(&instance, 0).unwrap();
    let info = DeviceCreateInfo {
        queue_create_infos: [8, 3, 5, 0, 7]
            .iter()
            .map(|&id| QueueCreateInfo::family(physical.queue_family_by_id(id).unwrap()))
            .collect(),
        ..Default::default()
    };
    let (device, queues) = create(physical, info).unwrap();
    let active: Vec<u32> = device.active_queue_families().iter().map(|f| f.id()).collect();
    assert_eq!(active, [0, 3, 5, 7, 8]);
    let families: Vec<u32> = queues.iter().map(|q| q.family().id()).collect();
    assert_eq!(families, [8, 3, 5, 0, 7]);
}

#[test]
fn the_version_of_a_device_is_the_lower_one() {
    for (device, instance, expected) in [
        (version(1, 0), version(1, 2), version(1, 0)),
        (version(1, 3), version(1, 2), version(1, 2)),
        (version(1, 1), version(1, 1), version(1, 1)),
        (version(1, 9), version(2, 0), version(1, 9)),
    ] {
        let mut plain = plain_instance();
        plain.max_api_version = instance;
        plain.physical_devices[0].api_version = device;
        let (device, _) = gfx_dev_and_queue(&Arc::new(plain));
        assert_eq!(device.api_version(), expected);
    }
}

fn refused_extensions(
    plain: Instance,
    enabled_extensions: DeviceExtensions,
) -> Option<ExtensionRestrictionError> {
    let instance = Arc::new(plain);
    let physical = PhysicalDevice::from_index(&instance, 0).unwrap();
    let family = physical.queue_family_by_id(0).unwrap();
    match create(
        physical,
        DeviceCreateInfo {
            enabled_extensions,
            queue_create_infos: vec![QueueCreateInfo::family(family)],
            ..Default::default()
        },
    ) {
        Ok(_) => None,
        Err(DeviceCreationError::ExtensionRestrictionNotMet(error)) => Some(error),
        Err(_) => panic!(),
    }
}

#[test]
fn extension_restrictions() {
    let mut enabled = DeviceExtensions::none();
    enabled.enable("VK_KHR_swapchain");
    enabled.enable("VK_NV_mesh_shader");
    let error = refused_extensions(plain_instance(), enabled).unwrap();
    assert_eq!(error.extension, "VK_NV_mesh_shader");
    assert!(matches!(error.restriction, ExtensionRestriction::NotSupported));

    let rule = |since, restriction| ExtensionRule {
        since,
        error: ExtensionRestrictionError { extension: "VK_KHR_swapchain", restriction },
    };
    let swapchain = || {
        let mut enabled = DeviceExtensions::none();
        enabled.enable("VK_KHR_swapchain");
        enabled
    };
    let with = |rule| {
        let mut plain = plain_instance();
        plain.registry.extension_rules.push(rule);
        plain
    };

    let required = ExtensionRestriction::RequiredIfSupported;
    assert!(refused_extensions(with(rule(version(1, 0), required)), swapchain()).is_none());
    assert!(matches!(
        refused_extensions(with(rule(version(1, 0), required)), DeviceExtensions::none()),
        Some(ExtensionRestrictionError {
            restriction: ExtensionRestriction::RequiredIfSupported,
            ..
        })
    ));
    // The rule only applies to later versions.
    assert!(
        refused_extensions(with(rule(version(1, 2), required)), DeviceExtensions::none()).is_none()
    );

    let conflict = ExtensionRestriction::ConflictsDeviceExtension(KHR_EXTERNAL_MEMORY_FD);
    assert!(refused_extensions(with(rule(version(1, 0), conflict)), swapchain()).is_none());
    let mut both = swapchain();
    both.enable(KHR_EXTERNAL_MEMORY_FD);
    assert!(refused_extensions(with(rule(version(1, 0), conflict)), both).is_some());

    let needs = |api_version| {
        ExtensionRestriction::Requires(OneOfRequirements {
            api_version,
            device_extensions: &[KHR_EXTERNAL_MEMORY_FD],
            instance_extensions: &["VK_KHR_surface"],
        })
    };
    let base = version(1, 0);
    assert!(refused_extensions(with(rule(base, needs(None))), swapchain()).is_some());
    assert!(refused_extensions(with(rule(base, needs(Some(version(1, 2))))), swapchain()).is_some());
    assert!(refused_extensions(with(rule(base, needs(Some(version(1, 1))))), swapchain()).is_none());
    let mut both = swapchain();
    both.enable(KHR_EXTERNAL_MEMORY_FD);
    assert!(refused_extensions(with(rule(base, needs(None))), both).is_none());
    let mut plain = with(rule(base, needs(None)));
    plain.enabled_extensions.enable("VK_KHR_surface");
    assert!(refused_extensions(plain, swapchain()).is_none());
}

#[test]
fn the_portability_subset_is_enabled_where_it_is_supported() {
    let rule = ExtensionRule {
        since: version(1, 0),
        error: ExtensionRestrictionError {
            extension: KHR_PORTABILITY_SUBSET,
            restriction: ExtensionRestriction::RequiredIfSupported,
        },
    };
    let mut plain = plain_instance();
    plain.registry.extension_rules.push(rule);
    let (device, _) = gfx_dev_and_queue(&Arc::new(plain));
    assert!(!device.enabled_extensions().contains(KHR_PORTABILITY_SUBSET));

    let mut plain = plain_instance();
    plain.registry.extension_rules.push(rule);
    plain.physical_devices[0].supported_extensions.enable(KHR_PORTABILITY_SUBSET);
    let (device, _) = gfx_dev_and_queue(&Arc::new(plain));
    assert!(device.enabled_extensions().contains(KHR_PORTABILITY_SUBSET));
}

#[test]
fn feature_restrictions() {
    let refused = |rule: FeatureRule, features: &[&'static str], extensions: &[&'static str]| {
        let mut plain = plain_instance();
        plain.registry.feature_rules.push(rule);
        plain.physical_devices[0].supported_features.enable("tessellation_shader");
        let instance = Arc::new(plain);
        let physical = PhysicalDevice::from_index(&instance, 0).unwrap();
        let family = physical.queue_family_by_id(0).unwrap();
        let mut info = DeviceCreateInfo {
            queue_create_infos: vec![QueueCreateInfo::family(family)],
            ..Default::default()
        };
        for name in features {
            info.enabled_features.enable(name);
        }
        for name in extensions {
            info.enabled_extensions.enable(name);
        }
        match create(physical, info) {
            Ok(_) => false,
            Err(DeviceCreationError::FeatureRestrictionNotMet(error)) => {
                assert_eq!(error.feature, "geometry_shader");
                true
            }
            Err(_) => panic!(),
        }
    };
    let rule = |restriction| FeatureRule {
        since: version(1, 1),
        error: FeatureRestrictionError { feature: "geometry_shader", restriction },
    };
    let requires = rule(FeatureRestriction::RequiresFeature("tessellation_shader"));
    assert!(refused(requires, &["geometry_shader"], &[]));
    assert!(!refused(requires, &["geometry_shader", "tessellation_shader"], &[]));
    assert!(!refused(requires, &[], &[]));
    let conflicts = rule(FeatureRestriction::ConflictsFeature("tessellation_shader"));
    assert!(!refused(conflicts, &["geometry_shader"], &[]));
    assert!(refused(conflicts, &["geometry_shader", "tessellation_shader"], &[]));
    let needed = rule(FeatureRestriction::RequiredByExtension("VK_KHR_swapchain"));
    assert!(!refused(needed, &[], &[]));
    assert!(refused(needed, &[], &["VK_KHR_swapchain"]));
    assert!(!refused(needed, &["geometry_shader"], &["VK_KHR_swapchain"]));
    let later = FeatureRule { since: version(1, 2), ..requires };
    assert!(!refused(later, &["geometry_shader"], &[]));
}

#[test]
fn robust_buffer_access_must_be_supported() {
    let mut plain = plain_instance();
    plain.physical_devices[0].supported_features = Features::none();
    let instance = Arc::new(plain);
    let physical = PhysicalDevice::from_index(&instance, 0).unwrap();
    let family = physical.queue_family_by_id(0).unwrap();
    let info = DeviceCreateInfo {
        queue_create_infos: vec![QueueCreateInfo::family(family)],
        ..Default::default()
    };
    match create(physical, info) {
        Err(DeviceCreationError::FeatureRestrictionNotMet(error)) => {
            assert_eq!(error.feature, ROBUST_BUFFER_ACCESS);
            assert!(matches!(error.restriction, FeatureRestriction::NotSupported));
        }
        _ => panic!(),
    }
}

#[test]
fn all_features_are_those_of_the_registry() {
    let instance = instance();
    let all = Features::all(&instance.registry.features);
    assert_eq!(all.names(), &[ROBUST_BUFFER_ACCESS, "geometry_shader", "tessellation_shader"]);
    assert!(all.is_superset_of(&Features::none()));
    assert!(!Features::none().is_superset_of(&all));
}

#[test]
fn errors_of_the_driver_on_creation() {
    let instance = instance();
    let physical = PhysicalDevice::from_index(&instance, 0).unwrap();
    let family = physical.queue_family_by_id(0).unwrap();
    let info = DeviceCreateInfo {
        queue_create_infos: vec![QueueCreateInfo::family(family)],
        ..Default::default()
    };
    for (error, expected) in [
        (Error::InitializationFailed, "InitializationFailed"),
        (Error::OutOfHostMemory, "OutOfHostMemory"),
        (Error::OutOfDeviceMemory, "OutOfDeviceMemory"),
        (Error::DeviceLost, "DeviceLost"),
        (Error::ExtensionNotPresent, "ExtensionNotPresent"),
        (Error::FeatureNotPresent, "FeatureNotPresent"),
        (Error::TooManyObjects, "TooManyObjects"),
    ] {
        assert!(DeviceCreationError::expects(error));
        let refused = Device::new(
            physical,
            info.clone(),
            |_: &DevicePlan<'_>| Err(error),
            |_: u64, _: u32, _: u32| panic!(),
        )
        .unwrap_err();
        assert_eq!(format!("{:?}", refused), expected);
    }
    assert!(!DeviceCreationError::expects(Error::InvalidExternalHandle));
    assert!(!DeviceCreationError::expects(Error::Other(-5)));
}

#[test]
fn a_refused_request_never_reaches_the_driver() {
    let instance = instance();
    let physical = PhysicalDevice::from_index(&instance, 0).unwrap();
    let family = physical.queue_family_by_id(1).unwrap();
    let info = DeviceCreateInfo {
        queue_create_infos: vec![QueueCreateInfo {
            family,
            queues: priorities(&[0.5, 0.5]),
        }],
        ..Default::default()
    };
    let refused = Device::new(
        physical,
        info,
        |_: &DevicePlan<'_>| panic!(),
        |_: u64, _: u32, _: u32| panic!(),
    );
    assert!(matches!(refused, Err(DeviceCreationError::TooManyQueuesForFamily)));
}

#[test]
fn waiting_for_a_device() {
    let instance = instance();
    let (device, _) = gfx_dev_and_queue(&instance);
    assert_eq!(
        device.wait(|handle: u64| {
            assert_eq!(handle, 0x33);
            Ok(())
        }),
        Ok(())
    );
    assert_eq!(
        device.wait(|_: u64| Err(Error::OutOfHostMemory)),
        Err(OomError::OutOfHostMemory)
    );
    assert_eq!(
        device.wait(|_: u64| Err(Error::OutOfDeviceMemory)),
        Err(OomError::OutOfDeviceMemory)
    );
    assert!(!OomError::expects(Error::DeviceLost));
}

#[test]
fn properties_of_file_descriptors() {
    let instance = instance();
    let (device, _) = gfx_dev_and_queue(&instance);
    let refused = device.memory_fd_properties(
        ExternalMemoryHandleType::DmaBuf,
        5,
        |_: u64, _: ExternalMemoryHandleType, _: i32| panic!(),
    );
    assert_eq!(refused.unwrap_err(), MemoryFdPropertiesError::NotSupported);

    let physical = PhysicalDevice::from_index(&instance, 0).unwrap();
    let family = physical.queue_family_by_id(0).unwrap();
    let mut info = DeviceCreateInfo {
        queue_create_infos: vec![QueueCreateInfo::family(family)],
        ..Default::default()
    };
    info.enabled_extensions.enable(KHR_EXTERNAL_MEMORY_FD);
    let (device, _) = create(physical, info).unwrap();
    let refused = device.memory_fd_properties(
        ExternalMemoryHandleType::OpaqueFd,
        5,
        |_: u64, _: ExternalMemoryHandleType, _: i32| panic!(),
    );
    assert_eq!(refused.unwrap_err(), MemoryFdPropertiesError::InvalidExternalHandleType);

    let properties = device.memory_fd_properties(
        ExternalMemoryHandleType::DmaBuf,
        5,
        |handle: u64, handle_type: ExternalMemoryHandleType, file: i32| {
            assert_eq!((handle, file), (0x33, 5));
            assert_eq!(handle_type, ExternalMemoryHandleType::DmaBuf);
            Ok(0b101)
        },
    );
    assert_eq!(properties.unwrap().memory_type_bits, 0b101);
    for (error, expected) in [
        (Error::OutOfHostMemory, MemoryFdPropertiesError::OutOfHostMemory),
        (Error::InvalidExternalHandle, MemoryFdPropertiesError::InvalidExternalHandle),
    ] {
        assert!(MemoryFdPropertiesError::expects(error));
        let failed = device.memory_fd_properties(
            ExternalMemoryHandleType::DmaBuf,
            5,
            |_: u64, _: ExternalMemoryHandleType, _: i32| Err(error),
        );
        assert_eq!(failed.unwrap_err(), expected);
    }
    assert!(!MemoryFdPropertiesError::expects(Error::OutOfDeviceMemory));
}

struct Buffer {
    device: Arc<Device>,
    handle: u64,
}

impl VulkanObject for Buffer {
    fn object_type() -> i32 {
        9
    }

    fn internal_object(&self) -> u64 {
        self.handle
    }
}

impl DeviceOwned for Buffer {
    fn device(&self) -> &Arc<Device> {
        &self.device
    }
}

#[test]
fn naming_objects() {
    let mut plain = plain_instance();
    plain.enabled_extensions.enable(EXT_DEBUG_UTILS);
    let instance = Arc::new(plain);
    let (device, _) = gfx_dev_and_queue(&instance);
    let buffer = Buffer { device: device.clone(), handle: 0x44 };
    let named = device.set_debug_utils_object_name(
        &buffer,
        Some("vertices"),
        |handle: u64, object_type: i32, object: u64, name: Option<&str>| {
            assert_eq!((handle, object_type, object, name), (0x33, 9, 0x44, Some("vertices")));
            Ok(())
        },
    );
    assert_eq!(named, Ok(()));
    let failed = device.set_debug_utils_object_name(
        &buffer,
        None,
        |_: u64, _: i32, _: u64, name: Option<&str>| {
            assert_eq!(name, None);
            Err(Error::OutOfHostMemory)
        },
    );
    assert_eq!(failed, Err(OomError::OutOfHostMemory));
}

#[test]
fn the_owner_is_found_through_pointers() {
    let instance = instance();
    let (device, queue) = gfx_dev_and_queue(&instance);
    let boxed = Box::new(queue.clone());
    assert!(Arc::ptr_eq(DeviceOwned::device(&queue), &device));
    assert!(Arc::ptr_eq(DeviceOwned::device(&boxed), &device));
    assert!(Arc::ptr_eq(DeviceOwned::device(&&*queue), &device));
}

#[test]
fn the_object_type_of_a_device() {
    assert_eq!(<Device as VulkanObject>::object_type(), 3);
    assert_eq!(
        <Device as VulkanObject>::object_type(),
        ash::vk::ObjectType::DEVICE.as_raw()
    );
}

fn hash_of<T: Hash>(value: &T) -> u64 {
    let mut hasher = DefaultHasher::new();
    value.hash(&mut hasher);
    hasher.finish()
}

/// Writes down what it is fed.
struct Recorder {
    fed: Vec<u64>,
}

impl Hasher for Recorder {
    fn finish(&self) -> u64 {
        0
    }

    fn write(&mut self, _: &[u8]) {
        panic!();
    }

    fn write_u32(&mut self, value: u32) {
        self.fed.push(value as u64);
    }

    fn write_u64(&mut self, value: u64) {
        self.fed.push(value);
    }
}

fn fed_by<T: Hash>(value: &T) -> Vec<u64> {
    let mut recorder = Recorder { fed: Vec::new() };
    value.hash(&mut recorder);
    recorder.fed
}

#[test]
fn what_hashers_are_fed() {
    let instance = instance();
    let physical = PhysicalDevice::from_index(&instance, 0).unwrap();
    let info = DeviceCreateInfo {
        queue_create_infos: vec![QueueCreateInfo {
            family: physical.queue_family_by_id(2).unwrap(),
            queues: priorities(&[0.5, 0.5]),
        }],
        ..Default::default()
    };
    let (device, queues) = Device::new(
        physical,
        info,
        |_: &DevicePlan<'_>| Ok(0x33),
        |_: u64, _: u32, _: u32| 5,
    )
    .unwrap();
    assert_eq!(fed_by(&*instance), [0x11]);
    assert_eq!(fed_by(&*device), [0x33, 0x11]);
    assert_eq!(fed_by(&*queues[1]), [1, 2, 0x33, 0x11]);
    for queue in &queues {
        assert!((queue.id_within_family() as usize) < queue.family().queues_count());
    }
}

#[test]
fn equality_and_hashes() {
    let first = instance();
    let mut plain = plain_instance();
    plain.handle = 0x12;
    let second = Arc::new(plain);
    let (a, qa) = gfx_dev_and_queue(&first);
    let (b, qb) = gfx_dev_and_queue(&first);
    let (c, qc) = gfx_dev_and_queue(&second);
    assert!(*a == *b && hash_of(&*a) == hash_of(&*b));
    assert!(*a != *c && hash_of(&*a) != hash_of(&*c));
    assert!(*qa == *qb && hash_of(&*qa) == hash_of(&*qb));
    assert!(*qa != *qc && hash_of(&*qa) != hash_of(&*qc));
    assert_eq!(a.hash_key(), (0x33, 0x11));
    assert_eq!(qa.hash_key(), (0, 0, (0x33, 0x11)));

    let physical = PhysicalDevice::from_index(&first, 0).unwrap();
    let families = [0, 2].map(|id| physical.queue_family_by_id(id).unwrap());
    let (_, queues) = create(
        physical,
        DeviceCreateInfo {
            queue_create_infos: families
                .iter()
                .map(|&family| QueueCreateInfo { family, queues: priorities(&[0.5, 0.5]) })
                .collect(),
            ..Default::default()
        },
    )
    .unwrap();
    for (i, a) in queues.iter().enumerate() {
        for (j, b) in queues.iter().enumerate() {
            assert_eq!(**a == **b, i == j);
            assert_eq!(hash_of(&**a) == hash_of(&**b), i == j);
        }
    }
    assert!(families[0] == families[0] && families[0] != families[1]);
}

#[test]
fn physical_devices_and_families_are_found_by_their_places() {
    let instance = instance();
    assert!(PhysicalDevice::from_index(&instance, 1).is_none());
    let physical = PhysicalDevice::from_index(&instance, 0).unwrap();
    assert!(physical.queue_family_by_id(3).is_none());
    let family = physical.queue_family_by_id(2).unwrap();
    assert_eq!((family.id(), family.queues_count()), (2, 4));
    assert_eq!(family.physical_device().internal_object(), 0x22);
}
