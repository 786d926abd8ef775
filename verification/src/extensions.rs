//! Extensions of the instance and of the device.
use crate::names::NameSet;
use crate::version::Version;
use vstd::prelude::*;
use vstd::string::StringExecFns;

verus! {

/// The device extension that a device which supports it demands to be enabled.
pub const KHR_PORTABILITY_SUBSET: &'static str = "VK_KHR_portability_subset";

/// The device extension behind `Device::memory_fd_properties`.
pub const KHR_EXTERNAL_MEMORY_FD: &'static str = "VK_KHR_external_memory_fd";

/// The instance extension behind debug names and labels.
pub const EXT_DEBUG_UTILS: &'static str = "VK_EXT_debug_utils";

/// The instance extension by which the enabled features are handed over in the chain of
/// structures.
pub const KHR_GET_PHYSICAL_DEVICE_PROPERTIES2: &'static str =
    "VK_KHR_get_physical_device_properties2";

/// A set of extensions of an instance.
#[derive(Debug)]
pub struct InstanceExtensions {
    pub set: NameSet,
}

impl Clone for InstanceExtensions {
    fn clone(&self) -> (copy: Self)
        ensures
            copy@ == self@,
    {
        InstanceExtensions { set: self.set.clone() }
    }
}

impl View for InstanceExtensions {
    type V = Seq<&'static str>;

    open spec fn view(&self) -> Seq<&'static str> {
        self.set@
    }
}

impl InstanceExtensions {
    /// No extensions.
    pub fn none() -> (extensions: Self)
        ensures
            extensions@ == Seq::<&'static str>::empty(),
    {
        InstanceExtensions { set: NameSet::none() }
    }

    /// Whether the extension of that name is in the set.
    pub fn contains(&self, name: &str) -> (found: bool)
        ensures
            found == crate::names::listed(self@, name@),
    {
        self.set.contains(name)
    }

    /// Adds the extension of that name.
    pub fn enable(&mut self, name: &'static str)
        ensures
            final(self)@ == crate::names::with_name(old(self)@, name),
    {
        self.set.insert(name);
    }
}

/// A set of extensions of a device.
#[derive(Debug)]
pub struct DeviceExtensions {
    pub set: NameSet,
}

impl Clone for DeviceExtensions {
    fn clone(&self) -> (copy: Self)
        ensures
            copy@ == self@,
    {
        DeviceExtensions { set: self.set.clone() }
    }
}

impl View for DeviceExtensions {
    type V = Seq<&'static str>;

    open spec fn view(&self) -> Seq<&'static str> {
        self.set@
    }
}

/// What one of several things must hold for.
#[derive(Clone, Copy, Debug)]
pub struct OneOfRequirements {
    /// The Vulkan version from which on the requirement is met.
    pub api_version: Option<Version>,
    /// The device extensions of which any one meets the requirement.
    pub device_extensions: &'static [&'static str],
    /// The instance extensions of which any one meets the requirement.
    pub instance_extensions: &'static [&'static str],
}

/// Whether any name of `wanted` is in `present`.
pub open spec fn any_listed(wanted: Seq<&'static str>, present: Seq<&'static str>) -> bool {
    exists|i: int|
        0 <= i < wanted.len() && crate::names::listed(present, (#[trigger] wanted[i])@)
}

impl OneOfRequirements {
    /// Whether one of the things holds.
    pub open spec fn met(
        self,
        api_version: Version,
        device_extensions: Seq<&'static str>,
        instance_extensions: Seq<&'static str>,
    ) -> bool {
        ||| self.api_version matches Some(version) && version.le(api_version)
        ||| any_listed(self.device_extensions@, device_extensions)
        ||| any_listed(self.instance_extensions@, instance_extensions)
    }
}

/// A way in which a set of enabled extensions can be unacceptable.
#[derive(Clone, Copy, Debug)]
pub enum ExtensionRestriction {
    /// Not supported by the loader or physical device.
    NotSupported,
    /// Required to be enabled where the physical device supports it.
    RequiredIfSupported,
    /// Requires one of several things.
    Requires(OneOfRequirements),
    /// Requires the device extension of that name to be disabled.
    ConflictsDeviceExtension(&'static str),
}

/// A restriction of one extension that was not met.
#[derive(Clone, Copy, Debug)]
pub struct ExtensionRestrictionError {
    /// The extension in question.
    pub extension: &'static str,
    /// The restriction that was not met.
    pub restriction: ExtensionRestriction,
}

/// A restriction of one extension, and the Vulkan version from which on it applies.
#[derive(Clone, Copy, Debug)]
pub struct ExtensionRule {
    pub since: Version,
    pub error: ExtensionRestrictionError,
}

/// What the enabled device extensions are held against.
pub struct ExtensionContext {
    pub supported: Seq<&'static str>,
    pub api_version: Version,
    pub instance_extensions: Seq<&'static str>,
}

impl ExtensionRestrictionError {
    /// Whether the set `enabled` breaks the restriction.
    pub open spec fn broken_by(
        self,
        enabled: Seq<&'static str>,
        context: ExtensionContext,
    ) -> bool {
        let on = crate::names::listed(enabled, self.extension@);
        match self.restriction {
            ExtensionRestriction::NotSupported => {
                on && !crate::names::listed(context.supported, self.extension@)
            },
            ExtensionRestriction::RequiredIfSupported => {
                !on && crate::names::listed(context.supported, self.extension@)
            },
            ExtensionRestriction::Requires(one_of) => {
                on && !one_of.met(context.api_version, enabled, context.instance_extensions)
            },
            ExtensionRestriction::ConflictsDeviceExtension(other) => {
                on && crate::names::listed(enabled, other@)
            },
        }
    }
}

impl ExtensionRestriction {
    /// The restriction in words.
    pub open spec fn text(self) -> Seq<char> {
        match self {
            ExtensionRestriction::NotSupported => {
                "not supported by the loader or physical device"@
            },
            ExtensionRestriction::RequiredIfSupported => {
                "required to be enabled by the physical device"@
            },
            ExtensionRestriction::Requires(_) => {
                "requires a newer version of Vulkan or another extension to be enabled"@
            },
            ExtensionRestriction::ConflictsDeviceExtension(other) => {
                "requires device extension "@ + other@ + " to be disabled"@
            },
        }
    }

    /// The restriction in words.
    pub fn message(&self) -> (message: String)
        ensures
            message@ == self.text(),
    {
        match *self {
            ExtensionRestriction::NotSupported => {
                "not supported by the loader or physical device".to_owned()
            },
            ExtensionRestriction::RequiredIfSupported => {
                "required to be enabled by the physical device".to_owned()
            },
            ExtensionRestriction::Requires(_) => {
                "requires a newer version of Vulkan or another extension to be enabled".to_owned()
            },
            ExtensionRestriction::ConflictsDeviceExtension(other) => {
                "requires device extension ".to_owned().concat(other).concat(" to be disabled")
            },
        }
    }
}

impl ExtensionRestrictionError {
    /// The error in words.
    pub open spec fn text(self) -> Seq<char> {
        "a restriction for the extension "@ + self.extension@ + " was not met: "@
            + self.restriction.text()
    }

    /// The error in words.
    pub fn message(&self) -> (message: String)
        ensures
            message@ == self.text(),
    {
        let restriction = self.restriction.message();
        "a restriction for the extension ".to_owned().concat(self.extension).concat(
            " was not met: ",
        ).concat(restriction.as_str())
    }
}

/// The first of `rules` that applies and that the set `enabled` breaks.
pub open spec fn first_broken_extension_rule(
    rules: Seq<ExtensionRule>,
    enabled: Seq<&'static str>,
    context: ExtensionContext,
) -> Option<ExtensionRestrictionError>
    decreases rules.len(),
{
    if rules.len() == 0 {
        None
    } else if rules[0].since.le(context.api_version) && rules[0].error.broken_by(
        enabled,
        context,
    ) {
        Some(rules[0].error)
    } else {
        first_broken_extension_rule(rules.drop_first(), enabled, context)
    }
}

/// The first name of `enabled` that is not supported, as an error.
pub open spec fn first_unsupported_extension(
    enabled: Seq<&'static str>,
    supported: Seq<&'static str>,
) -> Option<ExtensionRestrictionError>
    decreases enabled.len(),
{
    if enabled.len() == 0 {
        None
    } else if !crate::names::listed(supported, enabled[0]@) {
        Some(
            ExtensionRestrictionError {
                extension: enabled[0],
                restriction: ExtensionRestriction::NotSupported,
            },
        )
    } else {
        first_unsupported_extension(enabled.drop_first(), supported)
    }
}

/// What is wrong with the set `enabled`: an extension that is not supported comes before a broken
/// rule.
pub open spec fn extension_fault(
    enabled: Seq<&'static str>,
    context: ExtensionContext,
    rules: Seq<ExtensionRule>,
) -> Option<ExtensionRestrictionError> {
    match first_unsupported_extension(enabled, context.supported) {
        Some(error) => Some(error),
        None => first_broken_extension_rule(rules, enabled, context),
    }
}

/// Whether any name of `wanted` is in `present`.
fn any_of(wanted: &[&'static str], present: &NameSet) -> (any: bool)
    ensures
        any == any_listed(wanted@, present@),
{
    let mut i: usize = 0;
    while i < wanted.len()
        invariant
            i <= wanted.len(),
            forall|j: int|
                0 <= j < i ==> !crate::names::listed(present@, (#[trigger] wanted@[j])@),
        decreases wanted.len() - i,
    {
        if present.contains(wanted[i]) {
            assert(crate::names::listed(present@, wanted@[i as int]@));
            return true;
        }
        i += 1;
    }
    false
}

impl DeviceExtensions {
    /// No extensions.
    pub fn none() -> (extensions: Self)
        ensures
            extensions@ == Seq::<&'static str>::empty(),
    {
        DeviceExtensions { set: NameSet::none() }
    }

    /// Whether the extension of that name is in the set.
    pub fn contains(&self, name: &str) -> (found: bool)
        ensures
            found == crate::names::listed(self@, name@),
    {
        self.set.contains(name)
    }

    /// Adds the extension of that name.
    pub fn enable(&mut self, name: &'static str)
        ensures
            final(self)@ == crate::names::with_name(old(self)@, name),
    {
        self.set.insert(name);
    }

    /// The names of the extensions, each once.
    pub fn names(&self) -> (names: &Vec<&'static str>)
        ensures
            names@ == self@,
            crate::names::distinct(names@),
    {
        self.set.names()
    }

    /// Whether the set breaks the restriction.
    fn breaks(
        &self,
        error: &ExtensionRestrictionError,
        supported: &DeviceExtensions,
        api_version: Version,
        instance_extensions: &InstanceExtensions,
    ) -> (broken: bool)
        ensures
            broken == error.broken_by(
                self@,
                (ExtensionContext {
                    supported: supported@,
                    api_version,
                    instance_extensions: instance_extensions@,
                }),
            ),
    {
        let on = self.contains(error.extension);
        match error.restriction {
            ExtensionRestriction::NotSupported => on && !supported.contains(error.extension),
            ExtensionRestriction::RequiredIfSupported => {
                !on && supported.contains(error.extension)
            },
            ExtensionRestriction::Requires(one_of) => {
                let new_enough = match one_of.api_version {
                    Some(version) => version.at_most(&api_version),
                    None => false,
                };
                on && !(new_enough || any_of(one_of.device_extensions, &self.set) || any_of(
                    one_of.instance_extensions,
                    &instance_extensions.set,
                ))
            },
            ExtensionRestriction::ConflictsDeviceExtension(other) => on && self.contains(other),
        }
    }

    /// Checks that the extensions in the set are supported and that none of the rules is broken.
    pub fn check_requirements(
        &self,
        supported: &DeviceExtensions,
        api_version: Version,
        instance_extensions: &InstanceExtensions,
        rules: &Vec<ExtensionRule>,
    ) -> (checked: Result<(), ExtensionRestrictionError>)
        ensures
            checked == match extension_fault(
                self@,
                (ExtensionContext {
                    supported: supported@,
                    api_version,
                    instance_extensions: instance_extensions@,
                }),
                rules@,
            ) {
                Some(error) => Err::<(), ExtensionRestrictionError>(error),
                None => Ok(()),
            },
    {
        let ghost context = ExtensionContext {
            supported: supported@,
            api_version,
            instance_extensions: instance_extensions@,
        };
        let names = self.names();
        let mut i: usize = 0;
        assert(self@.skip(0) =~= self@);
        while i < names.len()
            invariant
                i <= names.len(),
                names@ == self@,
                context.supported == supported@,
                first_unsupported_extension(self@, context.supported)
                    == first_unsupported_extension(self@.skip(i as int), context.supported),
            decreases names.len() - i,
        {
            if !supported.contains(names[i]) {
                return Err(
                    ExtensionRestrictionError {
                        extension: names[i],
                        restriction: ExtensionRestriction::NotSupported,
                    },
                );
            }
            assert(self@.skip(i as int).drop_first() =~= self@.skip(i + 1));
            i += 1;
        }
        let mut k: usize = 0;
        assert(rules@.skip(0) =~= rules@);
        while k < rules.len()
            invariant
                k <= rules.len(),
                context == (ExtensionContext {
                    supported: supported@,
                    api_version,
                    instance_extensions: instance_extensions@,
                }),
                first_broken_extension_rule(rules@, self@, context)
                    == first_broken_extension_rule(rules@.skip(k as int), self@, context),
                first_unsupported_extension(self@, context.supported) is None,
            decreases rules.len() - k,
        {
            if rules[k].since.at_most(&api_version) && self.breaks(
                &rules[k].error,
                supported,
                api_version,
                instance_extensions,
            ) {
                return Err(rules[k].error);
            }
            assert(rules@.skip(k as int).drop_first() =~= rules@.skip(k + 1));
            k += 1;
        }
        Ok(())
    }
}

} // verus!
