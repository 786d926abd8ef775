//! Features of the device.
use crate::extensions::DeviceExtensions;
use crate::names::NameSet;
use crate::version::Version;
use vstd::prelude::*;
use vstd::string::StringExecFns;

verus! {

/// The feature that is enabled on every device.
pub const ROBUST_BUFFER_ACCESS: &'static str = "robust_buffer_access";

/// A set of features of a device.
#[derive(Debug)]
pub struct Features {
    pub set: NameSet,
}

impl View for Features {
    type V = Seq<&'static str>;

    open spec fn view(&self) -> Seq<&'static str> {
        self.set@
    }
}

impl Clone for Features {
    fn clone(&self) -> (copy: Self)
        ensures
            copy@ == self@,
    {
        Features { set: self.set.clone() }
    }
}

/// A way in which a set of enabled features can be unacceptable.
#[derive(Clone, Copy, Debug)]
pub enum FeatureRestriction {
    /// Not supported by the physical device.
    NotSupported,
    /// Requires the feature of that name to be enabled.
    RequiresFeature(&'static str),
    /// Requires the feature of that name to be disabled.
    ConflictsFeature(&'static str),
    /// The device extension of that name requires the feature to be enabled.
    RequiredByExtension(&'static str),
}

/// A restriction of one feature that was not met.
#[derive(Clone, Copy, Debug)]
pub struct FeatureRestrictionError {
    /// The feature in question.
    pub feature: &'static str,
    /// The restriction that was not met.
    pub restriction: FeatureRestriction,
}

/// A restriction of one feature, and the Vulkan version from which on it applies.
#[derive(Clone, Copy, Debug)]
pub struct FeatureRule {
    pub since: Version,
    pub error: FeatureRestrictionError,
}

/// What the enabled features are held against.
pub struct FeatureContext {
    pub supported: Seq<&'static str>,
    pub api_version: Version,
    pub device_extensions: Seq<&'static str>,
}

impl FeatureRestrictionError {
    /// Whether the set `enabled` breaks the restriction.
    pub open spec fn broken_by(
        self,
        enabled: Seq<&'static str>,
        supported: Seq<&'static str>,
        device_extensions: Seq<&'static str>,
    ) -> bool {
        let on = crate::names::listed(enabled, self.feature@);
        match self.restriction {
            FeatureRestriction::NotSupported => {
                on && !crate::names::listed(supported, self.feature@)
            },
            FeatureRestriction::RequiresFeature(other) => {
                on && !crate::names::listed(enabled, other@)
            },
            FeatureRestriction::ConflictsFeature(other) => {
                on && crate::names::listed(enabled, other@)
            },
            FeatureRestriction::RequiredByExtension(extension) => {
                !on && crate::names::listed(device_extensions, extension@)
            },
        }
    }
}

impl FeatureRestriction {
    /// The restriction in words.
    pub open spec fn text(self) -> Seq<char> {
        match self {
            FeatureRestriction::NotSupported => "not supported by the physical device"@,
            FeatureRestriction::RequiresFeature(other) => {
                "requires feature "@ + other@ + " to be enabled"@
            },
            FeatureRestriction::ConflictsFeature(other) => {
                "requires feature "@ + other@ + " to be disabled"@
            },
            FeatureRestriction::RequiredByExtension(extension) => {
                "required to be enabled by extension "@ + extension@
            },
        }
    }

    /// The restriction in words.
    pub fn message(&self) -> (message: String)
        ensures
            message@ == self.text(),
    {
        match *self {
            FeatureRestriction::NotSupported => "not supported by the physical device".to_owned(),
            FeatureRestriction::RequiresFeature(other) => {
                "requires feature ".to_owned().concat(other).concat(" to be enabled")
            },
            FeatureRestriction::ConflictsFeature(other) => {
                "requires feature ".to_owned().concat(other).concat(" to be disabled")
            },
            FeatureRestriction::RequiredByExtension(extension) => {
                "required to be enabled by extension ".to_owned().concat(extension)
            },
        }
    }
}

impl FeatureRestrictionError {
    /// The error in words.
    pub open spec fn text(self) -> Seq<char> {
        "a restriction for the feature "@ + self.feature@ + " was not met: "@
            + self.restriction.text()
    }

    /// The error in words.
    pub fn message(&self) -> (message: String)
        ensures
            message@ == self.text(),
    {
        let restriction = self.restriction.message();
        "a restriction for the feature ".to_owned().concat(self.feature).concat(
            " was not met: ",
        ).concat(restriction.as_str())
    }
}

/// The first of `rules` that applies and that the set `enabled` breaks.
pub open spec fn first_broken_feature_rule(
    rules: Seq<FeatureRule>,
    enabled: Seq<&'static str>,
    context: FeatureContext,
) -> Option<FeatureRestrictionError>
    decreases rules.len(),
{
    if rules.len() == 0 {
        None
    } else if rules[0].since.le(context.api_version) && rules[0].error.broken_by(
        enabled,
        context.supported,
        context.device_extensions,
    ) {
        Some(rules[0].error)
    } else {
        first_broken_feature_rule(rules.drop_first(), enabled, context)
    }
}

/// The first name of `enabled` that is not supported, as an error.
pub open spec fn first_unsupported_feature(
    enabled: Seq<&'static str>,
    supported: Seq<&'static str>,
) -> Option<FeatureRestrictionError>
    decreases enabled.len(),
{
    if enabled.len() == 0 {
        None
    } else if !crate::names::listed(supported, enabled[0]@) {
        Some(
            FeatureRestrictionError {
                feature: enabled[0],
                restriction: FeatureRestriction::NotSupported,
            },
        )
    } else {
        first_unsupported_feature(enabled.drop_first(), supported)
    }
}

/// What is wrong with the set `enabled`: a feature that is not supported comes before a broken
/// rule.
pub open spec fn feature_fault(
    enabled: Seq<&'static str>,
    context: FeatureContext,
    rules: Seq<FeatureRule>,
) -> Option<FeatureRestrictionError> {
    match first_unsupported_feature(enabled, context.supported) {
        Some(error) => Some(error),
        None => first_broken_feature_rule(rules, enabled, context),
    }
}

/// The set of the names in `list`, each at the place where it first occurs.
pub open spec fn set_of(list: Seq<&'static str>) -> Seq<&'static str>
    decreases list.len(),
{
    if list.len() == 0 {
        Seq::empty()
    } else {
        crate::names::with_name(set_of(list.drop_last()), list.last())
    }
}

impl Features {
    /// No features.
    pub fn none() -> (features: Self)
        ensures
            features@ == Seq::<&'static str>::empty(),
    {
        Features { set: NameSet::none() }
    }

    /// All features of the list `known`.
    pub fn all(known: &Vec<&'static str>) -> (features: Self)
        ensures
            features@ == set_of(known@),
    {
        let mut set = NameSet::none();
        let mut i: usize = 0;
        while i < known.len()
            invariant
                i <= known.len(),
                set@ == set_of(known@.take(i as int)),
            decreases known.len() - i,
        {
            assert(known@.take(i + 1).drop_last() =~= known@.take(i as int));
            set.insert(known[i]);
            i += 1;
        }
        assert(known@.take(i as int) =~= known@);
        Features { set }
    }

    /// Whether the feature of that name is in the set.
    pub fn contains(&self, name: &str) -> (found: bool)
        ensures
            found == crate::names::listed(self@, name@),
    {
        self.set.contains(name)
    }

    /// Adds the feature of that name.
    pub fn enable(&mut self, name: &'static str)
        ensures
            final(self)@ == crate::names::with_name(old(self)@, name),
    {
        self.set.insert(name);
    }

    /// The names of the features, each once.
    pub fn names(&self) -> (names: &Vec<&'static str>)
        ensures
            names@ == self@,
            crate::names::distinct(names@),
    {
        self.set.names()
    }

    /// Whether every feature of `other` is in this set too.
    pub fn is_superset_of(&self, other: &Features) -> (superset: bool)
        ensures
            superset == crate::names::all_in(other@, self@),
    {
        self.set.is_superset_of(&other.set)
    }

    /// Whether the set breaks the restriction.
    fn breaks(
        &self,
        error: &FeatureRestrictionError,
        supported: &Features,
        device_extensions: &DeviceExtensions,
    ) -> (broken: bool)
        ensures
            broken == error.broken_by(self@, supported@, device_extensions@),
    {
        let on = self.contains(error.feature);
        match error.restriction {
            FeatureRestriction::NotSupported => on && !supported.contains(error.feature),
            FeatureRestriction::RequiresFeature(other) => on && !self.contains(other),
            FeatureRestriction::ConflictsFeature(other) => on && self.contains(other),
            FeatureRestriction::RequiredByExtension(extension) => {
                !on && device_extensions.contains(extension)
            },
        }
    }

    /// Checks that the features in the set are supported and that none of the rules is broken.
    pub fn check_requirements(
        &self,
        supported: &Features,
        api_version: Version,
        device_extensions: &DeviceExtensions,
        rules: &Vec<FeatureRule>,
    ) -> (checked: Result<(), FeatureRestrictionError>)
        ensures
            checked == match feature_fault(
                self@,
                (FeatureContext {
                    supported: supported@,
                    api_version,
                    device_extensions: device_extensions@,
                }),
                rules@,
            ) {
                Some(error) => Err::<(), FeatureRestrictionError>(error),
                None => Ok(()),
            },
    {
        let ghost context = FeatureContext {
            supported: supported@,
            api_version,
            device_extensions: device_extensions@,
        };
        let names = self.names();
        let mut i: usize = 0;
        assert(self@.skip(0) =~= self@);
        while i < names.len()
            invariant
                i <= names.len(),
                names@ == self@,
                context.supported == supported@,
                first_unsupported_feature(self@, context.supported) == first_unsupported_feature(
                    self@.skip(i as int),
                    context.supported,
                ),
            decreases names.len() - i,
        {
            if !supported.contains(names[i]) {
                return Err(
                    FeatureRestrictionError {
                        feature: names[i],
                        restriction: FeatureRestriction::NotSupported,
                    },
                );
            }
            assert(self@.skip(i as int).drop_first() =~= self@.skip(i + 1));
            i += 1;
        }
        let mut k: usize = 0;
        assert(rules@.skip(0) =~= rules@);
        while k < rules.len()
            invariant
                k <= rules.len(),
                context == (FeatureContext {
                    supported: supported@,
                    api_version,
                    device_extensions: device_extensions@,
                }),
                first_broken_feature_rule(rules@, self@, context) == first_broken_feature_rule(
                    rules@.skip(k as int),
                    self@,
                    context,
                ),
                first_unsupported_feature(self@, context.supported) is None,
            decreases rules.len() - k,
        {
            if rules[k].since.at_most(&api_version) && self.breaks(
                &rules[k].error,
                supported,
                device_extensions,
            ) {
                return Err(rules[k].error);
            }
            assert(rules@.skip(k as int).drop_first() =~= rules@.skip(k + 1));
            k += 1;
        }
        Ok(())
    }
}

} // verus!
