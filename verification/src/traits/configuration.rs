use vstd::prelude::*;

verus! {

/// A configuration that accepts settings one at a time.
pub trait Configurable {
    /// The kind of setting this configuration accepts.
    type ConfigSetting;

    /// Apply one configuration setting.
    fn configure(&mut self, configuration_setting: Self::ConfigSetting);
}

} // verus!
