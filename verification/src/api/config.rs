//! Daemon configurations from sets of features.

use vstd::prelude::*;
use crate::daemon::runtime::DaemonConfig;

verus! {

/// An optional part of the daemon.
#[derive(Debug, Clone, Copy, PartialEq, Eq, PartialOrd, Ord, Hash, Structural)]
pub enum Feature {
    Preload,
    Usage,
    Pressure,
    AppIndex,
    Profile,
}

/// Whether `f` is among `features`.
pub fn has_feature(features: &Vec<Feature>, f: Feature) -> (r: bool)
    ensures
        r == features@.contains(f),
{
    let n = features.len();
    for i in 0..n
        invariant
            n == features@.len(),
            forall|j: int| 0 <= j < i ==> features@[j] != f,
    {
        if features[i] == f {
            assert(features@[i as int] == f);
            return true;
        }
    }
    false
}

/// The configuration that runs exactly the given features.
pub fn daemon_config_from_features(features: &Vec<Feature>) -> (c: DaemonConfig)
    ensures
        c == (DaemonConfig {
            preload: features@.contains(Feature::Preload),
            usage: features@.contains(Feature::Usage),
            pressure: features@.contains(Feature::Pressure),
            app_index: features@.contains(Feature::AppIndex),
            profile: features@.contains(Feature::Profile),
        }),
{
    DaemonConfig {
        preload: has_feature(features, Feature::Preload),
        usage: has_feature(features, Feature::Usage),
        pressure: has_feature(features, Feature::Pressure),
        app_index: has_feature(features, Feature::AppIndex),
        profile: has_feature(features, Feature::Profile),
    }
}

/// Every feature, in order.
pub fn all_features() -> (r: Vec<Feature>)
    ensures
        r@ == seq![Feature::Preload, Feature::Usage, Feature::Pressure, Feature::AppIndex, Feature::Profile],
{
    let mut v: Vec<Feature> = Vec::new();
    v.push(Feature::Preload);
    v.push(Feature::Usage);
    v.push(Feature::Pressure);
    v.push(Feature::AppIndex);
    v.push(Feature::Profile);
    assert(v@ =~= seq![Feature::Preload, Feature::Usage, Feature::Pressure, Feature::AppIndex, Feature::Profile]);
    v
}

/// The configuration of all features is the default one: everything on.
pub proof fn law_all_features_is_default()
    ensures
        ({
            let all = seq![Feature::Preload, Feature::Usage, Feature::Pressure, Feature::AppIndex, Feature::Profile];
            (DaemonConfig {
                preload: all.contains(Feature::Preload),
                usage: all.contains(Feature::Usage),
                pressure: all.contains(Feature::Pressure),
                app_index: all.contains(Feature::AppIndex),
                profile: all.contains(Feature::Profile),
            }) == (DaemonConfig { preload: true, usage: true, pressure: true, app_index: true, profile: true })
        }),
{
    let all = seq![Feature::Preload, Feature::Usage, Feature::Pressure, Feature::AppIndex, Feature::Profile];
    assert(all[0] == Feature::Preload && all[1] == Feature::Usage && all[2] == Feature::Pressure && all[3]
        == Feature::AppIndex && all[4] == Feature::Profile);
}

} // verus!
