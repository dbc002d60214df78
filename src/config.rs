//! What is saved between runs: the devices whose spectrum is shown, by name.
use vstd::prelude::*;
use crate::graph::DeviceInfo;
use crate::types::DeviceId;

verus! {

/// Spectrum display settings.
#[derive(Debug)]
pub struct VisualizationConfig {
    /// Names of the devices to visualize; matched by name on restore.
    pub enabled_devices: Vec<String>,
}

/// The saved configuration.
#[derive(Debug)]
pub struct Config {
    pub visualization: VisualizationConfig,
}

/// The names of the devices of `devs`, in order, whose identifier is among `ids`.
pub open spec fn visualized_names(devs: Seq<DeviceInfo>, ids: Seq<DeviceId>) -> Seq<Seq<char>>
    decreases devs.len(),
{
    if devs.len() == 0 {
        Seq::empty()
    } else {
        let rest = visualized_names(devs.drop_last(), ids);
        if ids.contains(devs.last().id) {
            rest.push(devs.last().name@)
        } else {
            rest
        }
    }
}

impl Default for Config {
    fn default() -> (r: Self)
        ensures
            r.visualization.enabled_devices@.len() == 0,
    {
        Config { visualization: VisualizationConfig { enabled_devices: Vec::new() } }
    }
}

impl Config {
    /// The configuration that shows the devices of `all_devices` whose identifier is
    /// among `visualized_ids`.
    pub fn from_visualized_devices(visualized_ids: &[DeviceId], all_devices: &[DeviceInfo]) -> (r: Self)
        ensures
            r.visualization.enabled_devices@.map_values(|s: String| s@) == visualized_names(
                all_devices@,
                visualized_ids@,
            ),
    {
        let mut names: Vec<String> = Vec::new();
        let mut i: usize = 0;
        while i < all_devices.len()
            invariant
                i <= all_devices@.len(),
                names@.map_values(|s: String| s@) == visualized_names(all_devices@.subrange(0, i as int), visualized_ids@),
            decreases all_devices.len() - i,
        {
            let d = &all_devices[i];
            let mut found = false;
            let mut j: usize = 0;
            while j < visualized_ids.len()
                invariant
                    j <= visualized_ids@.len(),
                    found == (exists|k: int| 0 <= k < j && visualized_ids@[k] == d.id),
                decreases visualized_ids.len() - j,
            {
                if visualized_ids[j] == d.id {
                    found = true;
                }
                j = j + 1;
            }
            proof {
                assert(all_devices@.subrange(0, i + 1).drop_last() =~= all_devices@.subrange(0, i as int));
                assert(all_devices@.subrange(0, i + 1).last() == *d);
                if visualized_ids@.contains(d.id) {
                    let k = choose|k: int| 0 <= k < visualized_ids@.len() && visualized_ids@[k] == d.id;
                    assert(found);
                }
            }
            if found {
                let ghost prev = names@;
                names.push(d.name.clone());
                proof {
                    assert(names@.map_values(|s: String| s@) =~= prev.map_values(|s: String| s@).push(d.name@));
                }
            }
            i = i + 1;
        }
        proof {
            assert(all_devices@.subrange(0, all_devices@.len() as int) =~= all_devices@);
        }
        Config { visualization: VisualizationConfig { enabled_devices: names } }
    }
}

} // verus!
