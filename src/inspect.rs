//! What the runtime reports when a container is inspected.
use vstd::prelude::*;

verus! {

/// The inspected container.
#[derive(Clone, Debug)]
pub struct ContainerInspect {
    pub name: String,
    pub id: String,
    pub config: ContainerConfig,
    pub state: ContainerState,
    pub network_settings: ContainerNetworkSettings,
}

/// The container's configuration.
#[derive(Clone, Debug)]
pub struct ContainerConfig {
    pub hostname: String,
    pub labels: Vec<(String, String)>,
}

/// The container's run state.
#[derive(Clone, Copy, Debug)]
pub struct ContainerState {
    pub running: bool,
}

/// The networks that the container is attached to, by network name.
#[derive(Clone, Debug)]
pub struct ContainerNetworkSettings {
    pub networks: Vec<(String, ContainerNetwork)>,
}

/// The container's place in one network.
#[derive(Clone, Debug)]
pub struct ContainerNetwork {
    pub ip_address: String,
}

impl ContainerInspect {
    /// The address text of each network, in order.
    pub fn ip_addresses(&self) -> (r: Vec<String>)
        ensures
            r@.len() == self.network_settings.networks@.len(),
            forall|i: int|
                0 <= i < r@.len() ==> (#[trigger] r@[i])@
                    == self.network_settings.networks@[i].1.ip_address@,
    {
        let networks = &self.network_settings.networks;
        let mut r: Vec<String> = Vec::new();
        let mut i: usize = 0;
        while i < networks.len()
            invariant
                i <= networks@.len(),
                networks == &self.network_settings.networks,
                r@.len() == i,
                forall|k: int| 0 <= k < i ==> (#[trigger] r@[k])@ == networks@[k].1.ip_address@,
            decreases networks@.len() - i,
        {
            r.push(networks[i].1.ip_address.clone());
            i = i + 1;
        }
        r
    }
}

} // verus!
