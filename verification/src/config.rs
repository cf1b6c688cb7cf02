//! Settings of the installation and of its network.

use vstd::prelude::*;
use crate::text::{decimal, decimal_string, path_join, path_join_spec, str_eq};

verus! {

/// The settings of an installation.
#[derive(Clone, Debug)]
pub struct Config {
    pub home: String,
    pub kernel: String,
    pub firecracker: String,
    pub ssh_key: String,
    pub zfs_pool: String,
    pub vcpu: u32,
    pub mem: u32,
    pub network: NetworkConfig,
}

/// The settings of the VM network.
#[derive(Clone, Debug)]
pub struct NetworkConfig {
    pub bridge: String,
    pub subnet: String,
    pub outbound_if: Option<String>,
}

/// The home of an installation where none is set.
pub const DEFAULT_VUME_HOME: &'static str = "/opt/vume";

/// The number of virtual CPUs where none is set.
pub const DEFAULT_VCPU: u32 = 2;

/// The memory of a VM in MiB where none is set.
pub const DEFAULT_MEM: u32 = 1024;

/// The ZFS pool where none is set.
pub const DEFAULT_ZFS_POOL: &'static str = "vume";

/// The bridge device where none is set.
pub const DEFAULT_BRIDGE: &'static str = "br0";

/// The first three parts of the VM network's addresses where none is set.
pub const DEFAULT_SUBNET: &'static str = "172.16.0";

/// The settings as the configuration file gives them; each may be missing.
#[derive(Clone, Debug)]
pub struct RawConfig {
    pub kernel: Option<String>,
    pub firecracker: Option<String>,
    pub ssh_key: Option<String>,
    pub zfs_pool: Option<String>,
    pub vcpu: Option<u32>,
    pub mem: Option<u32>,
    pub network: Option<RawNetworkConfig>,
}

/// The network settings as the configuration file gives them.
#[derive(Clone, Debug, Default)]
pub struct RawNetworkConfig {
    pub bridge: Option<String>,
    pub subnet: Option<String>,
    pub outbound_if: Option<String>,
}

/// The text of a setting, or the fallback where it is missing.
pub open spec fn or_default(o: Option<String>, fallback: Seq<char>) -> Seq<char> {
    match o {
        Some(v) => v@,
        None => fallback,
    }
}

/// The content of an optional string.
pub open spec fn opt_text(o: Option<String>) -> Option<Seq<char>> {
    match o {
        Some(v) => Some(v@),
        None => None,
    }
}

fn string_or(o: Option<String>, fallback: String) -> (res: String)
    ensures
        res@ == or_default(o, fallback@),
{
    match o {
        Some(v) => v,
        None => fallback,
    }
}

/// The installation home: the value of the `VUME_HOME` variable if it is
/// set, otherwise `/opt/vume`.
pub fn vume_home(env_value: Option<&str>) -> (res: String)
    ensures
        res@ == (match env_value {
            Some(v) => v@,
            None => DEFAULT_VUME_HOME@,
        }),
{
    match env_value {
        Some(v) => v.to_owned(),
        None => DEFAULT_VUME_HOME.to_owned(),
    }
}

/// The configuration file of the installation.
pub fn config_path(home: &str) -> (res: String)
    ensures
        res@ == path_join_spec(home@, "vume.toml"@),
{
    path_join(home, "vume.toml")
}

impl Config {
    /// The settings of the installation at `home`: those that the
    /// configuration file gives, and the defaults for the others (the
    /// kernel, the Firecracker binary and the SSH key under the home).
    pub fn load(home: String, raw: RawConfig) -> (res: Config)
        ensures
            res.home@ == home@,
            res.kernel@ == or_default(raw.kernel, path_join_spec(home@, "vmlinux"@)),
            res.firecracker@ == or_default(raw.firecracker, path_join_spec(home@, "firecracker"@)),
            res.ssh_key@ == or_default(raw.ssh_key, path_join_spec(home@, "vume_key"@)),
            res.zfs_pool@ == or_default(raw.zfs_pool, DEFAULT_ZFS_POOL@),
            res.vcpu == (match raw.vcpu {
                Some(v) => v,
                None => DEFAULT_VCPU,
            }),
            res.mem == (match raw.mem {
                Some(v) => v,
                None => DEFAULT_MEM,
            }),
            res.network.bridge@ == (match raw.network {
                Some(n) => or_default(n.bridge, DEFAULT_BRIDGE@),
                None => DEFAULT_BRIDGE@,
            }),
            res.network.subnet@ == (match raw.network {
                Some(n) => or_default(n.subnet, DEFAULT_SUBNET@),
                None => DEFAULT_SUBNET@,
            }),
            opt_text(res.network.outbound_if) == (match raw.network {
                Some(n) => opt_text(n.outbound_if),
                None => None,
            }),
    {
        let kernel = string_or(raw.kernel, path_join(home.as_str(), "vmlinux"));
        let firecracker = string_or(raw.firecracker, path_join(home.as_str(), "firecracker"));
        let ssh_key = string_or(raw.ssh_key, path_join(home.as_str(), "vume_key"));
        let zfs_pool = string_or(raw.zfs_pool, DEFAULT_ZFS_POOL.to_owned());
        let vcpu = match raw.vcpu {
            Some(v) => v,
            None => DEFAULT_VCPU,
        };
        let mem = match raw.mem {
            Some(v) => v,
            None => DEFAULT_MEM,
        };
        let network = match raw.network {
            Some(n) => NetworkConfig {
                bridge: string_or(n.bridge, DEFAULT_BRIDGE.to_owned()),
                subnet: string_or(n.subnet, DEFAULT_SUBNET.to_owned()),
                outbound_if: n.outbound_if,
            },
            None => NetworkConfig {
                bridge: DEFAULT_BRIDGE.to_owned(),
                subnet: DEFAULT_SUBNET.to_owned(),
                outbound_if: None,
            },
        };
        Config { home, kernel, firecracker, ssh_key, zfs_pool, vcpu, mem, network }
    }

    /// The file that holds the registry.
    pub fn db_path(&self) -> (res: String)
        ensures
            res@ == path_join_spec(self.home@, "vume.db"@),
    {
        path_join(self.home.as_str(), "vume.db")
    }

    /// The block device of the VM's root filesystem.
    pub fn zvol_path(&self, vm_id: &str) -> (res: String)
        ensures
            res@ == "/dev/zvol/"@ + self.zfs_pool@ + "/"@ + vm_id@,
    {
        let mut res = "/dev/zvol/".to_owned();
        res.append(self.zfs_pool.as_str());
        res.append("/");
        res.append(vm_id);
        res
    }

    /// A dataset of the pool.
    pub fn zfs_dataset(&self, name: &str) -> (res: String)
        ensures
            res@ == self.zfs_pool@ + "/"@ + name@,
    {
        let mut res = self.zfs_pool.clone();
        res.append("/");
        res.append(name);
        res
    }

    /// The value of a setting by its key, as `config get` prints it (an
    /// unset outbound interface as the empty text); `None` for an unknown
    /// key.
    pub fn value_of(&self, key: &str) -> (res: Option<String>)
        ensures
            res matches Some(v) ==> (key@ == "home"@ && v@ == self.home@) || (key@ == "kernel"@
                && v@ == self.kernel@) || (key@ == "firecracker"@ && v@ == self.firecracker@) || (
            key@ == "ssh_key"@ && v@ == self.ssh_key@) || (key@ == "zfs_pool"@ && v@
                == self.zfs_pool@) || (key@ == "vcpu"@ && v@ == decimal(self.vcpu as nat)) || (key@
                == "mem"@ && v@ == decimal(self.mem as nat)) || (key@ == "network.bridge"@ && v@
                == self.network.bridge@) || (key@ == "network.subnet"@ && v@
                == self.network.subnet@) || (key@ == "network.outbound_if"@ && v@ == or_default(
                self.network.outbound_if,
                Seq::empty(),
            )),
            res is None <==> !config_key(key@),
    {
        if str_eq(key, "home") {
            Some(self.home.clone())
        } else if str_eq(key, "kernel") {
            Some(self.kernel.clone())
        } else if str_eq(key, "firecracker") {
            Some(self.firecracker.clone())
        } else if str_eq(key, "ssh_key") {
            Some(self.ssh_key.clone())
        } else if str_eq(key, "zfs_pool") {
            Some(self.zfs_pool.clone())
        } else if str_eq(key, "vcpu") {
            Some(decimal_string(self.vcpu as u64))
        } else if str_eq(key, "mem") {
            Some(decimal_string(self.mem as u64))
        } else if str_eq(key, "network.bridge") {
            Some(self.network.bridge.clone())
        } else if str_eq(key, "network.subnet") {
            Some(self.network.subnet.clone())
        } else if str_eq(key, "network.outbound_if") {
            match &self.network.outbound_if {
                Some(o) => Some(o.clone()),
                None => Some(String::new()),
            }
        } else {
            None
        }
    }
}

/// The keys that `config get` knows.
pub open spec fn config_key(key: Seq<char>) -> bool {
    key == "home"@ || key == "kernel"@ || key == "firecracker"@ || key == "ssh_key"@ || key
        == "zfs_pool"@ || key == "vcpu"@ || key == "mem"@ || key == "network.bridge"@ || key
        == "network.subnet"@ || key == "network.outbound_if"@
}

impl NetworkConfig {
    /// The address of the bridge: host 1 of the subnet.
    pub fn bridge_ip(&self) -> (res: String)
        ensures
            res@ == self.subnet@ + ".1"@,
    {
        let mut res = self.subnet.clone();
        res.append(".1");
        res
    }

    /// The subnet in CIDR notation.
    pub fn bridge_cidr(&self) -> (res: String)
        ensures
            res@ == self.subnet@ + ".0/24"@,
    {
        let mut res = self.subnet.clone();
        res.append(".0/24");
        res
    }

    /// The first address of the pool (hosts 2 to 254 of the subnet) that
    /// `used` does not hold, or `None` if it holds them all.
    pub fn allocate_ip(&self, used: &Vec<String>) -> (res: Option<String>)
        ensures
            match res {
                Some(ip) => allocate_spec(self.subnet@, string_set(used@)) == Some(ip@),
                None => allocate_spec(self.subnet@, string_set(used@)) is None,
            },
    {
        first_free_ip(self.subnet.as_str(), used)
    }
}

impl Config {
    /// The directory that holds one directory per VM.
    pub fn vms_dir(&self) -> (res: String)
        ensures
            res@ == path_join_spec(self.home@, "vms"@),
    {
        path_join(self.home.as_str(), "vms")
    }
}

/// The first number of the address pool.
pub const IP_RANGE_START: u64 = 2;

/// The last number of the address pool.
pub const IP_RANGE_END: u64 = 254;

/// The address with host number `i` in `subnet`.
pub open spec fn ip_candidate(subnet: Seq<char>, i: nat) -> Seq<char> {
    subnet + seq!['.'] + decimal(i)
}

/// The least host number, from `i` up to the end of the pool, whose address
/// is not in `used`.
pub open spec fn first_free_from(subnet: Seq<char>, used: Set<Seq<char>>, i: nat) -> Option<nat>
    decreases IP_RANGE_END + 1 - i,
{
    if i > IP_RANGE_END {
        None
    } else if !used.contains(ip_candidate(subnet, i)) {
        Some(i)
    } else {
        first_free_from(subnet, used, i + 1)
    }
}

/// The first address of the pool in `subnet` that is not in `used`.
pub open spec fn allocate_spec(subnet: Seq<char>, used: Set<Seq<char>>) -> Option<Seq<char>> {
    match first_free_from(subnet, used, IP_RANGE_START as nat) {
        Some(i) => Some(ip_candidate(subnet, i)),
        None => None,
    }
}

/// The address that the allocation picks is the lowest of the pool that
/// `used` does not hold, and the allocation fails only when `used` holds
/// every address of the pool.
pub proof fn lemma_allocation_is_free(subnet: Seq<char>, used: Set<Seq<char>>)
    ensures
        allocate_spec(subnet, used) matches Some(ip) ==> !used.contains(ip) && exists|i: nat|
            IP_RANGE_START <= i <= IP_RANGE_END && ip == #[trigger] ip_candidate(subnet, i)
                && forall|j: nat|
                IP_RANGE_START <= j < i ==> used.contains(#[trigger] ip_candidate(subnet, j)),
        allocate_spec(subnet, used) is None ==> forall|j: nat|
            IP_RANGE_START <= j <= IP_RANGE_END ==> used.contains(#[trigger] ip_candidate(subnet, j)),
{
    lemma_first_free_from(subnet, used, IP_RANGE_START as nat);
}

proof fn lemma_first_free_from(subnet: Seq<char>, used: Set<Seq<char>>, i: nat)
    requires
        IP_RANGE_START <= i,
    ensures
        first_free_from(subnet, used, i) matches Some(j) ==> i <= j <= IP_RANGE_END
            && !used.contains(ip_candidate(subnet, j)) && forall|k: nat|
            i <= k < j ==> used.contains(#[trigger] ip_candidate(subnet, k)),
        first_free_from(subnet, used, i) is None ==> forall|k: nat|
            i <= k <= IP_RANGE_END ==> used.contains(#[trigger] ip_candidate(subnet, k)),
    decreases IP_RANGE_END + 1 - i,
{
    if i <= IP_RANGE_END && used.contains(ip_candidate(subnet, i)) {
        lemma_first_free_from(subnet, used, i + 1);
        assert forall|k: nat| i <= k < i + 1 implies used.contains(#[trigger] ip_candidate(subnet, k)) by {
            assert(k == i);
        }
    }
}

/// The set of the texts held in `v`.
pub open spec fn string_set(v: Seq<String>) -> Set<Seq<char>> {
    Set::new(|s: Seq<char>| exists|k: int| 0 <= k < v.len() && v[k]@ == s)
}

/// Whether `v` holds a string with the characters of `s`.
pub fn contains_string(v: &Vec<String>, s: &str) -> (res: bool)
    ensures
        res == string_set(v@).contains(s@),
{
    let mut k: usize = 0;
    while k < v.len()
        invariant
            k <= v.len(),
            forall|j: int| 0 <= j < k ==> v@[j]@ != s@,
        decreases v.len() - k,
    {
        if str_eq(v[k].as_str(), s) {
            assert(v@[k as int]@ == s@);
            return true;
        }
        k = k + 1;
    }
    false
}

/// The first address of the pool in `subnet` that `used` does not hold.
pub fn first_free_ip(subnet: &str, used: &Vec<String>) -> (res: Option<String>)
    ensures
        match res {
            Some(ip) => allocate_spec(subnet@, string_set(used@)) == Some(ip@),
            None => allocate_spec(subnet@, string_set(used@)) is None,
        },
{
    let ghost set = string_set(used@);
    let mut i: u64 = IP_RANGE_START;
    while i <= IP_RANGE_END
        invariant
            IP_RANGE_START <= i <= IP_RANGE_END + 1,
            set == string_set(used@),
            first_free_from(subnet@, set, IP_RANGE_START as nat) == first_free_from(subnet@, set, i as nat),
        decreases IP_RANGE_END + 1 - i,
    {
        let mut candidate = subnet.to_owned();
        candidate.append(".");
        let digits = decimal_string(i);
        candidate.append(digits.as_str());
        proof {
            reveal_strlit(".");
            assert(candidate@ == ip_candidate(subnet@, i as nat));
        }
        if !contains_string(used, candidate.as_str()) {
            return Some(candidate);
        }
        i = i + 1;
    }
    None
}

} // verus!
