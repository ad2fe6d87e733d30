//! The VM instance configuration: validation of a requested instance, the
//! kernel command line, GPU requests of the form `MODEL:COUNT`, and the
//! plain launch parameters handed to the hypervisor.
use vstd::prelude::*;
use vstd::string::{StringExecFns, StringSliceAdditionalSpecFns};
use crate::dns::spec_lower_bytes;
use crate::strutil::{str_eq, copy_string};

verus! {

/// A configuration failure.
pub enum VmmError {
    /// A referenced path does not exist.
    InvalidPath(String),
    /// A parameter breaks the configuration rules.
    Config(String),
}

/// How the guest console is wired.
#[derive(Clone, Copy, Debug, PartialEq, Eq, Structural)]
pub enum ConsoleType {
    Virtio,
    Serial,
}

impl ConsoleType {
    /// Parses a console type, ignoring ASCII case: `virtio` or `serial`.
    pub fn from_str(s: &str) -> (r: Result<ConsoleType, VmmError>)
        ensures
            r matches Ok(c) ==> (c is Virtio && spec_lower_bytes(s.spec_bytes())
                == "virtio".spec_bytes()) || (c is Serial && spec_lower_bytes(s.spec_bytes())
                == "serial".spec_bytes()),
            r is Err ==> spec_lower_bytes(s.spec_bytes()) != "virtio".spec_bytes()
                && spec_lower_bytes(s.spec_bytes()) != "serial".spec_bytes(),
    {
        let lowered = lower_ascii(s);
        if bytes_eq_str(&lowered, "virtio") {
            Ok(ConsoleType::Virtio)
        } else if bytes_eq_str(&lowered, "serial") {
            Ok(ConsoleType::Serial)
        } else {
            Err(
                VmmError::Config(
                    "not a valid console type for instances of this fabric".to_owned(),
                ),
            )
        }
    }
}

/// The ASCII-lowercased bytes of a string.
fn lower_ascii(s: &str) -> (r: Vec<u8>)
    ensures
        r@ == spec_lower_bytes(s.spec_bytes()),
{
    let b = s.as_bytes();
    let mut out: Vec<u8> = Vec::new();
    let mut i: usize = 0;
    while i < b.len()
        invariant
            i <= b@.len(),
            b@ == s.spec_bytes(),
            out@.len() == i,
            forall|k: int| 0 <= k < i ==> out@[k] == crate::dns::spec_lower_byte(b@[k]),
        decreases b@.len() - i,
    {
        let c = b[i];
        if 65 <= c && c <= 90 {
            out.push(c + 32);
        } else {
            out.push(c);
        }
        i = i + 1;
    }
    proof {
        assert(out@ =~= spec_lower_bytes(s.spec_bytes()));
    }
    out
}

/// Bytewise comparison of a byte vector with a string's bytes.
fn bytes_eq_str(v: &Vec<u8>, s: &str) -> (r: bool)
    ensures
        r == (v@ == s.spec_bytes()),
{
    crate::queue::bytes_eq(v.as_slice(), s.as_bytes())
}

/// Information about an assigned GPU device.
pub struct GpuDeviceInfo {
    /// PCI address of the GPU.
    pub pci_address: String,
    /// IOMMU group of the device.
    pub iommu_group: Option<String>,
    /// Whether GPUDirect peer-to-peer DMA is enabled.
    pub enable_gpudirect: bool,
}

/// A GPU request: the model asked for, how many, and what was assigned.
pub struct GpuConfig {
    pub model: String,
    pub count: u8,
    pub assigned_devices: Vec<GpuDeviceInfo>,
}

/// The models this fabric can assign.
pub open spec fn spec_gpu_model_ok(model: Seq<char>) -> bool {
    model == "RTX5090"@ || model == "H100"@ || model == "H200"@ || model == "B200"@
}

/// A GPU request the validator accepts: a known model, one to eight cards.
pub open spec fn spec_gpu_ok(model: Seq<char>, count: u8) -> bool {
    spec_gpu_model_ok(model) && 1 <= count <= 8
}

/// The configuration of one instance.
pub struct VmInstanceConfig {
    pub kernel_path: String,
    pub rootfs_path: String,
    pub tap_device: String,
    pub ip_addr: String,
    pub memory_mb: u64,
    pub vcpu_count: u8,
    pub name: String,
    pub custom_cmdline: Option<String>,
    pub rng_source: Option<String>,
    pub console_type: ConsoleType,
    pub formfile: String,
    pub owner: String,
    pub gpu_devices: Option<Vec<GpuConfig>>,
}

pub open spec fn spec_gpus_ok(gpus: Option<Vec<GpuConfig>>) -> bool {
    match gpus {
        None => true,
        Some(v) => forall|i: int|
            0 <= i < v@.len() ==> spec_gpu_ok((#[trigger] v@[i]).model@, v@[i].count),
    }
}

impl VmInstanceConfig {
    /// Validation before launch: the kernel and rootfs paths must exist
    /// (the caller checks the filesystem and passes the verdicts), memory
    /// is at least 128 MB, at least one vCPU, and every GPU request names a
    /// supported model with a count from one to eight.
    pub fn validate(&self, kernel_path_exists: bool, rootfs_path_exists: bool) -> (r: Result<
        (),
        VmmError,
    >)
        ensures
            r is Ok <==> kernel_path_exists && rootfs_path_exists && self.memory_mb >= 128
                && self.vcpu_count >= 1 && spec_gpus_ok(self.gpu_devices),
            !kernel_path_exists ==> r matches Err(VmmError::InvalidPath(_)),
            kernel_path_exists && !rootfs_path_exists ==> r matches Err(VmmError::InvalidPath(_)),
            kernel_path_exists && rootfs_path_exists && !(self.memory_mb >= 128
                && self.vcpu_count >= 1 && spec_gpus_ok(self.gpu_devices)) ==> r matches Err(
                VmmError::Config(_),
            ),
    {
        if !kernel_path_exists {
            return Err(VmmError::InvalidPath("Kernel path does not exist".to_owned()));
        }
        if !rootfs_path_exists {
            return Err(VmmError::InvalidPath("Rootfs path does not exist".to_owned()));
        }
        if self.memory_mb < 128 {
            return Err(VmmError::Config("Memory must be at least 128MB".to_owned()));
        }
        if self.vcpu_count == 0 {
            return Err(VmmError::Config("Must have at least 1 vCPU".to_owned()));
        }
        match &self.gpu_devices {
            Some(gpus) => {
                let mut i: usize = 0;
                while i < gpus.len()
                    invariant
                        i <= gpus@.len(),
                        kernel_path_exists,
                        rootfs_path_exists,
                        self.memory_mb >= 128,
                        self.vcpu_count >= 1,
                        self.gpu_devices == Some(*gpus),
                        forall|k: int|
                            0 <= k < i ==> spec_gpu_ok(
                                (#[trigger] gpus@[k]).model@,
                                gpus@[k].count,
                            ),
                    decreases gpus@.len() - i,
                {
                    let g = &gpus[i];
                    let model_ok = str_eq(g.model.as_str(), "RTX5090") || str_eq(
                        g.model.as_str(),
                        "H100",
                    ) || str_eq(g.model.as_str(), "H200") || str_eq(g.model.as_str(), "B200");
                    if !model_ok {
                        proof {
                            let v = self.gpu_devices->0;
                            assert(v@ == gpus@);
                            assert(!spec_gpu_ok(
                                (v@[i as int]).model@,
                                v@[i as int].count,
                            ));
                            assert(!spec_gpus_ok(self.gpu_devices));
                        }
                        return Err(VmmError::Config("Unsupported GPU model".to_owned()));
                    }
                    if g.count < 1 || g.count > 8 {
                        proof {
                            let v = self.gpu_devices->0;
                            assert(v@ == gpus@);
                            assert(!spec_gpu_ok(
                                (v@[i as int]).model@,
                                v@[i as int].count,
                            ));
                            assert(!spec_gpus_ok(self.gpu_devices));
                        }
                        return Err(
                            VmmError::Config(
                                "Invalid GPU count: must be between 1 and 8".to_owned(),
                            ),
                        );
                    }
                    i = i + 1;
                }
                Ok(())
            },
            None => Ok(()),
        }
    }

    /// The kernel command line: the custom one verbatim, else the default
    /// of the console type.
    pub fn generate_cmdline(&self) -> (r: String)
        ensures
            r@ == (match self.custom_cmdline {
                Some(c) => c@,
                None => match self.console_type {
                    ConsoleType::Serial =>
                        "console=ttyS0,115200n8 earlyprintk=serial,tty0,115200 console=tty0 root=/dev/vdb1 rw virtio_pci.disable_legacy=0"@,
                    ConsoleType::Virtio =>
                        "console=hvc0 root=/dev/vdb1 rw virtio_pci.disable_legacy=0"@,
                },
            }),
    {
        match &self.custom_cmdline {
            Some(c) => copy_string(c),
            None => match self.console_type {
                ConsoleType::Serial =>
                    "console=ttyS0,115200n8 earlyprintk=serial,tty0,115200 console=tty0 root=/dev/vdb1 rw virtio_pci.disable_legacy=0".to_owned(),
                ConsoleType::Virtio =>
                    "console=hvc0 root=/dev/vdb1 rw virtio_pci.disable_legacy=0".to_owned(),
            },
        }
    }

    /// The stock configuration; a caller that wants a generated name picks
    /// one and passes it.
    pub fn default_with_name(name: String) -> (r: VmInstanceConfig)
        ensures
            r.kernel_path@ == "/var/lib/formation/kernel/hypervisor-fw"@,
            r.rootfs_path@ == "/var/lib/formation/vm-images/ubuntu/22.04/default/disk.raw"@,
            r.tap_device@ == "vnet0"@,
            r.ip_addr@ == "11.0.0.44"@,
            r.memory_mb == 1024,
            r.vcpu_count == 2,
            r.name@ == name@,
            r.custom_cmdline is None,
            r.rng_source is None,
            r.console_type is Virtio,
            r.gpu_devices is None,
    {
        VmInstanceConfig {
            kernel_path: "/var/lib/formation/kernel/hypervisor-fw".to_owned(),
            rootfs_path: "/var/lib/formation/vm-images/ubuntu/22.04/default/disk.raw".to_owned(),
            tap_device: "vnet0".to_owned(),
            ip_addr: "11.0.0.44".to_owned(),
            memory_mb: 1024,
            vcpu_count: 2,
            formfile: String::new(),
            name,
            custom_cmdline: None,
            rng_source: None,
            console_type: ConsoleType::Virtio,
            owner: String::new(),
            gpu_devices: None,
        }
    }
}

/// A decimal count of at most three digits; anything else means one card.
pub open spec fn spec_parse_count(digits: Seq<u8>) -> u8 {
    if digits.len() == 1 && 48 <= digits[0] <= 57 {
        (digits[0] - 48) as u8
    } else if digits.len() == 2 && 48 <= digits[0] <= 57 && 48 <= digits[1] <= 57 {
        (((digits[0] - 48) * 10 + (digits[1] - 48)) % 256) as u8
    } else if digits.len() == 3 && 48 <= digits[0] <= 57 && 48 <= digits[1] <= 57 && 48
        <= digits[2] <= 57 && (digits[0] - 48) * 100 + (digits[1] - 48) * 10 + (digits[2] - 48)
        <= 255 {
        ((digits[0] - 48) * 100 + (digits[1] - 48) * 10 + (digits[2] - 48)) as u8
    } else {
        1u8
    }
}

/// Parses the `COUNT` of a GPU request; a malformed count means one card.
fn parse_count(digits: &[u8]) -> (r: u8)
    ensures
        r == spec_parse_count(digits@),
{
    if digits.len() == 1 && 48 <= digits[0] && digits[0] <= 57 {
        digits[0] - 48
    } else if digits.len() == 2 && 48 <= digits[0] && digits[0] <= 57 && 48 <= digits[1]
        && digits[1] <= 57 {
        (digits[0] - 48) * 10 + (digits[1] - 48)
    } else if digits.len() == 3 && 48 <= digits[0] && digits[0] <= 57 && 48 <= digits[1]
        && digits[1] <= 57 && 48 <= digits[2] && digits[2] <= 57 && (digits[0] - 48) as u32 * 100
        + (digits[1] - 48) as u32 * 10 + (digits[2] - 48) as u32 <= 255 {
        (digits[0] - 48) * 100 + (digits[1] - 48) * 10 + (digits[2] - 48)
    } else {
        1
    }
}

/// The position of the first colon, or the length.
pub open spec fn spec_colon_pos(b: Seq<u8>) -> int
    decreases b.len(),
{
    if b.len() == 0 {
        0
    } else if b[0] == 58 {
        0
    } else {
        1 + spec_colon_pos(b.drop_first())
    }
}

/// Parses a `MODEL:COUNT` GPU request; without a colon the count is one,
/// and a malformed count also means one.
pub fn parse_gpu_device(s: &str) -> (r: GpuConfig)
    ensures
        r.assigned_devices@.len() == 0,
        ({
            let b = s.spec_bytes();
            let p = spec_colon_pos(b);
            &&& (vstd::utf8::valid_utf8(b.take(p)) ==> r.model@ == vstd::utf8::decode_utf8(
                b.take(p),
            ))
            &&& (p < b.len() ==> r.count == spec_parse_count(b.skip(p + 1)))
            &&& (p == b.len() ==> r.count == 1)
        }),
{
    let b = s.as_bytes();
    let p = find_colon(b);
    proof {
        lemma_colon_pos(b@, p as int);
    }
    let model_bytes = crate::sni::copy_byte_range(b, 0, p);
    let model = match crate::codec::string_from_utf8(model_bytes) {
        Some(m) => m,
        None => String::new(),
    };
    let count = if p < b.len() {
        let digits = crate::sni::copy_byte_range(b, p + 1, b.len());
        parse_count(digits.as_slice())
    } else {
        1
    };
    GpuConfig { model, count, assigned_devices: Vec::new() }
}

/// The position of the first colon of a byte slice, or its length.
fn find_colon(b: &[u8]) -> (p: usize)
    ensures
        p <= b@.len(),
        forall|k: int| 0 <= k < p ==> b@[k] != 58,
        (p as int) < b@.len() ==> b@[p as int] == 58,
{
    let mut i: usize = 0;
    while i < b.len()
        invariant
            i <= b@.len(),
            forall|k: int| 0 <= k < i ==> b@[k] != 58,
        decreases b@.len() - i,
    {
        if b[i] == 58 {
            return i;
        }
        i = i + 1;
    }
    i
}

proof fn lemma_colon_pos(b: Seq<u8>, p: int)
    requires
        0 <= p <= b.len(),
        forall|k: int| 0 <= k < p ==> b[k] != 58,
        p < b.len() ==> b[p] == 58,
    ensures
        spec_colon_pos(b) == p,
    decreases b.len(),
{
    if b.len() > 0 && b[0] != 58 {
        assert(p > 0);
        assert(forall|k: int| 0 <= k < p - 1 ==> b.drop_first()[k] == b[k + 1]);
        if p - 1 < b.drop_first().len() {
            assert(b.drop_first()[p - 1] == b[p]);
        }
        lemma_colon_pos(b.drop_first(), p - 1);
    }
}

/// The base paths of the hypervisor service.
pub struct ServicePaths;

impl ServicePaths {
    /// Base path for all service files.
    pub const BASE_DIR: &'static str = "/var/lib/formation";

    /// Path for kernel images, under the base.
    pub const KERNEL_DIR: &'static str = "kernel";
}

/// The host network configuration of the service.
pub struct NetworkConfig {
    pub bridge_interface: String,
    pub dhcp_range_start: String,
    pub dhcp_range_end: String,
    pub gateway: String,
    pub netmask: String,
    pub nameservers: Vec<String>,
    pub domain_suffix: String,
    pub dns_listener_addr: String,
}

impl Default for NetworkConfig {
    /// The stock bridge network.
    fn default() -> (r: NetworkConfig)
        ensures
            r.bridge_interface@ == "vmbr0"@,
            r.dhcp_range_start@ == "192.168.122.2"@,
            r.dhcp_range_end@ == "192.168.122.254"@,
            r.gateway@ == "192.168.122.1"@,
            r.netmask@ == "255.255.255.0"@,
            r.nameservers@.len() == 2,
            r.dns_listener_addr@ == "0.0.0.0:53"@,
            r.domain_suffix@ == "dev.formation.cloud"@,
    {
        let mut nameservers: Vec<String> = Vec::new();
        nameservers.push("1.1.1.1".to_owned());
        nameservers.push("8.8.8.8".to_owned());
        NetworkConfig {
            bridge_interface: "vmbr0".to_owned(),
            dhcp_range_start: "192.168.122.2".to_owned(),
            dhcp_range_end: "192.168.122.254".to_owned(),
            gateway: "192.168.122.1".to_owned(),
            netmask: "255.255.255.0".to_owned(),
            nameservers,
            dns_listener_addr: "0.0.0.0:53".to_owned(),
            domain_suffix: "dev.formation.cloud".to_owned(),
        }
    }
}

/// What one host is willing to run.
pub struct ResourceLimits {
    pub max_vms: usize,
    pub max_memory_per_vm: u64,
    pub max_vcpus_per_vm: u8,
    pub max_disk_size_per_vm: u64,
}

impl Default for ResourceLimits {
    /// The stock limits.
    fn default() -> (r: ResourceLimits)
        ensures
            r.max_vms == 10,
            r.max_memory_per_vm == 32768,
            r.max_vcpus_per_vm == 8,
            r.max_disk_size_per_vm == 1024,
    {
        ResourceLimits {
            max_vms: 10,
            max_memory_per_vm: 32768,
            max_vcpus_per_vm: 8,
            max_disk_size_per_vm: 1024,
        }
    }
}

/// What a VM gets when the manifest does not say.
pub struct DefaultVmParams {
    pub memory_mb: u64,
    pub vcpu_count: u8,
    pub disk_size_gb: u64,
}

impl Default for DefaultVmParams {
    /// The stock parameters.
    fn default() -> (r: DefaultVmParams)
        ensures
            r.memory_mb == 2048,
            r.vcpu_count == 2,
            r.disk_size_gb == 20,
    {
        DefaultVmParams { memory_mb: 2048, vcpu_count: 2, disk_size_gb: 20 }
    }
}

/// The bytes of a PCI address with colons replaced by underscores.
pub open spec fn spec_sanitize_pci(b: Seq<u8>) -> Seq<u8> {
    Seq::new(
        b.len(),
        |i: int|
            if b[i] == 58 {
                95u8
            } else {
                b[i]
            },
    )
}

/// One assigned GPU, as the launch plan sees it.
pub ghost struct DeviceSrc {
    pub pci: Seq<char>,
    pub gpudirect: bool,
}

/// The assigned devices of one GPU request.
pub open spec fn spec_devices_of(g: GpuConfig) -> Seq<DeviceSrc> {
    g.assigned_devices@.map(
        |i: int, d: GpuDeviceInfo| DeviceSrc { pci: d.pci_address@, gpudirect: d.enable_gpudirect },
    )
}

/// Every assigned device of every GPU request, in order.
pub open spec fn spec_all_assigned(gpus: Seq<GpuConfig>) -> Seq<DeviceSrc>
    decreases gpus.len(),
{
    if gpus.len() == 0 {
        Seq::empty()
    } else {
        spec_devices_of(gpus[0]) + spec_all_assigned(gpus.drop_first())
    }
}

/// What the plan promises of one passthrough device against its source.
pub open spec fn spec_device_plan_ok(p: DevicePlan, d: DeviceSrc) -> bool {
    &&& p.path@ == "/sys/bus/pci/devices/"@ + d.pci
    &&& p.gpudirect_clique == (if d.gpudirect {
        Some(0u8)
    } else {
        None::<u8>
    })
    &&& (vstd::utf8::valid_utf8(spec_sanitize_pci(vstd::utf8::encode_utf8(d.pci))) ==> p.id@
        == "gpu_"@ + vstd::utf8::decode_utf8(
        spec_sanitize_pci(vstd::utf8::encode_utf8(d.pci)),
    ))
}

/// One passthrough device of the launch plan.
pub struct DevicePlan {
    /// `/sys/bus/pci/devices/<address>`.
    pub path: String,
    /// `gpu_<address with colons replaced by underscores>`.
    pub id: String,
    /// All GPUs of clique 0 may talk to each other.
    pub gpudirect_clique: Option<u8>,
}

/// The plain launch parameters of an instance, ready for the hypervisor.
pub struct VmLaunchPlan {
    pub boot_vcpus: u8,
    pub max_vcpus: u8,
    pub memory_bytes: u64,
    pub kernel_path: String,
    pub rootfs_path: String,
    pub console_socket: String,
    pub net_tap: String,
    pub net_ip: String,
    pub net_id: String,
    pub rng_source: String,
    pub devices: Vec<DevicePlan>,
    pub iommu: bool,
}

/// The PCI address with colons replaced by underscores.
fn sanitize_pci(s: &str) -> (r: Vec<u8>)
    ensures
        r@.len() == s.spec_bytes().len(),
        forall|k: int|
            0 <= k < r@.len() ==> r@[k] == (if s.spec_bytes()[k] == 58 {
                95u8
            } else {
                s.spec_bytes()[k]
            }),
{
    let b = s.as_bytes();
    let mut out: Vec<u8> = Vec::new();
    let mut i: usize = 0;
    while i < b.len()
        invariant
            i <= b@.len(),
            b@ == s.spec_bytes(),
            out@.len() == i,
            forall|k: int|
                0 <= k < i ==> out@[k] == (if b@[k] == 58 {
                    95u8
                } else {
                    b@[k]
                }),
        decreases b@.len() - i,
    {
        if b[i] == 58 {
            out.push(95);
        } else {
            out.push(b[i]);
        }
        i = i + 1;
    }
    out
}

/// Builds the launch parameters of an instance (`create_vm_config`): boot
/// and max vCPUs equal, memory in bytes, a console socket named for the
/// instance, a net device named `net_<name>`, the rng source defaulting to
/// `/dev/urandom`, and one passthrough device per assigned GPU — which
/// also switches the IOMMU on.
pub fn create_vm_config(config: &VmInstanceConfig) -> (r: VmLaunchPlan)
    requires
        config.memory_mb < 0x100000000000,
    ensures
        r.boot_vcpus == config.vcpu_count,
        r.max_vcpus == config.vcpu_count,
        r.memory_bytes == config.memory_mb * 0x100000,
        r.kernel_path@ == config.kernel_path@,
        r.rootfs_path@ == config.rootfs_path@,
        r.console_socket@ == "/run/form-vmm/"@ + config.name@ + "-console.sock"@,
        r.net_tap@ == config.tap_device@,
        r.net_ip@ == config.ip_addr@,
        r.net_id@ == "net_"@ + config.name@,
        r.rng_source@ == (match config.rng_source {
            Some(s) => s@,
            None => "/dev/urandom"@,
        }),
        r.iommu == (r.devices@.len() > 0),
        config.gpu_devices is None ==> r.devices@.len() == 0,
        config.gpu_devices matches Some(gpus) ==> {
            let all = spec_all_assigned(gpus@);
            &&& r.devices@.len() == all.len()
            &&& forall|k: int|
                0 <= k < all.len() ==> spec_device_plan_ok(#[trigger] r.devices@[k], all[k])
        },
{
    let mut console_socket = "/run/form-vmm/".to_owned();
    console_socket.append(config.name.as_str());
    console_socket.append("-console.sock");
    let mut net_id = "net_".to_owned();
    net_id.append(config.name.as_str());
    let rng_source = match &config.rng_source {
        Some(s) => copy_string(s),
        None => "/dev/urandom".to_owned(),
    };
    let mut devices: Vec<DevicePlan> = Vec::new();
    let ghost mut done: Seq<DeviceSrc> = Seq::empty();
    match &config.gpu_devices {
        Some(gpus) => {
            proof {
                assert(gpus@.skip(0) =~= gpus@);
            }
            let mut i: usize = 0;
            while i < gpus.len()
                invariant
                    i <= gpus@.len(),
                    config.gpu_devices matches Some(v) && v@ == gpus@,
                    spec_all_assigned(gpus@) == done + spec_all_assigned(gpus@.skip(i as int)),
                    devices@.len() == done.len(),
                    forall|k: int|
                        0 <= k < done.len() ==> spec_device_plan_ok(
                            #[trigger] devices@[k],
                            done[k],
                        ),
                decreases gpus@.len() - i,
            {
                let g = &gpus[i];
                let ghost dv = spec_devices_of(gpus@[i as int]);
                let ghost done0 = done;
                proof {
                    assert(gpus@.skip(i as int)[0] == gpus@[i as int]);
                    assert(gpus@.skip(i as int).drop_first() =~= gpus@.skip(i as int + 1));
                    assert(done.take(done.len() as int) =~= done);
                    assert(dv.take(0) =~= Seq::<DeviceSrc>::empty());
                    assert(done0 + dv.take(0) =~= done0);
                }
                let mut j: usize = 0;
                while j < g.assigned_devices.len()
                    invariant
                        j <= g.assigned_devices@.len(),
                        g == &gpus@[i as int],
                        dv == spec_devices_of(gpus@[i as int]),
                        done == done0 + dv.take(j as int),
                        devices@.len() == done.len(),
                        forall|k: int|
                            0 <= k < done.len() ==> spec_device_plan_ok(
                                #[trigger] devices@[k],
                                done[k],
                            ),
                    decreases g.assigned_devices@.len() - j,
                {
                    let dev = &g.assigned_devices[j];
                    proof {
                        assert(dv[j as int] == (DeviceSrc {
                            pci: g.assigned_devices@[j as int].pci_address@,
                            gpudirect: g.assigned_devices@[j as int].enable_gpudirect,
                        }));
                    }
                    let mut path = "/sys/bus/pci/devices/".to_owned();
                    path.append(dev.pci_address.as_str());
                    let sanitized = sanitize_pci(dev.pci_address.as_str());
                    proof {
                        assert(sanitized@ =~= spec_sanitize_pci(
                            vstd::utf8::encode_utf8(dev.pci_address@),
                        ));
                    }
                    let mut id = "gpu_".to_owned();
                    match crate::codec::string_from_utf8(sanitized) {
                        Some(st) => {
                            id.append(st.as_str());
                        },
                        None => {},
                    }
                    devices.push(
                        DevicePlan {
                            path,
                            id,
                            gpudirect_clique: if dev.enable_gpudirect {
                                Some(0)
                            } else {
                                None
                            },
                        },
                    );
                    proof {
                        done = done + seq![dv[j as int]];
                        assert(done =~= done0 + dv.take(j as int + 1));
                        assert(spec_device_plan_ok(devices@[devices@.len() - 1], dv[j as int]));
                    }
                    j = j + 1;
                }
                proof {
                    assert(dv.take(dv.len() as int) =~= dv);
                    assert(done =~= done0 + dv);
                    assert(done + spec_all_assigned(gpus@.skip(i as int + 1)) =~= done0 + (dv
                        + spec_all_assigned(gpus@.skip(i as int + 1))));
                }
                i = i + 1;
            }
            proof {
                assert(gpus@.skip(gpus@.len() as int) =~= Seq::<GpuConfig>::empty());
                assert(done =~= done + spec_all_assigned(gpus@.skip(gpus@.len() as int)));
                assert(done =~= spec_all_assigned(gpus@));
            }
        },
        None => {},
    }
    let iommu = devices.len() > 0;
    VmLaunchPlan {
        boot_vcpus: config.vcpu_count,
        max_vcpus: config.vcpu_count,
        memory_bytes: config.memory_mb * 0x100000,
        kernel_path: copy_string(&config.kernel_path),
        rootfs_path: copy_string(&config.rootfs_path),
        console_socket,
        net_tap: copy_string(&config.tap_device),
        net_ip: copy_string(&config.ip_addr),
        net_id,
        rng_source,
        devices,
        iommu,
    }
}

} // verus!
