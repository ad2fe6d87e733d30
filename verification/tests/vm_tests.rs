//! Instance configuration, the launch plan, the proxy routes and the
//! event routing.
use formation::dns::SockAddr;
use formation::events::{route_vmm_subtopic, vm_actions_for, VmAction, VmmMessageKind};
use formation::metrics::CpuMetrics;
use formation::peers::IpAddress;
use formation::proxy::{extract_domain, Backend, ProxyConfig, ReverseProxy};
use formation::vmconfig::{
    create_vm_config, parse_gpu_device, ConsoleType, DefaultVmParams, GpuConfig, GpuDeviceInfo,
    NetworkConfig, ResourceLimits, VmInstanceConfig, VmmError,
};

fn config() -> VmInstanceConfig {
    let mut c = VmInstanceConfig::default_with_name("vm-1".to_string());
    c.memory_mb = 2048;
    c.vcpu_count = 4;
    c
}

#[test]
fn validation_enforces_the_resource_rules() {
    let c = config();
    assert!(c.validate(true, true).is_ok());
    assert!(matches!(c.validate(false, true), Err(VmmError::InvalidPath(_))));
    assert!(matches!(c.validate(true, false), Err(VmmError::InvalidPath(_))));
    let mut low_mem = config();
    low_mem.memory_mb = 64;
    assert!(matches!(low_mem.validate(true, true), Err(VmmError::Config(_))));
    let mut no_cpu = config();
    no_cpu.vcpu_count = 0;
    assert!(matches!(no_cpu.validate(true, true), Err(VmmError::Config(_))));
}

#[test]
fn validation_checks_gpu_requests() {
    let mut c = config();
    c.gpu_devices = Some(vec![GpuConfig {
        model: "H100".to_string(),
        count: 8,
        assigned_devices: vec![],
    }]);
    assert!(c.validate(true, true).is_ok());
    c.gpu_devices = Some(vec![GpuConfig {
        model: "A100".to_string(),
        count: 1,
        assigned_devices: vec![],
    }]);
    assert!(matches!(c.validate(true, true), Err(VmmError::Config(_))));
    c.gpu_devices = Some(vec![GpuConfig {
        model: "H100".to_string(),
        count: 9,
        assigned_devices: vec![],
    }]);
    assert!(matches!(c.validate(true, true), Err(VmmError::Config(_))));
}

#[test]
fn cmdline_defaults_follow_the_console_type() {
    let mut c = config();
    c.console_type = ConsoleType::Virtio;
    assert_eq!(
        c.generate_cmdline(),
        "console=hvc0 root=/dev/vdb1 rw virtio_pci.disable_legacy=0"
    );
    c.console_type = ConsoleType::Serial;
    assert_eq!(
        c.generate_cmdline(),
        "console=ttyS0,115200n8 earlyprintk=serial,tty0,115200 console=tty0 root=/dev/vdb1 rw virtio_pci.disable_legacy=0"
    );
    c.custom_cmdline = Some("quiet".to_string());
    assert_eq!(c.generate_cmdline(), "quiet");
}

#[test]
fn console_type_parses_case_insensitively() {
    assert!(matches!(ConsoleType::from_str("Virtio"), Ok(ConsoleType::Virtio)));
    assert!(matches!(ConsoleType::from_str("SERIAL"), Ok(ConsoleType::Serial)));
    assert!(ConsoleType::from_str("pci").is_err());
}

#[test]
fn gpu_requests_parse_model_and_count() {
    let g = parse_gpu_device("H100:4");
    assert_eq!(g.model, "H100");
    assert_eq!(g.count, 4);
    let no_count = parse_gpu_device("B200");
    assert_eq!(no_count.model, "B200");
    assert_eq!(no_count.count, 1);
    let bad_count = parse_gpu_device("H200:x");
    assert_eq!(bad_count.model, "H200");
    assert_eq!(bad_count.count, 1);
}

#[test]
fn launch_plan_carries_the_plain_parameters() {
    let mut c = config();
    c.gpu_devices = Some(vec![GpuConfig {
        model: "H100".to_string(),
        count: 1,
        assigned_devices: vec![GpuDeviceInfo {
            pci_address: "0000:01:00.0".to_string(),
            iommu_group: None,
            enable_gpudirect: true,
        }],
    }]);
    let plan = create_vm_config(&c);
    assert_eq!(plan.boot_vcpus, 4);
    assert_eq!(plan.max_vcpus, 4);
    assert_eq!(plan.memory_bytes, 2048 * 1024 * 1024);
    assert_eq!(plan.console_socket, "/run/form-vmm/vm-1-console.sock");
    assert_eq!(plan.net_id, "net_vm-1");
    assert_eq!(plan.rng_source, "/dev/urandom");
    assert!(plan.iommu);
    assert_eq!(plan.devices.len(), 1);
    assert_eq!(plan.devices[0].path, "/sys/bus/pci/devices/0000:01:00.0");
    assert_eq!(plan.devices[0].id, "gpu_0000_01_00.0");
    assert_eq!(plan.devices[0].gpudirect_clique, Some(0));
    // no GPUs: no devices, no IOMMU
    let plain = create_vm_config(&config());
    assert!(plain.devices.is_empty());
    assert!(!plain.iommu);
}

#[test]
fn stock_configuration_values() {
    let net = NetworkConfig::default();
    assert_eq!(net.bridge_interface, "vmbr0");
    assert_eq!(net.gateway, "192.168.122.1");
    let limits = ResourceLimits::default();
    assert_eq!(limits.max_vms, 10);
    assert_eq!(limits.max_memory_per_vm, 32768);
    let params = DefaultVmParams::default();
    assert_eq!(params.memory_mb, 2048);
    assert_eq!(params.disk_size_gb, 20);
}

#[test]
fn proxy_routes_and_backend_choice() {
    let mut proxy = ReverseProxy::new(ProxyConfig { buffer_size: 8192, connection_timeout_ms: 5000 });
    assert!(proxy.get_route("app.example").is_none());
    let addr = SockAddr { ip: IpAddress::V4 { a: 10, b: 0, c: 0, d: 5 }, port: 8080 };
    proxy.add_route("app.example".to_string(), Backend::new(vec![addr]));
    assert_eq!(proxy.get_route("app.example").unwrap().addresses(), &vec![addr]);
    // the only backend is always chosen
    assert_eq!(proxy.select_backend("app.example").unwrap(), addr);
    assert!(proxy.select_backend("other.example").is_err());
    let removed = proxy.remove_route("app.example").unwrap();
    assert_eq!(removed.addresses(), &vec![addr]);
    assert!(proxy.get_route("app.example").is_none());
}

#[test]
fn host_header_extraction() {
    let request = "GET / HTTP/1.1\r\nUser-Agent: curl\r\nHost: app.example\r\n\r\n";
    assert_eq!(extract_domain(request).unwrap(), "app.example");
    let no_host = "GET / HTTP/1.1\r\nUser-Agent: curl\r\n\r\n";
    assert!(extract_domain(no_host).is_err());
}

#[test]
fn vmm_topic_routing_and_reboot_expansion() {
    assert_eq!(route_vmm_subtopic(1), Some(VmmMessageKind::Create));
    assert_eq!(route_vmm_subtopic(5), Some(VmmMessageKind::Reboot));
    assert_eq!(route_vmm_subtopic(0), None);
    assert_eq!(route_vmm_subtopic(7), None);
    let actions = vm_actions_for(VmmMessageKind::Reboot, "vm-9");
    assert_eq!(actions.len(), 2);
    assert!(matches!(&actions[0], VmAction::Stop { id } if id == "vm-9"));
    assert!(matches!(&actions[1], VmAction::Start { id } if id == "vm-9"));
}

#[test]
fn cpu_metrics_round_trip() {
    let m = CpuMetrics::new(4250, 173);
    assert_eq!(m.usage_pct(), 4250);
    assert_eq!(m.process_count(), 173);
}
