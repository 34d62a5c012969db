use backend_kvm::config_generator::boot::bootconf;
use backend_kvm::config_generator::cpu::{
    allocated_vcpus, container_cpus, cpuconf, exceeds_quota, oci_cpu_limit, HostCpu,
};
use backend_kvm::config_generator::disk::HostDisk;
use backend_kvm::config_generator::network::HostNetwork;
use backend_kvm::config_generator::{config_generate, domain_name, BackendConfig, ConfigError, Host};
use backend_kvm::frontend::{FrontendConfig, ImageConfig, VcpuPin};
use backend_kvm::guest::{self, teardown};

fn image() -> ImageConfig {
    ImageConfig {
        cpio: String::new(),
        os_var: String::new(),
        kernel: String::new(),
        ramdisk: String::new(),
        inmate: "/boot/inmate".to_string(),
        dtb: String::new(),
        initrd: String::new(),
        netconf: String::new(),
        disk_type: String::new(),
        disk_image: String::new(),
        disk_size: 0,
        starting_vaddress: String::new(),
        memory: 0,
        net: "no".to_string(),
        rpu_req: false,
        vcpus: 0,
        vcpu_pinning: Vec::new(),
        isolcpu: String::new(),
        nohz_full: String::new(),
        steer_irq: None,
    }
}

fn container(config: &str) -> FrontendConfig {
    let mut fc = FrontendConfig::new();
    fc.containerid = "c1".to_string();
    fc.crundir = "/run/runPHI/c1".to_string();
    fc.jsonconfig = serde_json::from_str(config).unwrap();
    fc
}

fn host() -> Host {
    Host {
        cpu: HostCpu { arch: "x86_64".to_string(), has_kvm: true, real_cpus: 0 },
        disk: HostDisk { image_exists: true, vg: "vg0".to_string(), rootfs_mb: 100, free_mb: 1000 },
        network: HostNetwork {
            virbr0: false,
            docker0: false,
            xenbr0: false,
            br0: false,
            named: false,
            virtnetworkd: false,
        },
    }
}

fn document(ic: &ImageConfig, config: &str) -> String {
    config_generate(&container(config), ic, &host()).unwrap().domain.content
}

#[test]
fn a_bare_metal_guest_is_generated_in_full() {
    let mut ic = image();
    ic.os_var = "zephyr".to_string();
    ic.inmate = "/boot/zephyr.elf".to_string();
    ic.memory = 64;
    ic.vcpus = 1;
    let files = config_generate(&container("{}"), &ic, &host()).unwrap();
    assert!(files.disk.is_none());
    assert_eq!(files.domain.path, "/run/runPHI/c1/domain.xml");
    assert_eq!(
        files.domain.content,
        "<domain type='kvm'>
  <name>runphi-c1</name>
  <memory unit='KiB'>65536</memory>
  <vcpu placement='static'>1</vcpu>
  
  <os>
    <type arch='x86_64' machine='q35'>hvm</type>
        <kernel>/boot/zephyr.elf</kernel>
  </os>
  <features>
    <acpi/>
    <apic/>
  </features>
  <cpu mode='host-passthrough' check='none'/>
  <seclabel type='static' model='dac' relabel='no'>
    <label>root:root</label>
  </seclabel>
  <on_poweroff>destroy</on_poweroff>
  <on_reboot>destroy</on_reboot>
  <on_crash>destroy</on_crash>
  <devices>
    <emulator>/usr/bin/qemu-system-x86_64</emulator>
    <serial type='pty'>
      <target type='isa-serial' port='0'/>
    </serial>
    <console type='pty'>
      <target type='serial' port='0'/>
    </console>
  </devices>
</domain>"
    );
}

#[test]
fn a_linux_guest_with_an_initramfs() {
    let mut ic = image();
    ic.os_var = "linux".to_string();
    ic.inmate = "/boot/Image".to_string();
    ic.ramdisk = "/boot/rootfs.cpio.gz".to_string();
    ic.memory = 1024;
    ic.vcpus = 2;
    ic.net = "user".to_string();
    let xml = document(&ic, "{}");
    assert!(xml.contains("<kernel>/boot/Image</kernel>\n    <initrd>/boot/rootfs.cpio.gz</initrd>\n    <cmdline>console=ttyS0,115200</cmdline>"));
    assert!(xml.contains("<memory unit='KiB'>1048576</memory>"));
    assert!(xml.contains("<vcpu placement='static'>2</vcpu>"));
    assert!(xml.contains("<interface type='user'>"));
}

#[test]
fn a_linux_guest_with_a_file_disk() {
    let mut ic = image();
    ic.os_var = "linux".to_string();
    ic.inmate = "/boot/Image".to_string();
    ic.disk_type = "file".to_string();
    ic.disk_image = "/boot/rootfs.img".to_string();
    ic.memory = 512;
    let xml = document(&ic, "{}");
    assert!(xml.contains("<cmdline>console=ttyS0,115200 root=/dev/vda rw</cmdline>"));
    assert!(xml.contains("<emulator>/usr/bin/qemu-system-x86_64</emulator>\n    <disk type='file' device='disk'>"));
    assert!(xml.contains("<source file='/boot/rootfs.img'/>"));
}

#[test]
fn a_real_time_guest_pins_its_cpus() {
    let mut ic = image();
    ic.os_var = "linux".to_string();
    ic.vcpus = 2;
    ic.vcpu_pinning = vec![VcpuPin { vcpu: 0, pcpu: 2 }, VcpuPin { vcpu: 1, pcpu: 3 }];
    let xml = document(&ic, "{}");
    assert!(xml.contains(
        "<cputune>\n    <vcpupin vcpu='0' cpuset='2'/>\n    <vcpupin vcpu='1' cpuset='3'/>\n  </cputune>"
    ));
}

#[test]
fn a_guest_on_a_bridge_and_in_a_network() {
    let mut ic = image();
    ic.net = "bridge:docker0".to_string();
    assert!(document(&ic, "{}").contains("<source bridge='docker0'/>"));
    ic.net = "network:default".to_string();
    assert!(document(&ic, "{}").contains("<source network='default'/>"));
}

#[test]
fn a_guest_on_a_logical_volume() {
    let mut ic = image();
    ic.disk_type = "lvm".to_string();
    let files = config_generate(&container("{}"), &ic, &host()).unwrap();
    let disk = files.disk.unwrap();
    assert_eq!(disk.path, "/run/runPHI/c1/disk");
    assert_eq!(disk.content, "/dev/vg0/lv_c1 194\n");
    assert!(files.domain.content.contains("<source dev='/dev/vg0/lv_c1'/>"));
}

#[test]
fn a_disk_that_cannot_be_had_is_an_error() {
    let mut ic = image();
    ic.disk_type = "nvme".to_string();
    match config_generate(&container("{}"), &ic, &host()) {
        Err(ConfigError::UnknownDiskType(t)) => assert_eq!(t, "nvme"),
        other => panic!("{:?}", other),
    }
}

#[test]
fn memory_comes_from_the_image_then_the_container_then_the_default() {
    let limit = r#"{"linux": {"resources": {"memory": {"limit": 536870912}}}}"#;
    let mut ic = image();
    ic.memory = 7;
    assert!(document(&ic, limit).contains("<memory unit='KiB'>7168</memory>"));
    ic.memory = 0;
    assert!(document(&ic, limit).contains("<memory unit='KiB'>524288</memory>"));
    // less than a megabyte, or no limit at all
    let small = r#"{"linux": {"resources": {"memory": {"limit": 1048575}}}}"#;
    assert!(document(&ic, small).contains("<memory unit='KiB'>32768</memory>"));
    let none = r#"{"linux": {"resources": {"memory": {"limit": -1}}}}"#;
    assert!(document(&ic, none).contains("<memory unit='KiB'>32768</memory>"));
    ic.os_var = "LINUX".to_string();
    assert!(document(&ic, "{}").contains("<memory unit='KiB'>1048576</memory>"));
}

fn vcpus(ic: &ImageConfig, config: &str, real_cpus: u32) -> u32 {
    let mut c = BackendConfig::new("x86_64");
    let cpu = HostCpu { arch: "x86_64".to_string(), has_kvm: true, real_cpus };
    cpuconf(&container(config), ic, &mut c, &cpu).unwrap();
    c.vcpus
}

#[test]
fn cpus_come_from_the_image_then_the_pinning_then_the_quota() {
    let quota = r#"{"linux": {"resources": {"cpu": {"quota": 250000, "period": 100000}}}}"#;
    let mut ic = image();
    assert_eq!(vcpus(&ic, quota, 9), 3);
    assert_eq!(vcpus(&ic, "{}", 9), 1);
    ic.vcpu_pinning = vec![VcpuPin { vcpu: 0, pcpu: 4 }, VcpuPin { vcpu: 1, pcpu: 5 }];
    assert_eq!(vcpus(&ic, quota, 9), 2);
    ic.vcpus = 5;
    assert_eq!(vcpus(&ic, quota, 9), 5);
}

#[test]
fn a_quota_that_takes_real_arithmetic_is_left_to_the_host() {
    let real = r#"{"linux": {"resources": {"cpu": {"quota": 2.5, "period": 1}}}}"#;
    assert_eq!(oci_cpu_limit(&container(real)), None);
    assert_eq!(vcpus(&image(), real, 3), 3);
    assert_eq!(vcpus(&image(), real, 0), 1);
}

fn limit(quota: &str, period: &str) -> Option<u32> {
    oci_cpu_limit(&container(&format!(
        "{{\"linux\": {{\"resources\": {{\"cpu\": {{\"quota\": {}, \"period\": {}}}}}}}}}",
        quota, period
    )))
}

#[test]
fn quotas_are_rounded_up() {
    assert_eq!(limit("100000", "100000"), Some(1));
    assert_eq!(limit("100001", "100000"), Some(2));
    assert_eq!(limit("50000", "100000"), Some(1));
    assert_eq!(limit("9007199254740992", "1"), Some(u32::MAX));
    assert_eq!(limit("9007199254740993", "1"), None);
}

#[test]
fn a_quota_without_a_limit() {
    assert_eq!(limit("-1", "100000"), Some(0));
    assert_eq!(limit("0", "100000"), Some(0));
    assert_eq!(limit("100000", "0"), Some(0));
    assert_eq!(limit("\"x\"", "100000"), Some(0));
    assert_eq!(limit("1.5", "null"), Some(0));
}

fn architecture(arch: &str, has_kvm: bool) -> BackendConfig {
    let mut c = BackendConfig::new(arch);
    let cpu = HostCpu { arch: arch.to_string(), has_kvm, real_cpus: 0 };
    cpuconf(&container("{}"), &image(), &mut c, &cpu).unwrap();
    c
}

#[test]
fn architectures_with_and_without_kvm() {
    let c = architecture("x86_64", true);
    assert_eq!(c.domain_type, "kvm");
    assert_eq!(c.os_machine, "q35");
    assert_eq!(c.features_xml, "<acpi/>\n    <apic/>");
    assert_eq!(c.cpu_xml, "<cpu mode='host-passthrough' check='none'/>");

    let c = architecture("x86_64", false);
    assert_eq!(c.domain_type, "qemu");
    assert_eq!(
        c.cpu_xml,
        "<cpu mode='custom' match='exact'><model fallback='forbid'>qemu64</model></cpu>"
    );

    let c = architecture("aarch64", true);
    assert_eq!(c.domain_type, "kvm");
    assert_eq!(c.os_arch, "aarch64");
    assert_eq!(c.os_machine, "virt");
    assert_eq!(c.features_xml, "<gic version='3'/>");

    let c = architecture("aarch64", false);
    assert_eq!(c.domain_type, "qemu");
    assert_eq!(
        c.cpu_xml,
        "<cpu mode='custom' match='exact'><model fallback='forbid'>max</model></cpu>"
    );

    let c = architecture("riscv64", true);
    assert_eq!(c.domain_type, "kvm");
    assert_eq!(c.os_arch, "riscv64");
    assert_eq!(c.os_machine, "");
}

#[test]
fn what_a_guest_boots() {
    let mut ic = image();
    ic.ramdisk = "/r".to_string();
    ic.dtb = "/d".to_string();
    let mut c = BackendConfig::new("x86_64");
    bootconf(&ic, &mut c, &true).unwrap();
    assert_eq!(
        c.os_boot_xml,
        "    <kernel>/boot/inmate</kernel>\n    <initrd>/r</initrd>\n    <dtb>/d</dtb>\n    <cmdline>console=ttyS0,115200</cmdline>"
    );
    bootconf(&ic, &mut c, &false).unwrap();
    assert_eq!(c.os_boot_xml, "    <kernel>/boot/inmate</kernel>");
    ic.inmate = String::new();
    bootconf(&ic, &mut c, &false).unwrap();
    assert_eq!(c.os_boot_xml, "");
}

#[test]
fn a_blank_domain() {
    let c = BackendConfig::new("aarch64");
    assert_eq!(c.domain_type, "kvm");
    assert_eq!(c.os_arch, "aarch64");
    assert_eq!(c.memory_kib, 0);
    assert!(c.devices_xml.is_empty());
    assert!(c.to_xml().starts_with("<domain type='kvm'>\n  <name></name>\n"));
    assert_eq!(domain_name("x"), "runphi-x");
}

#[test]
fn paths_are_resolved_against_the_root_file_system() {
    let mut ic = image();
    ic.inmate = "/boot/Image".to_string();
    ic.disk_image = "boot/rootfs.img".to_string();
    ic.kernel = "/k".to_string();
    ic.resolve_paths("/mnt");
    assert_eq!(ic.inmate, "/mnt/boot/Image");
    assert_eq!(ic.disk_image, "/mnt/boot/rootfs.img");
    assert_eq!(ic.ramdisk, "");
    assert_eq!(ic.dtb, "");
    assert_eq!(ic.kernel, "/k");
}

#[test]
fn what_is_generated_is_what_is_created_and_removed() {
    let fc = container("{}");
    let mut ic = image();
    ic.disk_type = "lvm".to_string();
    let files = config_generate(&fc, &ic, &host()).unwrap();
    let note = files.disk.unwrap();

    let first = guest::Stage::FindDisk;
    match first.action(&fc) {
        guest::Action::Read(path) => assert_eq!(path, note.path),
        other => panic!("{:?}", other),
    }
    let answer = guest::Answer::File(Ok(Some(note.content.clone())));
    match guest::createguest(&fc, &ic, first, answer) {
        guest::Stage::Provision { lv, size_mb } => {
            assert_eq!(lv, "/dev/vg0/lv_c1");
            assert_eq!(size_mb, "194");
        }
        other => panic!("{:?}", other),
    }
    match guest::Stage::Define.action(&fc) {
        guest::Action::Run(command) => assert_eq!(command.args[1], files.domain.path),
        other => panic!("{:?}", other),
    }
    let name = format!("<name>{}</name>", guest::start_command("c1").args[1]);
    assert!(files.domain.content.contains(&name));

    let answer = guest::Answer::File(Ok(Some(note.content)));
    match teardown::destroyguest(teardown::Stage::FindDisk, answer) {
        teardown::Stage::RemoveVolume(lv) => assert_eq!(lv, "/dev/vg0/lv_c1"),
        other => panic!("{:?}", other),
    }
}

#[test]
fn a_guest_with_more_cpus_than_its_quota() {
    let quota = r#"{"linux": {"resources": {"cpu": {"quota": 150000, "period": 100000}}}}"#;
    let cpu = HostCpu { arch: "x86_64".to_string(), has_kvm: true, real_cpus: 7 };
    let limit = container_cpus(&container(quota), &cpu);
    assert_eq!(limit, 2);
    let mut ic = image();
    assert_eq!(allocated_vcpus(&ic, limit), 2);
    assert!(!exceeds_quota(&ic, limit));
    ic.vcpus = 3;
    assert!(exceeds_quota(&ic, limit));
    ic.vcpus = 2;
    assert!(!exceeds_quota(&ic, limit));
    ic.vcpus = 99;
    assert!(!exceeds_quota(&ic, 0));
}

#[test]
fn the_default_domain_has_no_part() {
    let c = BackendConfig::default();
    assert_eq!(c.domain_type, "");
    assert_eq!(c.os_arch, "");
    assert_eq!(c.memory_kib, 0);
    assert_eq!(c.vcpus, 0);
    assert!(c.devices_xml.is_empty());
}
