//! The libvirt domain of a guest: its parts, and the XML document that `virsh` takes.
use vstd::prelude::*;

use crate::actions::{join_path, path_in, FileText, FileWrite};
use crate::config_generator::boot::{boot_xml, bootconf, has_root_disk};
use crate::config_generator::cpu::{cpuconf, with_cpus, HostCpu};
use crate::config_generator::disk::{
    disk_available, disk_error, disk_file, diskconf, file_disk, file_text, kind_of, lv_of,
    lvm_disk, with_disk, HostDisk,
};
use crate::config_generator::network::{
    law_networking_adds_one_device, net_enabled, netconf, spelt_in_ascii, with_network, HostNetwork,
};
use crate::decimal::{digits, print_u64};
use crate::frontend::{FrontendConfig, ImageConfig};
use crate::json::{at, json_of, member, u64_in, Json};
use crate::text::{is_word, join_strings, matches_word, occurs_at, occurs_in, strings};

pub mod boot;
pub mod cpu;
pub mod disk;
pub mod network;

verus! {

broadcast use vstd::string::group_string_axioms;

/// Why the domain of a guest cannot be generated.
#[derive(Debug)]
pub enum ConfigError {
    /// A file disk is wanted, and no image is named.
    DiskImageNotNamed,
    /// This disk image does not exist.
    DiskImageNotFound(String),
    /// There is no such kind of disk.
    UnknownDiskType(String),
    /// The disk is smaller than what it has to hold.
    DiskTooSmall {
        /// Wanted size in MB.
        disk_size: u64,
        /// Size of the root file system in MB.
        rootfs_mb: u64,
    },
    /// The volume group has no room for the disk.
    VolumeGroupFull {
        /// The volume group.
        vg: String,
        /// Size of the disk in MB.
        size_mb: u64,
        /// Free space in MB.
        free_mb: u64,
    },
}

/// What is said of an error.
pub open spec fn error_message(e: ConfigError) -> Seq<char> {
    match e {
        ConfigError::DiskImageNotNamed =>
            "disk_type=\"file\" requires disk_image in boot/config.json"@,
        ConfigError::DiskImageNotFound(image) => "disk image "@ + image@
            + " not found in container rootfs"@,
        ConfigError::UnknownDiskType(disk_type) => "unknown disk_type \""@ + disk_type@
            + "\" in boot/config.json (expected \"\", \"file\" or \"lvm\")"@,
        ConfigError::DiskTooSmall { disk_size, rootfs_mb } => "disk_size "@ + digits(
            disk_size as nat,
        ) + " MB is smaller than the container rootfs ("@ + digits(rootfs_mb as nat) + " MB)"@,
        ConfigError::VolumeGroupFull { vg, size_mb, free_mb } =>
            "not enough free space in volume group "@ + vg@ + ": need "@ + digits(size_mb as nat)
            + " MB, have "@ + digits(free_mb as nat) + " MB"@,
    }
}

impl ConfigError {
    /// What is said of the error.
    pub fn message(&self) -> (r: String)
        ensures
            r@ == error_message(*self),
    {
        match self {
            ConfigError::DiskImageNotNamed =>
                "disk_type=\"file\" requires disk_image in boot/config.json".to_owned(),
            ConfigError::DiskImageNotFound(image) => "disk image ".to_owned().concat(
                image.as_str(),
            ).concat(" not found in container rootfs"),
            ConfigError::UnknownDiskType(disk_type) => "unknown disk_type \"".to_owned().concat(
                disk_type.as_str(),
            ).concat("\" in boot/config.json (expected \"\", \"file\" or \"lvm\")"),
            ConfigError::DiskTooSmall { disk_size, rootfs_mb } => "disk_size ".to_owned().concat(
                print_u64(*disk_size).as_str(),
            ).concat(" MB is smaller than the container rootfs (").concat(
                print_u64(*rootfs_mb).as_str(),
            ).concat(" MB)"),
            ConfigError::VolumeGroupFull { vg, size_mb, free_mb } =>
                "not enough free space in volume group ".to_owned().concat(vg.as_str()).concat(
                ": need ",
            ).concat(print_u64(*size_mb).as_str()).concat(" MB, have ").concat(
                print_u64(*free_mb).as_str(),
            ).concat(" MB"),
        }
    }
}

/// The parts of a domain.
#[derive(Debug)]
pub struct BackendConfig {
    /// `kvm` or `qemu`.
    pub domain_type: String,
    /// Name of the domain.
    pub name: String,
    /// Memory in KiB.
    pub memory_kib: u64,
    /// Number of virtual CPUs.
    pub vcpus: u32,
    /// `<cputune>` with the `<vcpupin>` mappings.
    pub cputune_xml: String,
    /// `<cpu mode='...'>`.
    pub cpu_xml: String,
    /// `x86_64` or `aarch64`.
    pub os_arch: String,
    /// `q35` or `virt`.
    pub os_machine: String,
    /// `<kernel>`, `<initrd>`, `<dtb>`, `<cmdline>`.
    pub os_boot_xml: String,
    /// `<acpi/>`, `<apic/>`, `<gic/>`.
    pub features_xml: String,
    /// Disks, network interfaces, serial devices.
    pub devices_xml: Vec<String>,
    /// File that receives the document.
    pub xml_file: String,
}

/// The parts of a domain, as texts.
#[verifier::ext_equal]
pub struct Domain {
    pub domain_type: Seq<char>,
    pub name: Seq<char>,
    pub memory_kib: u64,
    pub vcpus: u32,
    pub cputune_xml: Seq<char>,
    pub cpu_xml: Seq<char>,
    pub os_arch: Seq<char>,
    pub os_machine: Seq<char>,
    pub os_boot_xml: Seq<char>,
    pub features_xml: Seq<char>,
    pub devices_xml: Seq<Seq<char>>,
    pub xml_file: Seq<char>,
}

impl View for BackendConfig {
    type V = Domain;

    open spec fn view(&self) -> Domain {
        Domain {
            domain_type: self.domain_type@,
            name: self.name@,
            memory_kib: self.memory_kib,
            vcpus: self.vcpus,
            cputune_xml: self.cputune_xml@,
            cpu_xml: self.cpu_xml@,
            os_arch: self.os_arch@,
            os_machine: self.os_machine@,
            os_boot_xml: self.os_boot_xml@,
            features_xml: self.features_xml@,
            devices_xml: strings(self.devices_xml@),
            xml_file: self.xml_file@,
        }
    }
}

/// The domain without any part.
pub open spec fn empty_domain() -> Domain {
    Domain {
        domain_type: Seq::empty(),
        name: Seq::empty(),
        memory_kib: 0,
        vcpus: 0,
        cputune_xml: Seq::empty(),
        cpu_xml: Seq::empty(),
        os_arch: Seq::empty(),
        os_machine: Seq::empty(),
        os_boot_xml: Seq::empty(),
        features_xml: Seq::empty(),
        devices_xml: Seq::empty(),
        xml_file: Seq::empty(),
    }
}

/// The domain before any of its parts is known, on a host of architecture `arch`.
pub open spec fn blank_domain(arch: Seq<char>) -> Domain {
    Domain { domain_type: "kvm"@, os_arch: arch, ..empty_domain() }
}

/// The XML document of a domain.
pub open spec fn domain_xml(d: Domain) -> Seq<char> {
    "<domain type='"@ + d.domain_type + "'>\n  <name>"@ + d.name
        + "</name>\n  <memory unit='KiB'>"@ + digits(d.memory_kib as nat)
        + "</memory>\n  <vcpu placement='static'>"@ + digits(d.vcpus as nat)
        + "</vcpu>\n  "@ + d.cputune_xml + "\n  <os>\n    <type arch='"@ + d.os_arch
        + "' machine='"@ + d.os_machine + "'>hvm</type>\n    "@ + d.os_boot_xml
        + "\n  </os>\n  <features>\n    "@ + d.features_xml + "\n  </features>\n  "@ + d.cpu_xml
        + "\n  <seclabel type='static' model='dac' relabel='no'>\n    <label>root:root</label>\n  </seclabel>\n  <on_poweroff>destroy</on_poweroff>\n  <on_reboot>destroy</on_reboot>\n  <on_crash>destroy</on_crash>\n  <devices>\n    <emulator>/usr/bin/qemu-system-"@
        + d.os_arch + "</emulator>\n    "@ + crate::text::join(d.devices_xml, "\n    "@)
        + "\n  </devices>\n</domain>"@
}

impl Default for BackendConfig {
    /// The domain without any part.
    fn default() -> (r: Self)
        ensures
            r@ == empty_domain(),
    {
        let r = BackendConfig {
            domain_type: String::new(),
            name: String::new(),
            memory_kib: 0,
            vcpus: 0,
            cputune_xml: String::new(),
            cpu_xml: String::new(),
            os_arch: String::new(),
            os_machine: String::new(),
            os_boot_xml: String::new(),
            features_xml: String::new(),
            devices_xml: Vec::new(),
            xml_file: String::new(),
        };
        assert(r@ =~= empty_domain());
        r
    }
}

impl BackendConfig {
    /// A domain of which no part is known yet, on a host of architecture `arch`.
    pub fn new(arch: &str) -> (r: Self)
        ensures
            r@ == blank_domain(arch@),
    {
        let mut r = BackendConfig::default();
        r.domain_type = "kvm".to_owned();
        r.os_arch = arch.to_owned();
        assert(r@ =~= blank_domain(arch@));
        r
    }

    /// Assembles the parts into the domain document for `virsh`.
    pub fn to_xml(&self) -> (r: String)
        ensures
            r@ == domain_xml(self@),
    {
        let devices = join_strings(&self.devices_xml, "\n    ");
        "<domain type='".to_owned().concat(self.domain_type.as_str()).concat("'>\n  <name>").concat(
            self.name.as_str(),
        ).concat("</name>\n  <memory unit='KiB'>").concat(
            print_u64(self.memory_kib).as_str(),
        ).concat("</memory>\n  <vcpu placement='static'>").concat(
            print_u64(self.vcpus as u64).as_str(),
        ).concat("</vcpu>\n  ").concat(self.cputune_xml.as_str()).concat(
            "\n  <os>\n    <type arch='",
        ).concat(self.os_arch.as_str()).concat("' machine='").concat(
            self.os_machine.as_str(),
        ).concat("'>hvm</type>\n    ").concat(self.os_boot_xml.as_str()).concat(
            "\n  </os>\n  <features>\n    ",
        ).concat(self.features_xml.as_str()).concat("\n  </features>\n  ").concat(
            self.cpu_xml.as_str(),
        ).concat(
            "\n  <seclabel type='static' model='dac' relabel='no'>\n    <label>root:root</label>\n  </seclabel>\n  <on_poweroff>destroy</on_poweroff>\n  <on_reboot>destroy</on_reboot>\n  <on_crash>destroy</on_crash>\n  <devices>\n    <emulator>/usr/bin/qemu-system-",
        ).concat(self.os_arch.as_str()).concat("</emulator>\n    ").concat(
            devices.as_str(),
        ).concat("\n  </devices>\n</domain>")
    }
}

// ---------------------------------------------------------------------------
// The domain of a guest
// ---------------------------------------------------------------------------

/// What the host says of a guest that is to be generated.
#[derive(Debug)]
pub struct Host {
    /// Of its CPUs.
    pub cpu: HostCpu,
    /// Of its root disk.
    pub disk: HostDisk,
    /// Of its network.
    pub network: HostNetwork,
}

/// Whether the guest is a Linux guest.
pub open spec fn runs_linux(ic: ImageConfig) -> bool {
    is_word(ic.os_var@, "linux"@)
}

/// The memory of a guest in MB: what the image says, or else the limit of the container, or else
/// 1024 for a Linux guest and 32 for any other.
pub open spec fn guest_memory_mb(fc: FrontendConfig, ic: ImageConfig) -> u64 {
    let default_mb = if runs_linux(ic) {
        1024
    } else {
        32
    };
    let limit = member(
        member(
            member(member(json_of(fc.jsonconfig), "linux"@), "resources"@),
            "memory"@,
        ),
        "limit"@,
    );
    if ic.memory > 0 {
        ic.memory
    } else {
        match u64_in(limit) {
            Some(bytes) => if bytes / 0x10_0000 > 0 {
                bytes / 0x10_0000
            } else {
                default_mb
            },
            None => default_mb,
        }
    }
}

/// Every guest has memory.
pub proof fn law_every_guest_has_memory(fc: FrontendConfig, ic: ImageConfig)
    ensures
        guest_memory_mb(fc, ic) > 0,
{
}

/// The name of the domain of a container.
pub open spec fn domain_name_of(containerid: Seq<char>) -> Seq<char> {
    "runphi-"@ + containerid
}

/// The name of the domain of a container.
pub fn domain_name(containerid: &str) -> (r: String)
    ensures
        r@ == domain_name_of(containerid@),
{
    "runphi-".to_owned().concat(containerid)
}

/// The serial port of a guest.
pub open spec fn serial_xml() -> Seq<char> {
    "<serial type='pty'>\n      <target type='isa-serial' port='0'/>\n    </serial>"@
}

/// The console of a guest.
pub open spec fn console_xml() -> Seq<char> {
    "<console type='pty'>\n      <target type='serial' port='0'/>\n    </console>"@
}

/// The domain of a guest: its name and its memory, its CPUs, what it boots, its root disk, its
/// network interface, and a serial console.
pub open spec fn guest_domain(fc: FrontendConfig, ic: ImageConfig, host: Host) -> Domain {
    let named = Domain {
        name: domain_name_of(fc.containerid@),
        xml_file: path_in(fc.crundir@, "domain.xml"@),
        memory_kib: (guest_memory_mb(fc, ic) * 1024) as u64,
        ..blank_domain(host.cpu.arch@)
    };
    let with_cpus = with_cpus(named, fc, ic, host.cpu);
    let with_boot = Domain { os_boot_xml: boot_xml(ic, runs_linux(ic)), ..with_cpus };
    let with_disk = with_disk(with_boot, fc, ic, host.disk);
    let with_network = with_network(with_disk, ic, host.network);
    Domain {
        devices_xml: with_network.devices_xml.push(serial_xml()).push(console_xml()),
        ..with_network
    }
}

/// The files that make up a generated guest.
#[derive(Debug)]
pub struct GuestFiles {
    /// Which logical volume is to be created, if one is.
    pub disk: Option<FileWrite>,
    /// The domain document.
    pub domain: FileWrite,
}

/// Generates the domain of a guest. The result is what is to be written to the state directory.
pub fn config_generate(fc: &FrontendConfig, ic: &ImageConfig, host: &Host) -> (r: Result<
    GuestFiles,
    ConfigError,
>)
    requires
        ic.memory * 1024 <= u64::MAX,
        kind_of(ic.disk_type@) is Lvm && ic.disk_size == 0 ==> host.disk.rootfs_mb * 13
            <= u64::MAX,
        disk_available(*ic, host.disk) ==> spelt_in_ascii(ic.net@),
    ensures
        match r {
            Ok(files) => disk_available(*ic, host.disk) && file_text(files.disk) == disk_file(
                *fc,
                *ic,
                host.disk,
            ) && files.domain@ == (FileText {
                path: path_in(fc.crundir@, "domain.xml"@),
                content: domain_xml(guest_domain(*fc, *ic, *host)),
            }),
            Err(e) => !disk_available(*ic, host.disk) && disk_error(*ic, host.disk, e),
        },
{
    let mut c = BackendConfig::new(host.cpu.arch.as_str());
    c.name = domain_name(fc.containerid.as_str());
    c.xml_file = join_path(fc.crundir.as_str(), "domain.xml");
    let is_linux: bool = matches_word(ic.os_var.as_str(), "linux");
    let default_mb: u64 = if is_linux {
        1024
    } else {
        32
    };
    let mem_mb: u64 = if ic.memory > 0 {
        ic.memory
    } else {
        match at(
            at(at(at(&fc.jsonconfig, "linux"), "resources"), "memory"),
            "limit",
        ).as_u64() {
            Some(bytes) => if bytes / (1024 * 1024) > 0 {
                bytes / (1024 * 1024)
            } else {
                default_mb
            },
            None => default_mb,
        }
    };
    assert(mem_mb == guest_memory_mb(*fc, *ic));
    c.memory_kib = mem_mb * 1024;
    match cpuconf(fc, ic, &mut c, &host.cpu) {
        Ok(()) => {},
        Err(e) => return Err(e),
    }
    match bootconf(ic, &mut c, &is_linux) {
        Ok(()) => {},
        Err(e) => return Err(e),
    }
    let disk = match diskconf(fc, &mut c, ic, &host.disk) {
        Ok(disk) => disk,
        Err(e) => return Err(e),
    };
    match netconf(fc, ic, &mut c, &host.network) {
        Ok(()) => {},
        Err(e) => return Err(e),
    }
    let ghost before = strings(c.devices_xml@);
    c.devices_xml.push(
        "<serial type='pty'>\n      <target type='isa-serial' port='0'/>\n    </serial>".to_owned(),
    );
    c.devices_xml.push(
        "<console type='pty'>\n      <target type='serial' port='0'/>\n    </console>".to_owned(),
    );
    assert(strings(c.devices_xml@) =~= before.push(serial_xml()).push(console_xml()));
    assert(c@ =~= guest_domain(*fc, *ic, *host));
    let content = c.to_xml();
    Ok(GuestFiles { disk, domain: FileWrite { path: c.xml_file, content } })
}

/// A Linux guest whose kernel is told to find its root on a disk has that disk, as its first
/// device; and a guest that has a disk is told so.
pub proof fn law_root_device_is_attached(fc: FrontendConfig, ic: ImageConfig, host: Host)
    requires
        disk_available(ic, host.disk),
    ensures
        has_root_disk(ic) <==> kind_of(ic.disk_type@) is File || kind_of(ic.disk_type@) is Lvm,
        kind_of(ic.disk_type@) is File ==> guest_domain(fc, ic, host).devices_xml[0] == file_disk(
            ic.disk_image@,
        ),
        kind_of(ic.disk_type@) is Lvm ==> guest_domain(fc, ic, host).devices_xml[0] == lvm_disk(
            lv_of(host.disk.vg@, fc.containerid@),
        ),
        !has_root_disk(ic) ==> guest_domain(fc, ic, host).devices_xml.len() == if net_enabled(
            ic.net@,
        ) {
            3int
        } else {
            2int
        },
{
    reveal_strlit("");
    reveal_strlit("file");
    reveal_strlit("lvm");
    assert(""@.len() == 0 && "file"@.len() == 4 && "lvm"@.len() == 3);
}

// ---------------------------------------------------------------------------
// What the document shows
// ---------------------------------------------------------------------------

/// Whether a text that depends on a value is, for every value, what `shown` makes of it between
/// `open` and `close`, in surroundings that do not depend on it.
pub open spec fn shows<T>(
    text: spec_fn(T) -> Seq<char>,
    shown: spec_fn(T) -> Seq<char>,
    open: Seq<char>,
    close: Seq<char>,
) -> bool {
    exists|before: Seq<char>, after: Seq<char>| #[trigger]
        is_framed(text, shown, open, close, before, after)
}

/// Whether a text that depends on a value is, for every value, what `shown` makes of it between
/// these surroundings.
pub open spec fn is_framed<T>(
    text: spec_fn(T) -> Seq<char>,
    shown: spec_fn(T) -> Seq<char>,
    open: Seq<char>,
    close: Seq<char>,
    before: Seq<char>,
    after: Seq<char>,
) -> bool {
    forall|v: T| #[trigger] text(v) == before + open + shown(v) + close + after
}

/// Whether the document of `d`, for every architecture, names it as that of the machine and of the
/// emulator, between these surroundings.
pub open spec fn is_shown_twice(
    d: Domain,
    before: Seq<char>,
    between: Seq<char>,
    after: Seq<char>,
) -> bool {
    forall|arch: Seq<char>| #[trigger]
        domain_xml(Domain { os_arch: arch, ..d }) == before + "<type arch='"@ + arch
            + "' machine='"@ + between + "<emulator>/usr/bin/qemu-system-"@ + arch
            + "</emulator>"@ + after
}

/// The architecture of a domain stands in the document twice, and nothing else depends on it: as
/// that of the machine, and in the name of the emulator. So two domains that differ in it have
/// different emulators.
pub proof fn law_emulator_is_that_of_the_architecture(d: Domain)
    ensures
        exists|before: Seq<char>, between: Seq<char>, after: Seq<char>| #[trigger]
            is_shown_twice(d, before, between, after),
{
    let ps = pieces_of(d);
    reveal_strlit("\n  <os>\n    <type arch='");
    reveal_strlit("\n  <os>\n    ");
    reveal_strlit("<type arch='");
    assert(ps[10] =~= "\n  <os>\n    "@ + "<type arch='"@);
    let rest = lemma_emulator_follows();
    reveal_strlit("</emulator>\n    ");
    reveal_strlit("</emulator>");
    reveal_strlit("\n    ");
    assert(ps[22] =~= "</emulator>"@ + "\n    "@);
    let before = front(ps, 10) + "\n  <os>\n    "@;
    let between = middle(ps, 13, 20) + rest;
    let after = "\n    "@ + back(ps, 23);
    assert forall|arch: Seq<char>| #[trigger] domain_xml(Domain { os_arch: arch, ..d }) == before
        + "<type arch='"@ + arch + "' machine='"@ + between + "<emulator>/usr/bin/qemu-system-"@
        + arch + "</emulator>"@ + after by {
        let v = Domain { os_arch: arch, ..d };
        let qs = pieces_of(v);
        lemma_document_is_its_pieces(v);
        lemma_cut(qs, 21);
        lemma_cut(qs, 11);
        lemma_same_front(ps, qs, 10);
        lemma_same_back(ps, qs, 23);
        lemma_front_and_middle(qs, 13, 20);
        lemma_same_middle(ps, qs, 13, 20);
        lemma_front_steps(qs);
        let head = front(ps, 10);
        let mid = middle(ps, 13, 20);
        let end = back(ps, 23);
        assert(front(qs, 21) == front(qs, 13) + mid + qs[20]);
        assert(front(qs, 13) == head + qs[10] + arch + qs[12]);
        assert(back(qs, 22) == qs[22] + end);
        assert(domain_xml(v) == front(qs, 21) + arch + back(qs, 22));
        lemma_regroup_twice(
            head,
            "\n  <os>\n    "@,
            "<type arch='"@,
            arch,
            "' machine='"@,
            mid,
            rest,
            "<emulator>/usr/bin/qemu-system-"@,
            "</emulator>"@,
            "\n    "@,
            end,
        );
    }
    assert(is_shown_twice(d, before, between, after));
}

proof fn lemma_emulator_follows() -> (rest: Seq<char>)
    ensures
        "\n  <seclabel type='static' model='dac' relabel='no'>\n    <label>root:root</label>\n  </seclabel>\n  <on_poweroff>destroy</on_poweroff>\n  <on_reboot>destroy</on_reboot>\n  <on_crash>destroy</on_crash>\n  <devices>\n    <emulator>/usr/bin/qemu-system-"@ == rest
            + "<emulator>/usr/bin/qemu-system-"@,
{
    reveal_strlit("\n  <seclabel type='static' model='dac' relabel='no'>\n    <label>root:root</label>\n  </seclabel>\n  <on_poweroff>destroy</on_poweroff>\n  <on_reboot>destroy</on_reboot>\n  <on_crash>destroy</on_crash>\n  <devices>\n    <emulator>/usr/bin/qemu-system-");
    reveal_strlit("<emulator>/usr/bin/qemu-system-");
    let big = "\n  <seclabel type='static' model='dac' relabel='no'>\n    <label>root:root</label>\n  </seclabel>\n  <on_poweroff>destroy</on_poweroff>\n  <on_reboot>destroy</on_reboot>\n  <on_crash>destroy</on_crash>\n  <devices>\n    <emulator>/usr/bin/qemu-system-"@;
    let rest = big.take(big.len() - 31);
    assert("<emulator>/usr/bin/qemu-system-"@.len() == 31);
    assert(big =~= rest + "<emulator>/usr/bin/qemu-system-"@);
    rest
}

/// The pieces of the document, in their order: fixed texts and the parts of the domain.
spec fn pieces_of(d: Domain) -> Seq<Seq<char>> {
    seq![
        "<domain type='"@,
        d.domain_type,
        "'>\n  <name>"@,
        d.name,
        "</name>\n  <memory unit='KiB'>"@,
        digits(d.memory_kib as nat),
        "</memory>\n  <vcpu placement='static'>"@,
        digits(d.vcpus as nat),
        "</vcpu>\n  "@,
        d.cputune_xml,
        "\n  <os>\n    <type arch='"@,
        d.os_arch,
        "' machine='"@,
        d.os_machine,
        "'>hvm</type>\n    "@,
        d.os_boot_xml,
        "\n  </os>\n  <features>\n    "@,
        d.features_xml,
        "\n  </features>\n  "@,
        d.cpu_xml,
        "\n  <seclabel type='static' model='dac' relabel='no'>\n    <label>root:root</label>\n  </seclabel>\n  <on_poweroff>destroy</on_poweroff>\n  <on_reboot>destroy</on_reboot>\n  <on_crash>destroy</on_crash>\n  <devices>\n    <emulator>/usr/bin/qemu-system-"@,
        d.os_arch,
        "</emulator>\n    "@,
        crate::text::join(d.devices_xml, "\n    "@),
        "\n  </devices>\n</domain>"@,
    ]
}

/// The first `n` pieces, one after the other.
spec fn front(ps: Seq<Seq<char>>, n: int) -> Seq<char>
    decreases n,
{
    if n <= 0 {
        Seq::empty()
    } else {
        front(ps, n - 1) + ps[n - 1]
    }
}

/// The pieces from the `n`-th on, one after the other.
spec fn back(ps: Seq<Seq<char>>, n: int) -> Seq<char>
    decreases ps.len() - n,
{
    if n >= ps.len() {
        Seq::empty()
    } else {
        ps[n] + back(ps, n + 1)
    }
}

/// The pieces from the `m`-th to the one before the `n`-th, one after the other.
spec fn middle(ps: Seq<Seq<char>>, m: int, n: int) -> Seq<char>
    decreases n - m,
{
    if n <= m {
        Seq::empty()
    } else {
        middle(ps, m, n - 1) + ps[n - 1]
    }
}

proof fn lemma_document_is_its_pieces(d: Domain)
    ensures
        domain_xml(d) == front(pieces_of(d), 25),
        pieces_of(d).len() == 25,
{
    reveal_with_fuel(front, 26);
    let ps = pieces_of(d);
    assert(front(ps, 1) =~= ps[0]);
}

proof fn lemma_front_steps(ps: Seq<Seq<char>>)
    ensures
        front(ps, 13) == front(ps, 10) + ps[10] + ps[11] + ps[12],
        front(ps, 21) == front(ps, 20) + ps[20],
{
    reveal_with_fuel(front, 4);
}

proof fn lemma_cut(ps: Seq<Seq<char>>, n: int)
    requires
        0 <= n < ps.len(),
    ensures
        front(ps, ps.len() as int) == front(ps, n) + ps[n] + back(ps, n + 1),
        n + 1 < ps.len() ==> back(ps, n + 1) == ps[n + 1] + back(ps, n + 2),
    decreases ps.len() - n,
{
    if n + 1 < ps.len() {
        lemma_cut(ps, n + 1);
        assert(front(ps, n + 1) == front(ps, n) + ps[n]);
        assert(front(ps, n) + ps[n] + ps[n + 1] + back(ps, n + 2) =~= front(ps, n) + ps[n] + (ps[n
            + 1] + back(ps, n + 2)));
    } else {
        assert(front(ps, n) + ps[n] + Seq::<char>::empty() =~= front(ps, n) + ps[n]);
    }
}

proof fn lemma_same_front(ps: Seq<Seq<char>>, qs: Seq<Seq<char>>, n: int)
    requires
        forall|i: int| 0 <= i < n ==> ps[i] == qs[i],
    ensures
        front(ps, n) == front(qs, n),
    decreases n,
{
    if n > 0 {
        lemma_same_front(ps, qs, n - 1);
    }
}

proof fn lemma_same_back(ps: Seq<Seq<char>>, qs: Seq<Seq<char>>, n: int)
    requires
        ps.len() == qs.len(),
        forall|i: int| n <= i < ps.len() ==> ps[i] == qs[i],
    ensures
        back(ps, n) == back(qs, n),
    decreases ps.len() - n,
{
    if n < ps.len() {
        lemma_same_back(ps, qs, n + 1);
    }
}

proof fn lemma_same_middle(ps: Seq<Seq<char>>, qs: Seq<Seq<char>>, m: int, n: int)
    requires
        forall|i: int| m <= i < n ==> ps[i] == qs[i],
    ensures
        middle(ps, m, n) == middle(qs, m, n),
    decreases n - m,
{
    if m < n {
        lemma_same_middle(ps, qs, m, n - 1);
    }
}

proof fn lemma_front_and_middle(ps: Seq<Seq<char>>, m: int, n: int)
    requires
        0 <= m <= n,
    ensures
        front(ps, n) == front(ps, m) + middle(ps, m, n),
    decreases n - m,
{
    if m < n {
        lemma_front_and_middle(ps, m, n - 1);
        assert(front(ps, m) + middle(ps, m, n - 1) + ps[n - 1] =~= front(ps, m) + (middle(
            ps,
            m,
            n - 1,
        ) + ps[n - 1]));
    } else {
        assert(front(ps, m) + Seq::<char>::empty() =~= front(ps, m));
    }
}

proof fn lemma_regroup_twice(
    head: Seq<char>,
    pre: Seq<char>,
    open: Seq<char>,
    v: Seq<char>,
    close: Seq<char>,
    mid: Seq<char>,
    rest: Seq<char>,
    reopen: Seq<char>,
    reclose: Seq<char>,
    post: Seq<char>,
    end: Seq<char>,
)
    ensures
        (head + (pre + open) + v + close) + mid + (rest + reopen) + v + ((reclose + post) + end)
            == (head + pre) + open + v + close + (mid + rest) + reopen + v + reclose + (post + end),
{
    assert(head + (pre + open) =~= (head + pre) + open);
    let x = (head + pre) + open + v + close;
    assert(x + mid + (rest + reopen) =~= x + (mid + rest) + reopen);
    let y = x + (mid + rest) + reopen + v;
    assert(y + ((reclose + post) + end) =~= y + reclose + (post + end));
}

/// A document in which one piece varies is that piece in surroundings that do not.
proof fn lemma_frame(
    ps: Seq<Seq<char>>,
    qs: Seq<Seq<char>>,
    i: int,
    pre: Seq<char>,
    open: Seq<char>,
    close: Seq<char>,
    post: Seq<char>,
)
    requires
        0 < i < ps.len() - 1,
        ps.len() == qs.len(),
        forall|k: int| 0 <= k < ps.len() && k != i ==> ps[k] == qs[k],
        ps[i - 1] == pre + open,
        ps[i + 1] == close + post,
    ensures
        front(qs, qs.len() as int) == (front(ps, i - 1) + pre) + open + qs[i] + close + (post + back(
            ps,
            i + 2,
        )),
{
    lemma_cut(qs, i);
    lemma_same_front(ps, qs, i - 1);
    lemma_same_back(ps, qs, i + 2);
    assert(front(qs, i) == front(ps, i - 1) + (pre + open));
    assert(front(ps, i - 1) + (pre + open) =~= (front(ps, i - 1) + pre) + open);
    let x = (front(ps, i - 1) + pre) + open + qs[i];
    assert(x + ((close + post) + back(ps, i + 2)) =~= x + close + (post + back(ps, i + 2)));
}

/// The kind of the domain stands in its first tag, and nothing else of the document depends on it.
pub proof fn law_document_shows_the_kind(d: Domain)
    ensures
        shows(
            |v: Seq<char>| domain_xml(Domain { domain_type: v, ..d }),
            |v: Seq<char>| v,
            "<domain type='"@,
            "'>"@,
        ),
{
    reveal_strlit("'>\n  <name>");
    reveal_strlit("'>");
    reveal_strlit("\n  <name>");
    let text = |v: Seq<char>| domain_xml(Domain { domain_type: v, ..d });
    let shown = |v: Seq<char>| v;
    let ps = pieces_of(d);
    let pre = Seq::<char>::empty();
    let post = "\n  <name>"@;
    assert(ps[0] =~= pre + "<domain type='"@);
    assert(ps[2] =~= "'>"@ + post);
    let before = front(ps, 0) + pre;
    let after = post + back(ps, 3);
    assert forall|v: Seq<char>| #[trigger] text(v) == before + "<domain type='"@ + shown(v) + "'>"@ + after by {
        let varied = Domain { domain_type: v, ..d };
        lemma_document_is_its_pieces(varied);
        lemma_frame(ps, pieces_of(varied), 1, pre, "<domain type='"@, "'>"@, post);
    }
    assert(is_framed(text, shown, "<domain type='"@, "'>"@, before, after));
}

/// The name of the domain is the content of its `name`, and nothing else of the document depends on it.
pub proof fn law_document_shows_the_name(d: Domain)
    ensures
        shows(
            |v: Seq<char>| domain_xml(Domain { name: v, ..d }),
            |v: Seq<char>| v,
            "<name>"@,
            "</name>"@,
        ),
{
    reveal_strlit("'>\n  <name>");
    reveal_strlit("'>\n  ");
    reveal_strlit("<name>");
    reveal_strlit("</name>\n  <memory unit='KiB'>");
    reveal_strlit("</name>");
    reveal_strlit("\n  <memory unit='KiB'>");
    let text = |v: Seq<char>| domain_xml(Domain { name: v, ..d });
    let shown = |v: Seq<char>| v;
    let ps = pieces_of(d);
    let pre = "'>\n  "@;
    let post = "\n  <memory unit='KiB'>"@;
    assert(ps[2] =~= pre + "<name>"@);
    assert(ps[4] =~= "</name>"@ + post);
    let before = front(ps, 2) + pre;
    let after = post + back(ps, 5);
    assert forall|v: Seq<char>| #[trigger] text(v) == before + "<name>"@ + shown(v) + "</name>"@ + after by {
        let varied = Domain { name: v, ..d };
        lemma_document_is_its_pieces(varied);
        lemma_frame(ps, pieces_of(varied), 3, pre, "<name>"@, "</name>"@, post);
    }
    assert(is_framed(text, shown, "<name>"@, "</name>"@, before, after));
}

/// The memory of the domain, in KiB, is the content of its `memory`, and nothing else of the document depends on it.
pub proof fn law_document_shows_the_memory(d: Domain)
    ensures
        shows(
            |v: u64| domain_xml(Domain { memory_kib: v, ..d }),
            |v: u64| digits(v as nat),
            "<memory unit='KiB'>"@,
            "</memory>"@,
        ),
{
    reveal_strlit("</name>\n  <memory unit='KiB'>");
    reveal_strlit("</name>\n  ");
    reveal_strlit("<memory unit='KiB'>");
    reveal_strlit("</memory>\n  <vcpu placement='static'>");
    reveal_strlit("</memory>");
    reveal_strlit("\n  <vcpu placement='static'>");
    let text = |v: u64| domain_xml(Domain { memory_kib: v, ..d });
    let shown = |v: u64| digits(v as nat);
    let ps = pieces_of(d);
    let pre = "</name>\n  "@;
    let post = "\n  <vcpu placement='static'>"@;
    assert(ps[4] =~= pre + "<memory unit='KiB'>"@);
    assert(ps[6] =~= "</memory>"@ + post);
    let before = front(ps, 4) + pre;
    let after = post + back(ps, 7);
    assert forall|v: u64| #[trigger] text(v) == before + "<memory unit='KiB'>"@ + shown(v) + "</memory>"@ + after by {
        let varied = Domain { memory_kib: v, ..d };
        lemma_document_is_its_pieces(varied);
        lemma_frame(ps, pieces_of(varied), 5, pre, "<memory unit='KiB'>"@, "</memory>"@, post);
    }
    assert(is_framed(text, shown, "<memory unit='KiB'>"@, "</memory>"@, before, after));
}

/// The number of virtual CPUs is the content of `vcpu`, and nothing else of the document depends on it.
pub proof fn law_document_shows_the_vcpus(d: Domain)
    ensures
        shows(
            |v: u32| domain_xml(Domain { vcpus: v, ..d }),
            |v: u32| digits(v as nat),
            "<vcpu placement='static'>"@,
            "</vcpu>"@,
        ),
{
    reveal_strlit("</memory>\n  <vcpu placement='static'>");
    reveal_strlit("</memory>\n  ");
    reveal_strlit("<vcpu placement='static'>");
    reveal_strlit("</vcpu>\n  ");
    reveal_strlit("</vcpu>");
    reveal_strlit("\n  ");
    let text = |v: u32| domain_xml(Domain { vcpus: v, ..d });
    let shown = |v: u32| digits(v as nat);
    let ps = pieces_of(d);
    let pre = "</memory>\n  "@;
    let post = "\n  "@;
    assert(ps[6] =~= pre + "<vcpu placement='static'>"@);
    assert(ps[8] =~= "</vcpu>"@ + post);
    let before = front(ps, 6) + pre;
    let after = post + back(ps, 9);
    assert forall|v: u32| #[trigger] text(v) == before + "<vcpu placement='static'>"@ + shown(v) + "</vcpu>"@ + after by {
        let varied = Domain { vcpus: v, ..d };
        lemma_document_is_its_pieces(varied);
        lemma_frame(ps, pieces_of(varied), 7, pre, "<vcpu placement='static'>"@, "</vcpu>"@, post);
    }
    assert(is_framed(text, shown, "<vcpu placement='static'>"@, "</vcpu>"@, before, after));
}

/// The pinning of CPUs stands behind their number, and nothing else of the document depends on it.
pub proof fn law_document_shows_the_pinning(d: Domain)
    ensures
        shows(
            |v: Seq<char>| domain_xml(Domain { cputune_xml: v, ..d }),
            |v: Seq<char>| v,
            "</vcpu>\n  "@,
            "\n  <os>"@,
        ),
{
    reveal_strlit("\n  <os>\n    <type arch='");
    reveal_strlit("\n  <os>");
    reveal_strlit("\n    <type arch='");
    let text = |v: Seq<char>| domain_xml(Domain { cputune_xml: v, ..d });
    let shown = |v: Seq<char>| v;
    let ps = pieces_of(d);
    let pre = Seq::<char>::empty();
    let post = "\n    <type arch='"@;
    assert(ps[8] =~= pre + "</vcpu>\n  "@);
    assert(ps[10] =~= "\n  <os>"@ + post);
    let before = front(ps, 8) + pre;
    let after = post + back(ps, 11);
    assert forall|v: Seq<char>| #[trigger] text(v) == before + "</vcpu>\n  "@ + shown(v) + "\n  <os>"@ + after by {
        let varied = Domain { cputune_xml: v, ..d };
        lemma_document_is_its_pieces(varied);
        lemma_frame(ps, pieces_of(varied), 9, pre, "</vcpu>\n  "@, "\n  <os>"@, post);
    }
    assert(is_framed(text, shown, "</vcpu>\n  "@, "\n  <os>"@, before, after));
}

/// The machine stands in the tag `type`, and nothing else of the document depends on it.
pub proof fn law_document_shows_the_machine(d: Domain)
    ensures
        shows(
            |v: Seq<char>| domain_xml(Domain { os_machine: v, ..d }),
            |v: Seq<char>| v,
            "' machine='"@,
            "'>hvm</type>"@,
        ),
{
    reveal_strlit("'>hvm</type>\n    ");
    reveal_strlit("'>hvm</type>");
    reveal_strlit("\n    ");
    let text = |v: Seq<char>| domain_xml(Domain { os_machine: v, ..d });
    let shown = |v: Seq<char>| v;
    let ps = pieces_of(d);
    let pre = Seq::<char>::empty();
    let post = "\n    "@;
    assert(ps[12] =~= pre + "' machine='"@);
    assert(ps[14] =~= "'>hvm</type>"@ + post);
    let before = front(ps, 12) + pre;
    let after = post + back(ps, 15);
    assert forall|v: Seq<char>| #[trigger] text(v) == before + "' machine='"@ + shown(v) + "'>hvm</type>"@ + after by {
        let varied = Domain { os_machine: v, ..d };
        lemma_document_is_its_pieces(varied);
        lemma_frame(ps, pieces_of(varied), 13, pre, "' machine='"@, "'>hvm</type>"@, post);
    }
    assert(is_framed(text, shown, "' machine='"@, "'>hvm</type>"@, before, after));
}

/// What the guest boots stands behind its type, inside `os`, and nothing else of the document depends on it.
pub proof fn law_document_shows_the_boot(d: Domain)
    ensures
        shows(
            |v: Seq<char>| domain_xml(Domain { os_boot_xml: v, ..d }),
            |v: Seq<char>| v,
            "'>hvm</type>\n    "@,
            "\n  </os>"@,
        ),
{
    reveal_strlit("\n  </os>\n  <features>\n    ");
    reveal_strlit("\n  </os>");
    reveal_strlit("\n  <features>\n    ");
    let text = |v: Seq<char>| domain_xml(Domain { os_boot_xml: v, ..d });
    let shown = |v: Seq<char>| v;
    let ps = pieces_of(d);
    let pre = Seq::<char>::empty();
    let post = "\n  <features>\n    "@;
    assert(ps[14] =~= pre + "'>hvm</type>\n    "@);
    assert(ps[16] =~= "\n  </os>"@ + post);
    let before = front(ps, 14) + pre;
    let after = post + back(ps, 17);
    assert forall|v: Seq<char>| #[trigger] text(v) == before + "'>hvm</type>\n    "@ + shown(v) + "\n  </os>"@ + after by {
        let varied = Domain { os_boot_xml: v, ..d };
        lemma_document_is_its_pieces(varied);
        lemma_frame(ps, pieces_of(varied), 15, pre, "'>hvm</type>\n    "@, "\n  </os>"@, post);
    }
    assert(is_framed(text, shown, "'>hvm</type>\n    "@, "\n  </os>"@, before, after));
}

/// The features are the content of `features`, and nothing else of the document depends on it.
pub proof fn law_document_shows_the_features(d: Domain)
    ensures
        shows(
            |v: Seq<char>| domain_xml(Domain { features_xml: v, ..d }),
            |v: Seq<char>| v,
            "<features>\n    "@,
            "\n  </features>"@,
        ),
{
    reveal_strlit("\n  </os>\n  <features>\n    ");
    reveal_strlit("\n  </os>\n  ");
    reveal_strlit("<features>\n    ");
    reveal_strlit("\n  </features>\n  ");
    reveal_strlit("\n  </features>");
    reveal_strlit("\n  ");
    let text = |v: Seq<char>| domain_xml(Domain { features_xml: v, ..d });
    let shown = |v: Seq<char>| v;
    let ps = pieces_of(d);
    let pre = "\n  </os>\n  "@;
    let post = "\n  "@;
    assert(ps[16] =~= pre + "<features>\n    "@);
    assert(ps[18] =~= "\n  </features>"@ + post);
    let before = front(ps, 16) + pre;
    let after = post + back(ps, 19);
    assert forall|v: Seq<char>| #[trigger] text(v) == before + "<features>\n    "@ + shown(v) + "\n  </features>"@ + after by {
        let varied = Domain { features_xml: v, ..d };
        lemma_document_is_its_pieces(varied);
        lemma_frame(ps, pieces_of(varied), 17, pre, "<features>\n    "@, "\n  </features>"@, post);
    }
    assert(is_framed(text, shown, "<features>\n    "@, "\n  </features>"@, before, after));
}

/// The CPU stands behind the features, and nothing else of the document depends on it.
pub proof fn law_document_shows_the_cpu(d: Domain)
    ensures
        shows(
            |v: Seq<char>| domain_xml(Domain { cpu_xml: v, ..d }),
            |v: Seq<char>| v,
            "</features>\n  "@,
            "\n  <seclabel type='static' model='dac' relabel='no'>"@,
        ),
{
    reveal_strlit("\n  </features>\n  ");
    reveal_strlit("\n  ");
    reveal_strlit("</features>\n  ");
    reveal_strlit("\n  <seclabel type='static' model='dac' relabel='no'>\n    <label>root:root</label>\n  </seclabel>\n  <on_poweroff>destroy</on_poweroff>\n  <on_reboot>destroy</on_reboot>\n  <on_crash>destroy</on_crash>\n  <devices>\n    <emulator>/usr/bin/qemu-system-");
    reveal_strlit("\n  <seclabel type='static' model='dac' relabel='no'>");
    reveal_strlit("\n    <label>root:root</label>\n  </seclabel>\n  <on_poweroff>destroy</on_poweroff>\n  <on_reboot>destroy</on_reboot>\n  <on_crash>destroy</on_crash>\n  <devices>\n    <emulator>/usr/bin/qemu-system-");
    let text = |v: Seq<char>| domain_xml(Domain { cpu_xml: v, ..d });
    let shown = |v: Seq<char>| v;
    let ps = pieces_of(d);
    let pre = "\n  "@;
    let post = "\n    <label>root:root</label>\n  </seclabel>\n  <on_poweroff>destroy</on_poweroff>\n  <on_reboot>destroy</on_reboot>\n  <on_crash>destroy</on_crash>\n  <devices>\n    <emulator>/usr/bin/qemu-system-"@;
    assert(ps[18] =~= pre + "</features>\n  "@);
    assert(ps[20] =~= "\n  <seclabel type='static' model='dac' relabel='no'>"@ + post);
    let before = front(ps, 18) + pre;
    let after = post + back(ps, 21);
    assert forall|v: Seq<char>| #[trigger] text(v) == before + "</features>\n  "@ + shown(v) + "\n  <seclabel type='static' model='dac' relabel='no'>"@ + after by {
        let varied = Domain { cpu_xml: v, ..d };
        lemma_document_is_its_pieces(varied);
        lemma_frame(ps, pieces_of(varied), 19, pre, "</features>\n  "@, "\n  <seclabel type='static' model='dac' relabel='no'>"@, post);
    }
    assert(is_framed(text, shown, "</features>\n  "@, "\n  <seclabel type='static' model='dac' relabel='no'>"@, before, after));
}

/// The devices stand behind the emulator, in their order, one below the other, and nothing else of the document depends on it.
pub proof fn law_document_shows_the_devices(d: Domain)
    ensures
        shows(
            |v: Seq<Seq<char>>| domain_xml(Domain { devices_xml: v, ..d }),
            |v: Seq<Seq<char>>| crate::text::join(v, "\n    "@),
            "</emulator>\n    "@,
            "\n  </devices>\n</domain>"@,
        ),
{
    let text = |v: Seq<Seq<char>>| domain_xml(Domain { devices_xml: v, ..d });
    let shown = |v: Seq<Seq<char>>| crate::text::join(v, "\n    "@);
    let ps = pieces_of(d);
    let pre = Seq::<char>::empty();
    let post = Seq::<char>::empty();
    assert(ps[22] =~= pre + "</emulator>\n    "@);
    assert(ps[24] =~= "\n  </devices>\n</domain>"@ + post);
    let before = front(ps, 22) + pre;
    let after = post + back(ps, 25);
    assert forall|v: Seq<Seq<char>>| #[trigger] text(v) == before + "</emulator>\n    "@ + shown(v) + "\n  </devices>\n</domain>"@ + after by {
        let varied = Domain { devices_xml: v, ..d };
        lemma_document_is_its_pieces(varied);
        lemma_frame(ps, pieces_of(varied), 23, pre, "</emulator>\n    "@, "\n  </devices>\n</domain>"@, post);
    }
    assert(is_framed(text, shown, "</emulator>\n    "@, "\n  </devices>\n</domain>"@, before, after));
}

/// A guest ends with its domain: when it powers off, reboots or crashes, the domain is destroyed. It
/// runs as root.
pub proof fn law_a_guest_ends_with_its_domain(d: Domain)
    ensures
        occurs_in("<on_poweroff>destroy</on_poweroff>"@, domain_xml(d)),
        occurs_in("<on_reboot>destroy</on_reboot>"@, domain_xml(d)),
        occurs_in("<on_crash>destroy</on_crash>"@, domain_xml(d)),
        occurs_in("<label>root:root</label>"@, domain_xml(d)),
{
    let ps = pieces_of(d);
    lemma_document_is_its_pieces(d);
    lemma_cut(ps, 20);
    lemma_fixed_part();
    let i = choose|i: int| #[trigger] occurs_at("<on_poweroff>destroy</on_poweroff>"@, ps[20], i);
    lemma_occurs_within("<on_poweroff>destroy</on_poweroff>"@, ps[20], front(ps, 20), back(ps, 21), i);
    let i = choose|i: int| #[trigger] occurs_at("<on_reboot>destroy</on_reboot>"@, ps[20], i);
    lemma_occurs_within("<on_reboot>destroy</on_reboot>"@, ps[20], front(ps, 20), back(ps, 21), i);
    let i = choose|i: int| #[trigger] occurs_at("<on_crash>destroy</on_crash>"@, ps[20], i);
    lemma_occurs_within("<on_crash>destroy</on_crash>"@, ps[20], front(ps, 20), back(ps, 21), i);
    let i = choose|i: int| #[trigger] occurs_at("<label>root:root</label>"@, ps[20], i);
    lemma_occurs_within("<label>root:root</label>"@, ps[20], front(ps, 20), back(ps, 21), i);
}

proof fn lemma_fixed_part()
    ensures
        ({
            let big = "\n  <seclabel type='static' model='dac' relabel='no'>\n    <label>root:root</label>\n  </seclabel>\n  <on_poweroff>destroy</on_poweroff>\n  <on_reboot>destroy</on_reboot>\n  <on_crash>destroy</on_crash>\n  <devices>\n    <emulator>/usr/bin/qemu-system-"@;
            &&& occurs_in("<on_poweroff>destroy</on_poweroff>"@, big)
            &&& occurs_in("<on_reboot>destroy</on_reboot>"@, big)
            &&& occurs_in("<on_crash>destroy</on_crash>"@, big)
            &&& occurs_in("<label>root:root</label>"@, big)
        }),
{
    reveal_strlit("\n  <seclabel type='static' model='dac' relabel='no'>\n    <label>root:root</label>\n  </seclabel>\n  <on_poweroff>destroy</on_poweroff>\n  <on_reboot>destroy</on_reboot>\n  <on_crash>destroy</on_crash>\n  <devices>\n    <emulator>/usr/bin/qemu-system-");
    reveal_strlit("<on_poweroff>destroy</on_poweroff>");
    reveal_strlit("<on_reboot>destroy</on_reboot>");
    reveal_strlit("<on_crash>destroy</on_crash>");
    reveal_strlit("<label>root:root</label>");
    let big = "\n  <seclabel type='static' model='dac' relabel='no'>\n    <label>root:root</label>\n  </seclabel>\n  <on_poweroff>destroy</on_poweroff>\n  <on_reboot>destroy</on_reboot>\n  <on_crash>destroy</on_crash>\n  <devices>\n    <emulator>/usr/bin/qemu-system-"@;
    let part = "<on_poweroff>destroy</on_poweroff>"@;
    assert(big.subrange(98, 132) =~= part);
    assert(occurs_at(part, big, 98));
    let part = "<on_reboot>destroy</on_reboot>"@;
    assert(big.subrange(135, 165) =~= part);
    assert(occurs_at(part, big, 135));
    let part = "<on_crash>destroy</on_crash>"@;
    assert(big.subrange(168, 196) =~= part);
    assert(occurs_at(part, big, 168));
    let part = "<label>root:root</label>"@;
    assert(big.subrange(57, 81) =~= part);
    assert(occurs_at(part, big, 57));
}

proof fn lemma_occurs_within(
    part: Seq<char>,
    middle: Seq<char>,
    before: Seq<char>,
    after: Seq<char>,
    i: int,
)
    requires
        0 <= i <= middle.len() - part.len(),
        middle.subrange(i, i + part.len()) =~= part,
    ensures
        occurs_in(part, before + middle + after),
{
    let whole = before + middle + after;
    let k = before.len() + i;
    assert forall|j: int| 0 <= j < part.len() implies whole[k + j] == #[trigger] part[j] by {
        assert(part[j] == middle.subrange(i, i + part.len())[j]);
    }
    assert(whole.subrange(k, k + part.len()) =~= part);
    assert(occurs_at(part, whole, k));
}

// ---------------------------------------------------------------------------
// What every guest is made of
// ---------------------------------------------------------------------------

/// The memory of a guest is what its image asks for, whatever its system. Where the image asks for
/// none, it is the limit of the container, in whole MB. Where that is less than one MB or missing,
/// it is 1024 MB for a Linux guest and 32 MB for any other.
pub proof fn law_memory_of_a_guest(fc: FrontendConfig, ic: ImageConfig, host: Host)
    requires
        ic.memory * 1024 <= u64::MAX,
    ensures
        ({
            let kib = guest_domain(fc, ic, host).memory_kib;
            let limit = member(
                member(
                    member(member(json_of(fc.jsonconfig), "linux"@), "resources"@),
                    "memory"@,
                ),
                "limit"@,
            );
            let given = limit matches Json::PosInt(bytes) && bytes >= 1024 * 1024;
            &&& ic.memory > 0 ==> kib == ic.memory * 1024
            &&& ic.memory == 0 && given ==> kib % 1024 == 0 && kib * 1024 <= limit->PosInt_0 < (kib
                + 1024) * 1024
            &&& ic.memory == 0 && !given && is_word(ic.os_var@, "linux"@) ==> kib == 1024 * 1024
            &&& ic.memory == 0 && !given && !is_word(ic.os_var@, "linux"@) ==> kib == 32 * 1024
        }),
{
    let limit = member(
        member(member(member(json_of(fc.jsonconfig), "linux"@), "resources"@), "memory"@),
        "limit"@,
    );
    if let Json::PosInt(bytes) = limit {
        assert(bytes / 0x10_0000 * 1024 <= u64::MAX);
    }
}

/// A guest bears the name of its container and is written to the state directory. Its devices are
/// its root disk, if it has one, then its network interface, if it has one, then the serial port and
/// the console. What it boots follows from its system and its image.
pub proof fn law_parts_of_a_guest(fc: FrontendConfig, ic: ImageConfig, host: Host)
    ensures
        ({
            let d = guest_domain(fc, ic, host);
            let none = Domain { devices_xml: Seq::empty(), ..d };
            let disk = with_disk(none, fc, ic, host.disk).devices_xml;
            let network = with_network(none, ic, host.network).devices_xml;
            &&& d.name == "runphi-"@ + fc.containerid@
            &&& d.xml_file == path_in(fc.crundir@, "domain.xml"@)
            &&& d.os_boot_xml == boot_xml(ic, is_word(ic.os_var@, "linux"@))
            &&& d.devices_xml == disk + network + seq![
                "<serial type='pty'>\n      <target type='isa-serial' port='0'/>\n    </serial>"@,
                "<console type='pty'>\n      <target type='serial' port='0'/>\n    </console>"@,
            ]
        }),
{
    let d = guest_domain(fc, ic, host);
    let none = Domain { devices_xml: Seq::empty(), ..d };
    law_networking_adds_one_device(none, ic, host.network);
    let disk = with_disk(none, fc, ic, host.disk).devices_xml;
    let network = with_network(none, ic, host.network).devices_xml;
    assert(d.devices_xml =~= disk + network + seq![serial_xml(), console_xml()]);
}

/// The CPUs of a guest are those that its image and its host give to a domain of which nothing else
/// is known: neither its disk nor its network nor its memory matters to them.
pub proof fn law_cpus_of_a_guest(fc: FrontendConfig, ic: ImageConfig, host: Host)
    ensures
        ({
            let d = guest_domain(fc, ic, host);
            let cpus = with_cpus(blank_domain(host.cpu.arch@), fc, ic, host.cpu);
            &&& d.vcpus == cpus.vcpus
            &&& d.cputune_xml == cpus.cputune_xml
            &&& d.domain_type == cpus.domain_type
            &&& d.cpu_xml == cpus.cpu_xml
            &&& d.os_arch == cpus.os_arch
            &&& d.os_machine == cpus.os_machine
            &&& d.features_xml == cpus.features_xml
        }),
{
}

/// A blank domain is one for KVM on the architecture of the host, and has no part yet.
pub proof fn law_blank_domain(arch: Seq<char>)
    ensures
        blank_domain(arch) == (Domain { domain_type: "kvm"@, os_arch: arch, ..empty_domain() }),
        empty_domain().name.len() == 0 && empty_domain().cputune_xml.len() == 0
            && empty_domain().cpu_xml.len() == 0 && empty_domain().os_machine.len() == 0
            && empty_domain().os_boot_xml.len() == 0 && empty_domain().features_xml.len() == 0
            && empty_domain().devices_xml.len() == 0 && empty_domain().xml_file.len() == 0
            && empty_domain().domain_type.len() == 0 && empty_domain().os_arch.len() == 0,
        empty_domain().memory_kib == 0 && empty_domain().vcpus == 0,
{
}

/// A domain is the same as texts as it is as strings.
pub proof fn law_domain_as_texts(c: BackendConfig)
    ensures
        c@.domain_type == c.domain_type@ && c@.name == c.name@ && c@.memory_kib == c.memory_kib
            && c@.vcpus == c.vcpus && c@.cputune_xml == c.cputune_xml@ && c@.cpu_xml == c.cpu_xml@,
        c@.os_arch == c.os_arch@ && c@.os_machine == c.os_machine@ && c@.os_boot_xml
            == c.os_boot_xml@ && c@.features_xml == c.features_xml@ && c@.xml_file == c.xml_file@,
        c@.devices_xml.len() == c.devices_xml@.len(),
        forall|i: int|
            0 <= i < c.devices_xml@.len() ==> #[trigger] c@.devices_xml[i] == c.devices_xml@[i]@,
{
}

}
