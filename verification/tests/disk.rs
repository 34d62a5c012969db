use backend_kvm::actions::{run_command, CommandLine, CommandOutcome};
use backend_kvm::config_generator::disk::provision::{provision_lvm_root, Action, Stage};
use backend_kvm::config_generator::disk::{
    default_size_mb, disk_kind, diskconf, is_disk_available, lv_in_disk_state, lv_path, lvm_size, read_disk_state,
    rootfs_size_mb, vg_name, DiskKind, HostDisk, SizeError,
};
use backend_kvm::config_generator::{BackendConfig, ConfigError};
use backend_kvm::decimal::NumberError;
use backend_kvm::frontend::{FrontendConfig, ImageConfig};

fn image(disk_type: &str, disk_image: &str, disk_size: u64) -> ImageConfig {
    ImageConfig {
        cpio: String::new(),
        os_var: String::new(),
        kernel: String::new(),
        ramdisk: String::new(),
        inmate: String::new(),
        dtb: String::new(),
        initrd: String::new(),
        netconf: String::new(),
        disk_type: disk_type.to_string(),
        disk_image: disk_image.to_string(),
        disk_size,
        starting_vaddress: String::new(),
        memory: 0,
        net: String::new(),
        rpu_req: false,
        vcpus: 0,
        vcpu_pinning: Vec::new(),
        isolcpu: String::new(),
        nohz_full: String::new(),
        steer_irq: None,
    }
}

fn host() -> HostDisk {
    HostDisk { image_exists: true, vg: "test-vg".to_string(), rootfs_mb: 200, free_mb: 400 }
}

fn container() -> FrontendConfig {
    let mut fc = FrontendConfig::new();
    fc.containerid = "abc".to_string();
    fc.crundir = "/run/x".to_string();
    fc
}

fn error(ic: &ImageConfig, host: &HostDisk) -> ConfigError {
    let mut c = BackendConfig::new("x86_64");
    let e = diskconf(&container(), &mut c, ic, host).unwrap_err();
    assert!(c.devices_xml.is_empty());
    e
}

#[test]
fn no_disk_is_attached_without_a_kind() {
    let mut c = BackendConfig::new("x86_64");
    assert!(diskconf(&container(), &mut c, &image("", "x", 5), &host()).unwrap().is_none());
    assert!(c.devices_xml.is_empty());
}

#[test]
fn a_file_disk_is_attached() {
    let mut c = BackendConfig::new("x86_64");
    assert!(diskconf(&container(), &mut c, &image("file", "/i.img", 5), &host()).unwrap().is_none());
    assert_eq!(
        c.devices_xml,
        vec!["<disk type='file' device='disk'>
      <driver name='qemu' type='raw'/>
      <source file='/i.img'/>
      <target dev='vda' bus='virtio'/>
    </disk>"]
    );
}

#[test]
fn a_logical_volume_is_attached_and_noted() {
    let mut c = BackendConfig::new("x86_64");
    let w = diskconf(&container(), &mut c, &image("lvm", "", 0), &host()).unwrap().unwrap();
    assert_eq!(w.path, "/run/x/disk");
    assert_eq!(w.content, "/dev/test-vg/lv_abc 324\n");
    assert_eq!(
        c.devices_xml,
        vec!["<disk type='block' device='disk'>
      <driver name='qemu' type='raw'/>
      <source dev='/dev/test-vg/lv_abc'/>
      <target dev='vda' bus='virtio'/>
    </disk>"]
    );
    let (lv, size) = read_disk_state(&w.content).unwrap();
    assert_eq!(lv, lv_path("test-vg", "abc"));
    assert_eq!(size, "324");
    assert_eq!(lv_in_disk_state(&w.content), Some(lv));
}

#[test]
fn every_error_of_a_disk() {
    assert_eq!(
        error(&image("file", "", 0), &host()).message(),
        "disk_type=\"file\" requires disk_image in boot/config.json"
    );
    assert_eq!(
        error(&image("file", "/i", 0), &HostDisk { image_exists: false, ..host() }).message(),
        "disk image /i not found in container rootfs"
    );
    assert_eq!(
        error(&image("lvm", "", 199), &host()).message(),
        "disk_size 199 MB is smaller than the container rootfs (200 MB)"
    );
    assert_eq!(
        error(&image("lvm", "", 401), &host()).message(),
        "not enough free space in volume group test-vg: need 401 MB, have 400 MB"
    );
    assert_eq!(
        error(&image("LVM", "", 0), &host()).message(),
        "unknown disk_type \"LVM\" in boot/config.json (expected \"\", \"file\" or \"lvm\")"
    );
}

#[test]
fn sizes_of_a_disk() {
    assert_eq!(default_size_mb(0), 64);
    assert_eq!(default_size_mb(100), 194);
    assert_eq!(default_size_mb(1), 65);
    assert_eq!(lvm_size(&image("lvm", "", 200), 200).unwrap(), 200);
    assert_eq!(lvm_size(&image("lvm", "", 0), 200).unwrap(), 324);
    assert!(lvm_size(&image("lvm", "", 1), 2).is_err());
}

#[test]
fn kinds_of_a_disk() {
    assert_eq!(disk_kind(""), DiskKind::Absent);
    assert_eq!(disk_kind("file"), DiskKind::File);
    assert_eq!(disk_kind("lvm"), DiskKind::Lvm);
    assert_eq!(disk_kind("File"), DiskKind::Unknown);
}

#[test]
fn the_volume_group_can_be_overridden() {
    assert_eq!(vg_name(None), "test-vg");
    assert_eq!(vg_name(Some(" \n")), "test-vg");
    assert_eq!(vg_name(Some(" data \n")), "data");
}

#[test]
fn the_size_of_the_root_file_system() {
    assert_eq!(rootfs_size_mb("123\t/x\n"), Ok(123));
    assert_eq!(rootfs_size_mb(" \n"), Err(SizeError::Empty));
    assert_eq!(rootfs_size_mb("1k /x"), Err(SizeError::NotANumber(NumberError::InvalidDigit)));
    assert_eq!(SizeError::Empty.message(), "empty du output for rootfs");
    assert_eq!(
        rootfs_size_mb("99999999999999999999").unwrap_err().message(),
        "number too large to fit in target type"
    );
}

#[test]
fn a_damaged_note_of_a_disk() {
    assert_eq!(read_disk_state("/dev/a/b\n"), Err("malformed disk state file".to_string()));
    assert_eq!(read_disk_state(""), Err("malformed disk state file".to_string()));
    assert_eq!(lv_in_disk_state(" /dev/a/b\n"), Some("/dev/a/b".to_string()));
    assert_eq!(lv_in_disk_state(" \n"), None);
}

fn shown(command: &CommandLine) -> String {
    format!("{} {}", command.program, command.args.join(" "))
}

fn provision(failing: &str) -> (Vec<String>, Result<(), String>) {
    let mut done: Vec<String> = Vec::new();
    let mut p = provision_lvm_root("/dev/vg0/lv_abc", "324", "/rootfs", "/run/x").unwrap();
    loop {
        let step = match p.action() {
            Action::Run(command) => shown(&command),
            Action::MakeDir(path) => format!("mkdir {}", path),
            Action::Stop => {
                return match p.stage {
                    Stage::Finished(outcome) => (done, outcome),
                    other => panic!("{:?}", other),
                }
            }
        };
        let fails = step.starts_with(failing);
        done.push(step.clone());
        p = p.advance(if fails { Err(step) } else { Ok(()) });
    }
}

#[test]
fn a_volume_is_created_and_filled() {
    let (done, outcome) = provision("nothing");
    assert_eq!(
        done,
        vec![
            "lvcreate -y -L 324M -n lv_abc vg0",
            "mkfs.ext4 -q -F /dev/vg0/lv_abc",
            "mkdir /run/x/mnt",
            "mount /dev/vg0/lv_abc /run/x/mnt",
            "cp -a /rootfs/. /run/x/mnt",
            "umount /run/x/mnt",
        ]
    );
    assert_eq!(outcome, Ok(()));
}

#[test]
fn a_failure_leaves_no_volume() {
    let (done, outcome) = provision("lvcreate");
    assert_eq!(done.len(), 1);
    assert!(outcome.unwrap_err().starts_with("lvcreate"));
    for step in ["mkfs.ext4", "mkdir", "mount", "cp", "umount"] {
        let (done, outcome) = provision(step);
        assert_eq!(done[done.len() - 2], "umount /run/x/mnt");
        assert_eq!(done[done.len() - 1], "lvremove -y /dev/vg0/lv_abc");
        assert!(outcome.unwrap_err().starts_with(step));
    }
}

#[test]
fn a_path_that_names_no_volume() {
    assert_eq!(
        provision_lvm_root("lv", "1", "/r", "/x").unwrap_err(),
        "malformed lv path"
    );
    let p = provision_lvm_root("vg/lv", "1", "/r", "/x").unwrap();
    assert_eq!(p.volume.name, "lv");
    assert_eq!(p.volume.vg, "vg");
}

#[test]
fn how_a_command_ended() {
    let ended = |success: bool, code: Option<i32>| CommandOutcome::Ended {
        success,
        code,
        stdout: "out".to_string(),
        stderr: " err\n".to_string(),
    };
    assert_eq!(run_command("du", &ended(true, Some(0))), Ok("out".to_string()));
    assert_eq!(run_command("du", &ended(false, Some(2))), Err("du failed (exit 2): err".to_string()));
    assert_eq!(run_command("du", &ended(false, None)), Err("du failed (exit -1): err".to_string()));
    assert_eq!(
        run_command("du", &CommandOutcome::NotStarted("gone".to_string())),
        Err("failed to spawn du: gone".to_string())
    );
}

#[test]
fn a_disk_is_available_if_it_can_be_attached() {
    let missing = HostDisk { image_exists: false, ..host() };
    for (ic, host) in [
        (image("", "", 0), host()),
        (image("file", "/i", 0), host()),
        (image("file", "", 0), host()),
        (image("file", "/i", 0), missing),
        (image("lvm", "", 0), host()),
        (image("lvm", "", 199), host()),
        (image("lvm", "", 400), host()),
        (image("lvm", "", 401), host()),
        (image("nvme", "", 0), host()),
    ] {
        let mut c = BackendConfig::new("x86_64");
        let attached = diskconf(&container(), &mut c, &ic, &host).is_ok();
        assert_eq!(is_disk_available(&ic, &host), attached);
    }
}
