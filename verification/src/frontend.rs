//! What a guest is created from: the container as the engine hands it over, and the
//! `/boot/config.json` of its image.
use vstd::prelude::*;

use serde_json::Value;

use crate::json::{json_of, null, Json};

verus! {

/// The container that a guest stands for.
#[derive(Debug)]
pub struct FrontendConfig {
    /// Id of the container.
    pub containerid: String,
    /// Directory of the OCI bundle.
    pub bundle: String,
    /// File that receives the pid of the container's process.
    pub pidfile: String,
    /// State directory of the container.
    pub crundir: String,
    /// Root file system of the container.
    pub mountpoint: String,
    /// The `config.json` of the OCI bundle.
    pub jsonconfig: Value,
}

impl FrontendConfig {
    /// A container of which nothing is known.
    pub fn new() -> (r: Self)
        ensures
            r.containerid@ == Seq::<char>::empty(),
            r.bundle@ == Seq::<char>::empty(),
            r.pidfile@ == Seq::<char>::empty(),
            r.crundir@ == Seq::<char>::empty(),
            r.mountpoint@ == Seq::<char>::empty(),
            json_of(r.jsonconfig) == Json::Null,
    {
        FrontendConfig {
            containerid: String::new(),
            bundle: String::new(),
            pidfile: String::new(),
            crundir: String::new(),
            mountpoint: String::new(),
            jsonconfig: null(),
        }
    }
}

/// One virtual CPU that is bound to a CPU of the host.
#[derive(Debug, Clone, Copy, PartialEq, Eq)]
pub struct VcpuPin {
    /// The virtual CPU.
    pub vcpu: u32,
    /// The CPU of the host.
    pub pcpu: u32,
}

/// The `/boot/config.json` of an image.
#[derive(Debug)]
pub struct ImageConfig {
    pub cpio: String,
    /// Operating system of the guest: `linux`, or any other name for a bare-metal payload.
    pub os_var: String,
    pub kernel: String,
    /// Initial ramdisk of a Linux guest.
    pub ramdisk: String,
    /// Kernel of a Linux guest, or the bare-metal payload.
    pub inmate: String,
    /// Device tree blob.
    pub dtb: String,
    pub initrd: String,
    /// Bridge or network that `net` refers to.
    pub netconf: String,
    /// Kind of the root disk: empty, `file` or `lvm`.
    pub disk_type: String,
    /// Raw disk image of a `file` disk.
    pub disk_image: String,
    /// Size of an `lvm` disk in MB; 0 if it follows from the root file system.
    pub disk_size: u64,
    pub starting_vaddress: String,
    /// Memory of the guest in MB; 0 if the container's limit decides.
    pub memory: u64,
    /// Network mode.
    pub net: String,
    pub rpu_req: bool,
    /// Number of virtual CPUs; 0 if pinning or the container's quota decides.
    pub vcpus: u32,
    /// Bindings of virtual CPUs to CPUs of the host.
    pub vcpu_pinning: Vec<VcpuPin>,
    /// CPUs of the host that are isolated from its scheduler.
    pub isolcpu: String,
    /// CPUs of the host that run without a tick.
    pub nohz_full: String,
    /// CPUs of the host that all movable interrupts go to.
    pub steer_irq: Option<Vec<usize>>,
}

/// Where the path `path` of a root file system is on the host; an empty path is none.
pub open spec fn in_rootfs(mountpoint: Seq<char>, path: Seq<char>) -> Seq<char> {
    if path.len() == 0 {
        path
    } else if path[0] == '/' {
        mountpoint + path
    } else {
        mountpoint + "/"@ + path
    }
}

fn resolve(mountpoint: &str, path: &str) -> (r: String)
    ensures
        r@ == in_rootfs(mountpoint@, path@),
{
    if path.is_empty() {
        path.to_owned()
    } else if path.get_char(0) == '/' {
        mountpoint.to_owned().concat(path)
    } else {
        mountpoint.to_owned().concat("/").concat(path)
    }
}

impl ImageConfig {
    /// Resolves the paths of the image, which are given as they are inside the root file system,
    /// to where they are on the host.
    pub fn resolve_paths(&mut self, mountpoint: &str)
        ensures
            final(self).inmate@ == in_rootfs(mountpoint@, old(self).inmate@),
            final(self).ramdisk@ == in_rootfs(mountpoint@, old(self).ramdisk@),
            final(self).dtb@ == in_rootfs(mountpoint@, old(self).dtb@),
            final(self).disk_image@ == in_rootfs(mountpoint@, old(self).disk_image@),
            *final(self) == (ImageConfig {
                inmate: final(self).inmate,
                ramdisk: final(self).ramdisk,
                dtb: final(self).dtb,
                disk_image: final(self).disk_image,
                ..*old(self)
            }),
    {
        self.inmate = resolve(mountpoint, self.inmate.as_str());
        self.ramdisk = resolve(mountpoint, self.ramdisk.as_str());
        self.dtb = resolve(mountpoint, self.dtb.as_str());
        self.disk_image = resolve(mountpoint, self.disk_image.as_str());
    }
}

/// A path of the image is the same path below the mount point, with one `/` between the two; no
/// path stays no path.
pub proof fn law_paths_lie_in_the_rootfs(mountpoint: Seq<char>, path: Seq<char>)
    ensures
        in_rootfs(mountpoint, Seq::empty()) == Seq::<char>::empty(),
        path.len() > 0 && path[0] != '/' ==> in_rootfs(mountpoint, path) == mountpoint + seq!['/']
            + path,
        in_rootfs(mountpoint, seq!['/'] + path) == mountpoint + seq!['/'] + path,
{
    reveal_strlit("/");
    assert("/"@ =~= seq!['/']);
    assert((seq!['/'] + path)[0] == '/');
    assert(mountpoint + (seq!['/'] + path) =~= mountpoint + seq!['/'] + path);
}

}
