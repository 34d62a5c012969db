//! The root disk of a guest.
use vstd::prelude::*;

use crate::actions::{join_path, path_in, FileText, FileWrite};
use crate::config_generator::{error_message, BackendConfig, ConfigError, Domain};
use crate::decimal::{digits, lemma_digits, parse_u64, print_u64, NumberError};
use crate::frontend::{FrontendConfig, ImageConfig};
use crate::text::{
    is_blank, is_space, kept_text, law_trimming, law_words, lemma_find_back_is,
    lemma_words_of_word, next_word, same, strings, trim, trimmed, words,
};

use crate::config_generator::disk::provision::volume_names;

pub mod provision;

verus! {

broadcast use vstd::string::group_string_axioms;

/// Volume group that holds the root disks, unless the host names another.
pub const DEFAULT_VG: &'static str = "test-vg";

/// File that names the volume group of the host.
pub const VG_OVERRIDE_FILE: &'static str = "/usr/share/runPHI/kvm_lvm_vg";

// ---------------------------------------------------------------------------
// Sizes and names
// ---------------------------------------------------------------------------

/// The device of the logical volume of a container.
pub open spec fn lv_of(vg: Seq<char>, containerid: Seq<char>) -> Seq<char> {
    "/dev/"@ + vg + "/lv_"@ + containerid
}

/// The device of the logical volume of a container.
pub fn lv_path(vg: &str, containerid: &str) -> (r: String)
    ensures
        r@ == lv_of(vg@, containerid@),
{
    "/dev/".to_owned().concat(vg).concat("/lv_").concat(containerid)
}

/// The size of a disk for a root file system of the given size: 30 percent more, and 64 MB for
/// the metadata of the file system.
pub open spec fn default_size(rootfs_mb: nat) -> nat {
    rootfs_mb * 13 / 10 + 64
}

/// The size of a disk whose image does not give one.
pub fn default_size_mb(rootfs_mb: u64) -> (r: u64)
    requires
        rootfs_mb * 13 <= u64::MAX,
    ensures
        r == default_size(rootfs_mb as nat),
{
    rootfs_mb * 13 / 10 + 64
}

/// A disk of the default size holds the root file system.
pub proof fn law_default_size_is_enough(rootfs_mb: nat)
    ensures
        default_size(rootfs_mb) >= rootfs_mb + 64,
{
}

/// The volume group that the content of the override file names.
pub open spec fn vg_in(kept: Option<Seq<char>>) -> Seq<char> {
    match kept {
        Some(text) if trimmed(text).len() > 0 => trimmed(text),
        _ => "test-vg"@,
    }
}

/// The volume group to allocate from: what the override file of the host says, given its
/// content, or the default.
pub fn vg_name(kept: Option<&str>) -> (r: String)
    ensures
        r@ == vg_in(kept_text(kept)),
{
    match kept {
        Some(text) => {
            let name = trim(text);
            if !name.is_empty() {
                return name.to_owned();
            }
        },
        None => {},
    }
    DEFAULT_VG.to_owned()
}

/// Why the size of the root file system is not known.
#[derive(Debug, Clone, Copy, PartialEq, Eq, Structural)]
pub enum SizeError {
    /// `du` has printed nothing.
    Empty,
    /// What `du` has printed first is not a number.
    NotANumber(NumberError),
}

impl SizeError {
    /// What is said of the error.
    pub open spec fn said(self) -> Seq<char> {
        match self {
            SizeError::Empty => "empty du output for rootfs"@,
            SizeError::NotANumber(e) => e.said(),
        }
    }

    /// What is said of the error.
    pub fn message(&self) -> (r: String)
        ensures
            r@ == self.said(),
    {
        match self {
            SizeError::Empty => "empty du output for rootfs".to_owned(),
            SizeError::NotANumber(e) => e.message(),
        }
    }
}

/// The size that `du` has printed: its first word.
pub open spec fn size_in(stdout: Seq<char>) -> Result<nat, SizeError> {
    if words(stdout).len() == 0 {
        Err(SizeError::Empty)
    } else {
        match crate::decimal::number(words(stdout)[0], u64::MAX as nat) {
            Ok(n) => Ok(n),
            Err(e) => Err(SizeError::NotANumber(e)),
        }
    }
}

/// The size of the root file system in MB, from the output of `du`.
pub fn rootfs_size_mb(stdout: &str) -> (r: Result<u64, SizeError>)
    ensures
        match r {
            Ok(n) => size_in(stdout@) == Ok::<nat, SizeError>(n as nat),
            Err(e) => size_in(stdout@) == Err::<nat, SizeError>(e),
        },
{
    match next_word(stdout) {
        Some((first, _)) => match parse_u64(first) {
            Ok(n) => Ok(n),
            Err(e) => Err(SizeError::NotANumber(e)),
        },
        None => Err(SizeError::Empty),
    }
}

// ---------------------------------------------------------------------------
// The disk of a guest
// ---------------------------------------------------------------------------

/// The kind of a root disk.
#[derive(Debug, Clone, Copy, PartialEq, Eq, Structural)]
pub enum DiskKind {
    /// There is none: the guest runs from memory.
    Absent,
    /// A raw image in the root file system.
    File,
    /// A logical volume of the host.
    Lvm,
    /// Nothing that is known.
    Unknown,
}

/// The kind of disk that `disk_type` names.
pub open spec fn kind_of(disk_type: Seq<char>) -> DiskKind {
    if disk_type == ""@ {
        DiskKind::Absent
    } else if disk_type == "file"@ {
        DiskKind::File
    } else if disk_type == "lvm"@ {
        DiskKind::Lvm
    } else {
        DiskKind::Unknown
    }
}

/// The kind of disk that `disk_type` names. It says what has to be asked of the host.
pub fn disk_kind(disk_type: &str) -> (r: DiskKind)
    ensures
        r == kind_of(disk_type@),
{
    if same(disk_type, "") {
        DiskKind::Absent
    } else if same(disk_type, "file") {
        DiskKind::File
    } else if same(disk_type, "lvm") {
        DiskKind::Lvm
    } else {
        DiskKind::Unknown
    }
}

/// What the host says of the root disk of a guest.
#[derive(Debug)]
pub struct HostDisk {
    /// Whether the disk image exists; counts for a file disk.
    pub image_exists: bool,
    /// The volume group; counts for a logical volume.
    pub vg: String,
    /// Size of the root file system in MB; counts for a logical volume.
    pub rootfs_mb: u64,
    /// Free space in the volume group in MB; counts for a logical volume.
    pub free_mb: u64,
}

/// The device of a disk image.
pub open spec fn file_disk(image: Seq<char>) -> Seq<char> {
    "<disk type='file' device='disk'>\n      <driver name='qemu' type='raw'/>\n      <source file='"@
        + image + "'/>\n      <target dev='vda' bus='virtio'/>\n    </disk>"@
}

/// The device of a logical volume.
pub open spec fn lvm_disk(lv: Seq<char>) -> Seq<char> {
    "<disk type='block' device='disk'>\n      <driver name='qemu' type='raw'/>\n      <source dev='"@
        + lv + "'/>\n      <target dev='vda' bus='virtio'/>\n    </disk>"@
}

/// The size of a logical volume: what the image says, or the default size.
pub open spec fn volume_size(ic: ImageConfig, rootfs_mb: u64) -> nat {
    if ic.disk_size == 0 {
        default_size(rootfs_mb as nat)
    } else {
        ic.disk_size as nat
    }
}

/// The size of the logical volume of a guest in MB. It must hold the root file system.
pub fn lvm_size(ic: &ImageConfig, rootfs_mb: u64) -> (r: Result<u64, ConfigError>)
    requires
        ic.disk_size == 0 ==> rootfs_mb * 13 <= u64::MAX,
    ensures
        match r {
            Ok(size) => (ic.disk_size == 0 || ic.disk_size >= rootfs_mb) && size == volume_size(
                *ic,
                rootfs_mb,
            ),
            Err(e) => 0 < ic.disk_size < rootfs_mb && e == (ConfigError::DiskTooSmall {
                disk_size: ic.disk_size,
                rootfs_mb,
            }),
        },
{
    if ic.disk_size == 0 {
        Ok(default_size_mb(rootfs_mb))
    } else if ic.disk_size < rootfs_mb {
        Err(ConfigError::DiskTooSmall { disk_size: ic.disk_size, rootfs_mb })
    } else {
        Ok(ic.disk_size)
    }
}

/// The line that says which logical volume is to be created, and of what size.
pub open spec fn disk_state(lv: Seq<char>, size_mb: nat) -> Seq<char> {
    lv + " "@ + digits(size_mb) + "\n"@
}

/// Whether `e` is what is wrong with the root disk of a guest.
pub open spec fn disk_error(ic: ImageConfig, host: HostDisk, e: ConfigError) -> bool {
    match kind_of(ic.disk_type@) {
        DiskKind::Absent => false,
        DiskKind::File => if ic.disk_image@.len() == 0 {
            e is DiskImageNotNamed
        } else {
            !host.image_exists && e is DiskImageNotFound && e->DiskImageNotFound_0@ == ic.disk_image@
        },
        DiskKind::Lvm => if 0 < ic.disk_size < host.rootfs_mb {
            e == (ConfigError::DiskTooSmall { disk_size: ic.disk_size, rootfs_mb: host.rootfs_mb })
        } else {
            volume_size(ic, host.rootfs_mb) > host.free_mb && e is VolumeGroupFull
                && e->VolumeGroupFull_vg@ == host.vg@ && e->size_mb == volume_size(
                ic,
                host.rootfs_mb,
            ) && e->free_mb == host.free_mb
        },
        DiskKind::Unknown => e is UnknownDiskType && e->UnknownDiskType_0@ == ic.disk_type@,
    }
}

/// Whether the root disk of a guest can be had.
pub open spec fn disk_available(ic: ImageConfig, host: HostDisk) -> bool {
    match kind_of(ic.disk_type@) {
        DiskKind::Absent => true,
        DiskKind::File => ic.disk_image@.len() > 0 && host.image_exists,
        DiskKind::Lvm => (ic.disk_size == 0 || ic.disk_size >= host.rootfs_mb) && volume_size(
            ic,
            host.rootfs_mb,
        ) <= host.free_mb,
        DiskKind::Unknown => false,
    }
}

/// Decides [`disk_available`].
pub fn is_disk_available(ic: &ImageConfig, host: &HostDisk) -> (r: bool)
    requires
        kind_of(ic.disk_type@) is Lvm && ic.disk_size == 0 ==> host.rootfs_mb * 13 <= u64::MAX,
    ensures
        r == disk_available(*ic, *host),
{
    match disk_kind(ic.disk_type.as_str()) {
        DiskKind::Absent => true,
        DiskKind::File => !ic.disk_image.as_str().is_empty() && host.image_exists,
        DiskKind::Lvm => match lvm_size(ic, host.rootfs_mb) {
            Ok(size_mb) => size_mb <= host.free_mb,
            Err(_) => false,
        },
        DiskKind::Unknown => false,
    }
}

/// The domain `d` with the root disk of a guest, if it has one.
pub open spec fn with_disk(d: Domain, fc: FrontendConfig, ic: ImageConfig, host: HostDisk) -> Domain {
    match kind_of(ic.disk_type@) {
        DiskKind::File => Domain {
            devices_xml: d.devices_xml.push(file_disk(ic.disk_image@)),
            ..d
        },
        DiskKind::Lvm => Domain {
            devices_xml: d.devices_xml.push(lvm_disk(lv_of(host.vg@, fc.containerid@))),
            ..d
        },
        _ => d,
    }
}

/// The file that keeps which logical volume is to be created, if one is.
pub open spec fn disk_file(fc: FrontendConfig, ic: ImageConfig, host: HostDisk) -> Option<FileText> {
    if kind_of(ic.disk_type@) is Lvm {
        Some(
            FileText {
                path: path_in(fc.crundir@, "disk"@),
                content: disk_state(
                    lv_of(host.vg@, fc.containerid@),
                    volume_size(ic, host.rootfs_mb),
                ),
            },
        )
    } else {
        None
    }
}

/// A file that may be missing, as texts.
pub open spec fn file_text(file: Option<FileWrite>) -> Option<FileText> {
    match file {
        Some(w) => Some(w@),
        None => None,
    }
}

/// Adds the root disk of the guest to the devices of the domain. For a logical volume the result
/// is the file that says what is to be created.
pub fn diskconf(
    fc: &FrontendConfig,
    c: &mut BackendConfig,
    ic: &ImageConfig,
    host: &HostDisk,
) -> (r: Result<Option<FileWrite>, ConfigError>)
    requires
        kind_of(ic.disk_type@) is Lvm && ic.disk_size == 0 ==> host.rootfs_mb * 13 <= u64::MAX,
    ensures
        match r {
            Ok(file) => disk_available(*ic, *host) && final(c)@ == with_disk(
                old(c)@,
                *fc,
                *ic,
                *host,
            ) && file_text(file) == disk_file(*fc, *ic, *host),
            Err(e) => !disk_available(*ic, *host) && disk_error(*ic, *host, e) && final(c)@ == old(
                c,
            )@,
        },
{
    match disk_kind(ic.disk_type.as_str()) {
        DiskKind::Absent => Ok(None),
        DiskKind::File => {
            if ic.disk_image.as_str().is_empty() {
                return Err(ConfigError::DiskImageNotNamed);
            }
            if !host.image_exists {
                return Err(ConfigError::DiskImageNotFound(ic.disk_image.clone()));
            }
            c.devices_xml.push(
                "<disk type='file' device='disk'>\n      <driver name='qemu' type='raw'/>\n      <source file='".to_owned().concat(
                    ic.disk_image.as_str(),
                ).concat("'/>\n      <target dev='vda' bus='virtio'/>\n    </disk>"),
            );
            assert(strings(c.devices_xml@) =~= strings(old(c).devices_xml@).push(
                file_disk(ic.disk_image@),
            ));
            assert(c@ =~= with_disk(old(c)@, *fc, *ic, *host));
            Ok(None)
        },
        DiskKind::Lvm => {
            let size_mb: u64 = match lvm_size(ic, host.rootfs_mb) {
                Ok(size) => size,
                Err(e) => return Err(e),
            };
            if size_mb > host.free_mb {
                return Err(
                    ConfigError::VolumeGroupFull {
                        vg: host.vg.clone(),
                        size_mb,
                        free_mb: host.free_mb,
                    },
                );
            }
            let lv = lv_path(host.vg.as_str(), fc.containerid.as_str());
            c.devices_xml.push(
                "<disk type='block' device='disk'>\n      <driver name='qemu' type='raw'/>\n      <source dev='".to_owned().concat(
                    lv.as_str(),
                ).concat("'/>\n      <target dev='vda' bus='virtio'/>\n    </disk>"),
            );
            assert(strings(c.devices_xml@) =~= strings(old(c).devices_xml@).push(lvm_disk(lv@)));
            assert(c@ =~= with_disk(old(c)@, *fc, *ic, *host));
            Ok(
                Some(
                    FileWrite {
                        path: join_path(fc.crundir.as_str(), "disk"),
                        content: lv.concat(" ").concat(print_u64(size_mb).as_str()).concat("\n"),
                    },
                ),
            )
        },
        DiskKind::Unknown => Err(ConfigError::UnknownDiskType(ic.disk_type.clone())),
    }
}

// ---------------------------------------------------------------------------
// The kept disk
// ---------------------------------------------------------------------------

/// The logical volume and its size in the kept line `text`.
pub open spec fn kept_disk(text: Seq<char>) -> Option<(Seq<char>, Seq<char>)> {
    if words(text).len() >= 2 {
        Some((words(text)[0], words(text)[1]))
    } else {
        None
    }
}

/// The logical volume that is to be created, and its size, from the line that was kept.
pub fn read_disk_state(text: &str) -> (r: Result<(String, String), String>)
    ensures
        match r {
            Ok((lv, size_mb)) => kept_disk(text@) == Some((lv@, size_mb@)),
            Err(e) => kept_disk(text@) is None && e@ == "malformed disk state file"@,
        },
{
    match next_word(text) {
        Some((lv, rest)) => match next_word(rest) {
            Some((size_mb, _)) => Ok((lv.to_owned(), size_mb.to_owned())),
            None => Err("malformed disk state file".to_owned()),
        },
        None => Err("malformed disk state file".to_owned()),
    }
}

/// The logical volume in the kept line `text`.
pub open spec fn kept_lv(text: Seq<char>) -> Option<Seq<char>> {
    if words(text).len() >= 1 {
        Some(words(text)[0])
    } else {
        None
    }
}

/// The logical volume that is to be removed, from the line that was kept.
pub fn lv_in_disk_state(text: &str) -> (r: Option<String>)
    ensures
        match r {
            Some(lv) => kept_lv(text@) == Some(lv@),
            None => kept_lv(text@) is None,
        },
{
    match next_word(text) {
        Some((lv, _)) => Some(lv.to_owned()),
        None => None,
    }
}

/// Whether no whitespace stands in `s`.
pub open spec fn is_one_word(s: Seq<char>) -> bool {
    forall|i: int| 0 <= i < s.len() ==> !is_space(#[trigger] s[i])
}

/// What is kept of a disk is found again: the same logical volume and the same size, if neither
/// the volume group nor the id of the container holds whitespace.
pub proof fn law_disk_state_reads_back(vg: Seq<char>, containerid: Seq<char>, size_mb: nat)
    requires
        is_one_word(vg),
        is_one_word(containerid),
    ensures
        kept_disk(disk_state(lv_of(vg, containerid), size_mb)) == Some(
            (lv_of(vg, containerid), digits(size_mb)),
        ),
{
    reveal_strlit("/dev/");
    reveal_strlit("/lv_");
    reveal_strlit(" ");
    reveal_strlit("\n");
    let lv = lv_of(vg, containerid);
    let size = digits(size_mb);
    assert(is_one_word("/dev/"@));
    assert(is_one_word("/lv_"@));
    let a = "/dev/"@ + vg;
    let b = a + "/lv_"@;
    assert(is_one_word(a)) by {
        assert forall|i: int| 0 <= i < a.len() implies !is_space(#[trigger] a[i]) by {
            if i < "/dev/"@.len() {
                assert(a[i] == "/dev/"@[i]);
            } else {
                assert(a[i] == vg[i - "/dev/"@.len()]);
            }
        }
    }
    assert(is_one_word(b)) by {
        assert forall|i: int| 0 <= i < b.len() implies !is_space(#[trigger] b[i]) by {
            if i < a.len() {
                assert(b[i] == a[i]);
            } else {
                assert(b[i] == "/lv_"@[i - a.len()]);
            }
        }
    }
    assert(is_one_word(lv)) by {
        assert forall|i: int| 0 <= i < lv.len() implies !is_space(#[trigger] lv[i]) by {
            if i < b.len() {
                assert(lv[i] == b[i]);
            } else {
                assert(lv[i] == containerid[i - b.len()]);
            }
        }
    }
    lemma_digits(size_mb);
    assert forall|i: int| 0 <= i < size.len() implies !is_space(#[trigger] size[i]) by {
        assert(crate::decimal::is_digit(size[i]));
    }
    let text = disk_state(lv, size_mb);
    assert(text =~= lv + seq![' '] + (size + seq!['\n'] + Seq::<char>::empty()));
    lemma_words_of_word(lv, ' ', size + seq!['\n'] + Seq::<char>::empty());
    lemma_words_of_word(size, '\n', Seq::empty());
}

/// The device path of a logical volume gives back the name of the volume and its volume group,
/// if neither the volume group nor the id of the container holds a `/`.
pub proof fn law_lv_path_comes_apart(vg: Seq<char>, containerid: Seq<char>)
    requires
        forall|i: int| 0 <= i < vg.len() ==> vg[i] != '/',
        forall|i: int| 0 <= i < containerid.len() ==> containerid[i] != '/',
    ensures
        volume_names(lv_of(vg, containerid)) == Some(("lv_"@ + containerid, vg)),
{
    reveal_strlit("/dev/");
    reveal_strlit("/lv_");
    reveal_strlit("lv_");
    let lv = lv_of(vg, containerid);
    let i: int = vg.len() as int + 6;
    assert(lv[i - 1] == '/');
    assert forall|j: int| i <= j < lv.len() implies lv[j] != '/' by {
        if j >= i + 3 {
            assert(lv[j] == containerid[j - i - 3]);
        }
    }
    lemma_find_back_is(lv, '/', i);
    let front = lv.take(i - 1);
    assert(front =~= "/dev/"@ + vg);
    assert forall|j: int| 5 <= j < front.len() implies front[j] != '/' by {
        assert(front[j] == vg[j - 5]);
    }
    lemma_find_back_is(front, '/', 5);
    assert(front.skip(5) =~= vg);
    assert(lv.skip(i) =~= "lv_"@ + containerid);
}

// ---------------------------------------------------------------------------
// What holds of the disk of every guest
// ---------------------------------------------------------------------------

/// The default size is the size of the root file system and 30 percent more, in whole MB, and 64 MB.
pub proof fn law_default_size_leaves_room(rootfs_mb: nat)
    ensures
        default_size(rootfs_mb) >= 64,
        10 * (default_size(rootfs_mb) - 64) <= 13 * rootfs_mb < 10 * (default_size(rootfs_mb) - 63),
{
}

/// A guest without a kind of disk has none: nothing is asked of the host, and the domain stays.
pub proof fn law_no_disk(d: Domain, fc: FrontendConfig, ic: ImageConfig, host: HostDisk)
    requires
        ic.disk_type@.len() == 0,
    ensures
        disk_available(ic, host),
        with_disk(d, fc, ic, host) == d,
        disk_file(fc, ic, host) is None,
{
    reveal_strlit("");
    assert(ic.disk_type@ =~= ""@);
}

/// A file disk is there if an image is named and exists. It is one more device, behind those the
/// domain had, whose source is that image. Nothing is to be created.
pub proof fn law_file_disk(
    d: Domain,
    fc: FrontendConfig,
    ic: ImageConfig,
    host: HostDisk,
    e: ConfigError,
)
    requires
        ic.disk_type@ == "file"@,
    ensures
        disk_available(ic, host) <==> ic.disk_image@.len() > 0 && host.image_exists,
        with_disk(d, fc, ic, host) == (Domain {
            devices_xml: d.devices_xml + seq![
                "<disk type='file' device='disk'>\n      <driver name='qemu' type='raw'/>\n      <source file='"@
                    + ic.disk_image@
                    + "'/>\n      <target dev='vda' bus='virtio'/>\n    </disk>"@,
            ],
            ..d
        }),
        disk_file(fc, ic, host) is None,
        disk_error(ic, host, e) && ic.disk_image@.len() == 0 ==> error_message(e)
            == "disk_type=\"file\" requires disk_image in boot/config.json"@,
        disk_error(ic, host, e) && ic.disk_image@.len() > 0 ==> error_message(e) == "disk image "@
            + ic.disk_image@ + " not found in container rootfs"@,
{
    lemma_kinds_differ();
    assert(with_disk(d, fc, ic, host).devices_xml =~= d.devices_xml + seq![
        file_disk(ic.disk_image@),
    ]);
}

/// A logical volume is there if it holds the root file system and fits into the volume group: a
/// volume of exactly the size of either will do. Its size is that of the image, or the default. It
/// is one more device, behind those the domain had, and its device and size are noted.
pub proof fn law_volume_disk(
    d: Domain,
    fc: FrontendConfig,
    ic: ImageConfig,
    host: HostDisk,
    e: ConfigError,
)
    requires
        ic.disk_type@ == "lvm"@,
    ensures
        ({
            let size = if ic.disk_size > 0 {
                ic.disk_size as nat
            } else {
                default_size(host.rootfs_mb as nat)
            };
            let lv = "/dev/"@ + host.vg@ + "/lv_"@ + fc.containerid@;
            &&& disk_available(ic, host) <==> size >= host.rootfs_mb && size <= host.free_mb
            &&& with_disk(d, fc, ic, host) == (Domain {
                devices_xml: d.devices_xml + seq![
                    "<disk type='block' device='disk'>\n      <driver name='qemu' type='raw'/>\n      <source dev='"@
                        + lv + "'/>\n      <target dev='vda' bus='virtio'/>\n    </disk>"@,
                ],
                ..d
            })
            &&& disk_file(fc, ic, host) is Some
            &&& disk_file(fc, ic, host)->Some_0.path == path_in(fc.crundir@, "disk"@)
            &&& disk_file(fc, ic, host)->Some_0.content == lv + " "@ + digits(size) + "\n"@
            &&& disk_error(ic, host, e) && size < host.rootfs_mb ==> error_message(e)
                == "disk_size "@ + digits(ic.disk_size as nat)
                + " MB is smaller than the container rootfs ("@ + digits(host.rootfs_mb as nat)
                + " MB)"@
            &&& disk_error(ic, host, e) && size >= host.rootfs_mb ==> error_message(e)
                == "not enough free space in volume group "@ + host.vg@ + ": need "@ + digits(size)
                + " MB, have "@ + digits(host.free_mb as nat) + " MB"@
        }),
{
    lemma_kinds_differ();
    law_default_size_is_enough(host.rootfs_mb as nat);
    assert(with_disk(d, fc, ic, host).devices_xml =~= d.devices_xml + seq![
        lvm_disk(lv_of(host.vg@, fc.containerid@)),
    ]);
}

/// Any other kind of disk is refused, whatever the host has.
pub proof fn law_unknown_disk(ic: ImageConfig, host: HostDisk, e: ConfigError)
    requires
        ic.disk_type@.len() > 0,
        ic.disk_type@ != "file"@,
        ic.disk_type@ != "lvm"@,
    ensures
        !disk_available(ic, host),
        disk_error(ic, host, e) ==> error_message(e) == "unknown disk_type \""@ + ic.disk_type@
            + "\" in boot/config.json (expected \"\", \"file\" or \"lvm\")"@,
{
    reveal_strlit("");
    assert(ic.disk_type@ != ""@);
}

proof fn lemma_kinds_differ()
    ensures
        kind_of("file"@) is File,
        kind_of("lvm"@) is Lvm,
{
    reveal_strlit("");
    reveal_strlit("file");
    reveal_strlit("lvm");
    assert(""@.len() == 0 && "file"@.len() == 4 && "lvm"@.len() == 3);
}

/// There is an error if and only if the disk cannot be had.
pub proof fn law_error_means_no_disk(ic: ImageConfig, host: HostDisk, e: ConfigError)
    ensures
        disk_error(ic, host, e) ==> !disk_available(ic, host),
{
}

/// The volume group is the name in the override file, without the whitespace around it, and
/// `test-vg` where the file is missing or blank.
pub proof fn law_volume_group(before: Seq<char>, name: Seq<char>, after: Seq<char>)
    requires
        is_blank(before),
        is_blank(after),
        name.len() > 0 && !is_space(name[0]) && !is_space(name.last()),
    ensures
        vg_in(Some(before + name + after)) == name,
        vg_in(Some(before)) == "test-vg"@,
        vg_in(None) == "test-vg"@,
{
    law_trimming(before, name, after);
    law_trimming(before, Seq::empty(), Seq::empty());
    assert(before + Seq::<char>::empty() + Seq::<char>::empty() =~= before);
}

/// The size of the root file system is the number that `du` prints first, whatever it prints behind
/// it. Without a word there is an error, and with one that is no number another.
pub proof fn law_size_that_du_prints(
    pad: Seq<char>,
    n: nat,
    word: Seq<char>,
    sep: char,
    rest: Seq<char>,
)
    requires
        is_blank(pad),
        is_space(sep),
        n <= u64::MAX,
        word.len() > 0,
        is_one_word(word),
    ensures
        size_in(pad + (digits(n) + seq![sep] + rest)) == Ok::<nat, SizeError>(n),
        size_in(pad) == Err::<nat, SizeError>(SizeError::Empty),
        crate::decimal::number(word, u64::MAX as nat) matches Err(e) ==> size_in(
            pad + (word + seq![sep] + rest),
        ) == Err::<nat, SizeError>(SizeError::NotANumber(e)),
{
    lemma_digits(n);
    assert forall|i: int| 0 <= i < digits(n).len() implies !is_space(#[trigger] digits(n)[i]) by {
        assert(crate::decimal::is_digit(digits(n)[i]));
    }
    law_words(pad, digits(n), sep, rest);
    law_words(pad, word, sep, rest);
    crate::decimal::law_parse_inverts_print(n, u64::MAX as nat);
}

/// The note of a disk gives its first two words: the volume, and its size. The volume alone is
/// enough to remove it.
pub proof fn law_note_of_a_disk(
    pad: Seq<char>,
    lv: Seq<char>,
    a: char,
    size: Seq<char>,
    b: char,
    rest: Seq<char>,
)
    requires
        is_blank(pad),
        lv.len() > 0 && is_one_word(lv),
        size.len() > 0 && is_one_word(size),
        is_space(a),
        is_space(b),
    ensures
        kept_disk(pad + (lv + seq![a] + (size + seq![b] + rest))) == Some((lv, size)),
        kept_disk(pad + lv) is None,
        kept_disk(pad) is None,
        kept_lv(pad + (lv + seq![a] + rest)) == Some(lv),
        kept_lv(pad + lv) == Some(lv),
        kept_lv(pad) is None,
{
    law_words(pad, lv, a, size + seq![b] + rest);
    law_words(Seq::empty(), size, b, rest);
    assert(Seq::<char>::empty() + (size + seq![b] + rest) =~= size + seq![b] + rest);
    law_words(pad, lv, a, rest);
    assert(words(pad + (lv + seq![a] + (size + seq![b] + rest))) =~= seq![lv] + (seq![size] + words(
        rest,
    )));
}

/// What is said of a size that is not known tells why.
pub proof fn law_size_errors(e: NumberError)
    ensures
        SizeError::Empty.said() == "empty du output for rootfs"@,
        SizeError::NotANumber(e).said() == e.said(),
{
}

}
