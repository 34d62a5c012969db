//! What a guest boots.
use vstd::prelude::*;

use crate::config_generator::{BackendConfig, ConfigError, Domain};
use crate::frontend::ImageConfig;
use crate::text::same;

verus! {

broadcast use vstd::string::group_string_axioms;

/// The element `name` around `path`, on a line of its own; nothing where there is no path.
pub open spec fn path_element(open: Seq<char>, path: Seq<char>, close: Seq<char>) -> Seq<char> {
    if path.len() > 0 {
        open + path + close
    } else {
        Seq::empty()
    }
}

/// Whether the root file system of a guest is on a disk of its own.
pub open spec fn has_root_disk(ic: ImageConfig) -> bool {
    ic.disk_type@ == "file"@ || ic.disk_type@ == "lvm"@
}

/// The command line of a Linux kernel.
pub open spec fn kernel_cmdline(ic: ImageConfig) -> Seq<char> {
    if has_root_disk(ic) {
        "console=ttyS0,115200 root=/dev/vda rw"@
    } else {
        "console=ttyS0,115200"@
    }
}

/// What a guest boots: kernel, ramdisk, device tree and command line of a Linux guest, or the
/// payload alone.
pub open spec fn boot_xml(ic: ImageConfig, is_linux: bool) -> Seq<char> {
    if is_linux {
        path_element("    <kernel>"@, ic.inmate@, "</kernel>\n"@) + path_element(
            "    <initrd>"@,
            ic.ramdisk@,
            "</initrd>\n"@,
        ) + path_element("    <dtb>"@, ic.dtb@, "</dtb>\n"@) + ("    <cmdline>"@ + kernel_cmdline(ic)
            + "</cmdline>"@)
    } else {
        path_element("    <kernel>"@, ic.inmate@, "</kernel>"@)
    }
}

fn element(open: &str, path: &str, close: &str) -> (r: String)
    ensures
        r@ == path_element(open@, path@, close@),
{
    if path.is_empty() {
        String::new()
    } else {
        open.to_owned().concat(path).concat(close)
    }
}

/// Sets what the domain boots.
pub fn bootconf(ic: &ImageConfig, c: &mut BackendConfig, is_linux: &bool) -> (r: Result<
    (),
    ConfigError,
>)
    ensures
        r is Ok,
        final(c)@ == (Domain { os_boot_xml: boot_xml(*ic, *is_linux), ..old(c)@ }),
{
    let boot: String = if *is_linux {
        let cmdline = if same(ic.disk_type.as_str(), "file") || same(ic.disk_type.as_str(), "lvm") {
            "console=ttyS0,115200 root=/dev/vda rw"
        } else {
            "console=ttyS0,115200"
        };
        let cmdline = "    <cmdline>".to_owned().concat(cmdline).concat("</cmdline>");
        element("    <kernel>", ic.inmate.as_str(), "</kernel>\n").concat(
            element("    <initrd>", ic.ramdisk.as_str(), "</initrd>\n").as_str(),
        ).concat(element("    <dtb>", ic.dtb.as_str(), "</dtb>\n").as_str()).concat(
            cmdline.as_str(),
        )
    } else {
        element("    <kernel>", ic.inmate.as_str(), "</kernel>")
    };
    c.os_boot_xml = boot;
    assert(c@ =~= (Domain { os_boot_xml: boot_xml(*ic, *is_linux), ..old(c)@ }));
    Ok(())
}

/// A Linux guest boots with a command line that names the root device if and only if the root file
/// system is on a disk of its own; before it stand the kernel, the ramdisk and the device tree, each
/// if the image has it.
pub proof fn law_what_a_linux_guest_boots(ic: ImageConfig)
    ensures
        ({
            let kernel = if ic.inmate@.len() > 0 {
                "    <kernel>"@ + ic.inmate@ + "</kernel>\n"@
            } else {
                Seq::empty()
            };
            let initrd = if ic.ramdisk@.len() > 0 {
                "    <initrd>"@ + ic.ramdisk@ + "</initrd>\n"@
            } else {
                Seq::empty()
            };
            let dtb = if ic.dtb@.len() > 0 {
                "    <dtb>"@ + ic.dtb@ + "</dtb>\n"@
            } else {
                Seq::empty()
            };
            let cmdline = if ic.disk_type@ == "file"@ || ic.disk_type@ == "lvm"@ {
                "    <cmdline>console=ttyS0,115200 root=/dev/vda rw</cmdline>"@
            } else {
                "    <cmdline>console=ttyS0,115200</cmdline>"@
            };
            boot_xml(ic, true) == kernel + initrd + dtb + cmdline
        }),
{
    reveal_strlit("    <cmdline>");
    reveal_strlit("</cmdline>");
    reveal_strlit("console=ttyS0,115200 root=/dev/vda rw");
    reveal_strlit("console=ttyS0,115200");
    reveal_strlit("    <cmdline>console=ttyS0,115200 root=/dev/vda rw</cmdline>");
    reveal_strlit("    <cmdline>console=ttyS0,115200</cmdline>");
    assert("    <cmdline>console=ttyS0,115200 root=/dev/vda rw</cmdline>"@ =~= "    <cmdline>"@
        + "console=ttyS0,115200 root=/dev/vda rw"@ + "</cmdline>"@);
    assert("    <cmdline>console=ttyS0,115200</cmdline>"@ =~= "    <cmdline>"@
        + "console=ttyS0,115200"@ + "</cmdline>"@);
}

/// Any other guest boots its payload alone, and nothing where it has none: neither a ramdisk nor a
/// device tree nor a command line.
pub proof fn law_what_another_guest_boots(ic: ImageConfig)
    ensures
        ic.inmate@.len() > 0 ==> boot_xml(ic, false) == "    <kernel>"@ + ic.inmate@ + "</kernel>"@,
        ic.inmate@.len() == 0 ==> boot_xml(ic, false).len() == 0,
{
}

}
