//! The architecture and the CPUs of a guest.
use vstd::prelude::*;

use serde_json::Value;

use crate::config_generator::{BackendConfig, ConfigError, Domain};
use crate::decimal::{digits, print_u64};
use crate::frontend::{FrontendConfig, ImageConfig, VcpuPin};
use crate::json::{at, holds_number, json_of, member, Json};
use crate::text::{join, law_occurrence, occurs_in, same};

verus! {

broadcast use vstd::string::group_string_axioms;

// ---------------------------------------------------------------------------
// The quota of the container
// ---------------------------------------------------------------------------

/// The greatest integer up to which every integer is a double-precision number.
pub const EXACT_MAX: u64 = 0x20_0000_0000_0000;

/// A quota or a period, as far as it can be told without real arithmetic.
#[derive(Debug, Clone, Copy, PartialEq, Eq, Structural)]
pub enum Amount {
    /// It is missing, or not a number, or not positive.
    Nothing,
    /// It is this positive integer.
    Whole(u64),
    /// It is a number that takes real arithmetic.
    Real,
}

/// The amount that a JSON document gives.
pub open spec fn amount_in(j: Json) -> Amount {
    match j {
        Json::PosInt(n) => if n == 0 {
            Amount::Nothing
        } else if n <= EXACT_MAX {
            Amount::Whole(n)
        } else {
            Amount::Real
        },
        Json::Real(_) => Amount::Real,
        _ => Amount::Nothing,
    }
}

/// `quota / period`, rounded up, and at most the greatest `u32`.
pub open spec fn cpus_for(quota: nat, period: nat) -> u32
    recommends
        period > 0,
{
    let cpus = (quota + period - 1) / period as int;
    if cpus <= u32::MAX {
        cpus as u32
    } else {
        u32::MAX
    }
}

/// The number of CPUs that a quota and a period stand for; 0 where they set no limit, and
/// `None` where it takes real arithmetic to tell.
pub open spec fn cpu_limit(quota: Amount, period: Amount) -> Option<u32> {
    match (quota, period) {
        (Amount::Nothing, _) => Some(0),
        (_, Amount::Nothing) => Some(0),
        (Amount::Whole(q), Amount::Whole(p)) => Some(cpus_for(q as nat, p as nat)),
        _ => None,
    }
}

/// The section `linux.resources.cpu` of the container.
pub open spec fn cpu_section(fc: FrontendConfig) -> Json {
    member(member(member(json_of(fc.jsonconfig), "linux"@), "resources"@), "cpu"@)
}

fn amount(v: &Value) -> (r: Amount)
    ensures
        r == amount_in(json_of(*v)),
{
    match v.as_u64() {
        Some(n) => if n == 0 {
            Amount::Nothing
        } else if n <= EXACT_MAX {
            Amount::Whole(n)
        } else {
            Amount::Real
        },
        None => if v.is_number() && v.as_i64().is_none() {
            Amount::Real
        } else {
            Amount::Nothing
        },
    }
}

/// The number of CPUs that the quota of the container stands for: quota over period, rounded
/// up, or 0 without a limit. Where a number in the configuration is not an integer that double
/// precision holds exactly, there is no answer.
pub fn oci_cpu_limit(fc: &FrontendConfig) -> (r: Option<u32>)
    ensures
        r == cpu_limit(
            amount_in(member(cpu_section(*fc), "quota"@)),
            amount_in(member(cpu_section(*fc), "period"@)),
        ),
{
    let cpu = at(at(at(&fc.jsonconfig, "linux"), "resources"), "cpu");
    let quota = amount(at(cpu, "quota"));
    let period = amount(at(cpu, "period"));
    match (quota, period) {
        (Amount::Nothing, _) => Some(0),
        (_, Amount::Nothing) => Some(0),
        (Amount::Whole(q), Amount::Whole(p)) => {
            let cpus: u64 = (q + p - 1) / p;
            if cpus <= u32::MAX as u64 {
                Some(cpus as u32)
            } else {
                Some(u32::MAX)
            }
        },
        _ => None,
    }
}

/// The CPUs of a quota are the least number that gives the container its quota in each period.
pub proof fn law_cpus_cover_the_quota(quota: nat, period: nat)
    requires
        quota > 0,
        period > 0,
        quota <= period * u32::MAX,
    ensures
        cpus_for(quota, period) > 0,
        cpus_for(quota, period) * period >= quota,
        (cpus_for(quota, period) - 1) * period < quota,
{
    let q = quota as int;
    let p = period as int;
    let cpus = (q + p - 1) / p;
    vstd::arithmetic::div_mod::lemma_fundamental_div_mod(q + p - 1, p);
    assert((cpus - 1) * p == p * cpus - p) by (nonlinear_arith);
    assert(cpus * p == p * cpus) by (nonlinear_arith);
    assert(cpus > 0) by (nonlinear_arith)
        requires
            p > 0,
            q > 0,
            p * cpus >= q,
    ;
    assert(cpus <= u32::MAX) by (nonlinear_arith)
        requires
            p > 0,
            q <= p * u32::MAX,
            p * cpus - p < q,
    ;
}

// ---------------------------------------------------------------------------
// Architecture
// ---------------------------------------------------------------------------

/// The domain `d` with the parts that depend on the architecture of the host and on whether it
/// offers KVM. Without KVM the CPU is emulated. On an architecture that is not known nothing is
/// set.
pub open spec fn with_architecture(d: Domain, arch: Seq<char>, has_kvm: bool) -> Domain {
    let domain_type = if has_kvm {
        "kvm"@
    } else {
        "qemu"@
    };
    if arch == "aarch64"@ {
        Domain {
            os_arch: "aarch64"@,
            os_machine: "virt"@,
            features_xml: "<gic version='3'/>"@,
            domain_type,
            cpu_xml: if has_kvm {
                "<cpu mode='host-passthrough' check='none'/>"@
            } else {
                "<cpu mode='custom' match='exact'><model fallback='forbid'>max</model></cpu>"@
            },
            ..d
        }
    } else if arch == "x86_64"@ {
        Domain {
            os_arch: "x86_64"@,
            os_machine: "q35"@,
            features_xml: "<acpi/>\n    <apic/>"@,
            domain_type,
            cpu_xml: if has_kvm {
                "<cpu mode='host-passthrough' check='none'/>"@
            } else {
                "<cpu mode='custom' match='exact'><model fallback='forbid'>qemu64</model></cpu>"@
            },
            ..d
        }
    } else {
        d
    }
}

fn set_architecture(c: &mut BackendConfig, arch: &str, has_kvm: bool)
    ensures
        final(c)@ == with_architecture(old(c)@, arch@, has_kvm),
{
    let is_arm: bool = same(arch, "aarch64");
    let is_x86: bool = same(arch, "x86_64");
    if is_arm || is_x86 {
        c.domain_type = (if has_kvm {
            "kvm"
        } else {
            "qemu"
        }).to_owned();
        c.cpu_xml = (if has_kvm {
            "<cpu mode='host-passthrough' check='none'/>"
        } else if is_arm {
            "<cpu mode='custom' match='exact'><model fallback='forbid'>max</model></cpu>"
        } else {
            "<cpu mode='custom' match='exact'><model fallback='forbid'>qemu64</model></cpu>"
        }).to_owned();
    }
    if is_arm {
        c.os_arch = "aarch64".to_owned();
        c.os_machine = "virt".to_owned();
        c.features_xml = "<gic version='3'/>".to_owned();
    } else if is_x86 {
        c.os_arch = "x86_64".to_owned();
        c.os_machine = "q35".to_owned();
        c.features_xml = "<acpi/>\n    <apic/>".to_owned();
    }
    assert(c@ =~= with_architecture(old(c)@, arch@, has_kvm));
}

// ---------------------------------------------------------------------------
// Virtual CPUs
// ---------------------------------------------------------------------------

/// The number of virtual CPUs of a guest: what the image says, or else the number of its
/// pinnings, or else the CPUs of the container's quota, or else one.
pub open spec fn vcpu_count(ic: ImageConfig, oci_cpus: u32) -> u32 {
    if ic.vcpus > 0 {
        ic.vcpus
    } else if ic.vcpu_pinning@.len() > 0 {
        ic.vcpu_pinning@.len() as u32
    } else if oci_cpus > 0 {
        oci_cpus
    } else {
        1
    }
}

/// The mapping of one virtual CPU.
pub open spec fn pin_xml(pin: VcpuPin) -> Seq<char> {
    "    <vcpupin vcpu='"@ + digits(pin.vcpu as nat) + "' cpuset='"@ + digits(pin.pcpu as nat)
        + "'/>\n"@
}

/// The mappings of virtual CPUs, one after the other.
pub open spec fn pins_xml(pins: Seq<VcpuPin>) -> Seq<char>
    decreases pins.len(),
{
    if pins.len() == 0 {
        Seq::empty()
    } else {
        pins_xml(pins.drop_last()) + pin_xml(pins.last())
    }
}

/// The pinning of virtual CPUs to CPUs of the host.
pub open spec fn cputune_xml(pins: Seq<VcpuPin>) -> Seq<char> {
    "<cputune>\n"@ + pins_xml(pins) + "  </cputune>"@
}

fn print_pins(pins: &Vec<VcpuPin>) -> (r: String)
    ensures
        r@ == cputune_xml(pins@),
{
    let mut lines: String = String::new();
    let mut i: usize = 0;
    while i < pins.len()
        invariant
            i <= pins@.len(),
            lines@ == pins_xml(pins@.take(i as int)),
        decreases pins@.len() - i,
    {
        let line = "    <vcpupin vcpu='".to_owned().concat(
            print_u64(pins[i].vcpu as u64).as_str(),
        ).concat("' cpuset='").concat(print_u64(pins[i].pcpu as u64).as_str()).concat("'/>\n");
        assert(pins@.take(i + 1).drop_last() =~= pins@.take(i as int));
        lines.append(line.as_str());
        i = i + 1;
    }
    assert(pins@.take(i as int) =~= pins@);
    "<cputune>\n".to_owned().concat(lines.as_str()).concat("  </cputune>")
}

/// What the host says of the CPUs of a guest.
#[derive(Debug)]
pub struct HostCpu {
    /// Architecture of the host.
    pub arch: String,
    /// Whether the host offers KVM.
    pub has_kvm: bool,
    /// Number of CPUs of the container's quota by real arithmetic, or 0 without a limit. It
    /// counts only where [`oci_cpu_limit`] has no answer.
    pub real_cpus: u32,
}

/// The number of CPUs of the container's quota, or 0.
pub open spec fn oci_cpus(fc: FrontendConfig, host: HostCpu) -> u32 {
    match cpu_limit(
        amount_in(member(cpu_section(fc), "quota"@)),
        amount_in(member(cpu_section(fc), "period"@)),
    ) {
        Some(cpus) => cpus,
        None => host.real_cpus,
    }
}

/// The number of CPUs of the container's quota, or 0.
pub fn container_cpus(fc: &FrontendConfig, host: &HostCpu) -> (r: u32)
    ensures
        r == oci_cpus(*fc, *host),
{
    match oci_cpu_limit(fc) {
        Some(cpus) => cpus,
        None => host.real_cpus,
    }
}

/// The number of virtual CPUs of a guest whose container has a quota of `oci_cpus` CPUs.
pub fn allocated_vcpus(ic: &ImageConfig, oci_cpus: u32) -> (r: u32)
    ensures
        r == vcpu_count(*ic, oci_cpus),
{
    if ic.vcpus > 0 {
        ic.vcpus
    } else if ic.vcpu_pinning.len() > 0 {
        ic.vcpu_pinning.len() as u32
    } else if oci_cpus > 0 {
        oci_cpus
    } else {
        1
    }
}

/// Whether a guest gets more virtual CPUs than the quota of its container allows, of which the
/// administrator is told.
pub fn exceeds_quota(ic: &ImageConfig, oci_cpus: u32) -> (r: bool)
    ensures
        r == (oci_cpus > 0 && vcpu_count(*ic, oci_cpus) > oci_cpus),
{
    oci_cpus > 0 && allocated_vcpus(ic, oci_cpus) > oci_cpus
}

/// The domain `d` with the architecture and the CPUs of a guest.
pub open spec fn with_cpus(d: Domain, fc: FrontendConfig, ic: ImageConfig, host: HostCpu) -> Domain {
    let d = with_architecture(d, host.arch@, host.has_kvm);
    Domain {
        vcpus: vcpu_count(ic, oci_cpus(fc, host)),
        cputune_xml: if ic.vcpu_pinning@.len() > 0 {
            cputune_xml(ic.vcpu_pinning@)
        } else {
            d.cputune_xml
        },
        ..d
    }
}

/// Sets the architecture, the number of virtual CPUs and their pinning.
pub fn cpuconf(
    fc: &FrontendConfig,
    ic: &ImageConfig,
    c: &mut BackendConfig,
    host: &HostCpu,
) -> (r: Result<(), ConfigError>)
    ensures
        r is Ok,
        final(c)@ == with_cpus(old(c)@, *fc, *ic, *host),
{
    set_architecture(c, host.arch.as_str(), host.has_kvm);
    c.vcpus = allocated_vcpus(ic, container_cpus(fc, host));
    if ic.vcpu_pinning.len() > 0 {
        c.cputune_xml = print_pins(&ic.vcpu_pinning);
    }
    assert(c@ =~= with_cpus(old(c)@, *fc, *ic, *host));
    Ok(())
}

/// A guest that pins its CPUs and does not say how many it has gets one for each pinning; and
/// every guest has a CPU, unless it pins as many as a `u32` cannot count.
pub proof fn law_every_guest_has_a_cpu(ic: ImageConfig, oci_cpus: u32)
    requires
        ic.vcpu_pinning@.len() <= u32::MAX,
    ensures
        vcpu_count(ic, oci_cpus) > 0,
        ic.vcpus == 0 && ic.vcpu_pinning@.len() > 0 ==> vcpu_count(ic, oci_cpus)
            == ic.vcpu_pinning@.len(),
{
}

// ---------------------------------------------------------------------------
// What holds of the CPUs of every guest
// ---------------------------------------------------------------------------

/// The line that pins the virtual CPU `vcpu` to the CPU `pcpu` of the host.
pub open spec fn pinning_line(vcpu: u32, pcpu: u32) -> Seq<char> {
    "    <vcpupin vcpu='"@ + digits(vcpu as nat) + "' cpuset='"@ + digits(pcpu as nat) + "'/>\n"@
}

/// A guest that pins CPUs has one line for each entry of its list, in the order of the list, and
/// each line names the virtual CPU and the CPU of the host of its own entry. A guest that pins none
/// has what it had.
pub proof fn law_every_pinning_has_its_line(
    d: Domain,
    fc: FrontendConfig,
    ic: ImageConfig,
    host: HostCpu,
)
    ensures
        ic.vcpu_pinning@.len() > 0 ==> with_cpus(d, fc, ic, host).cputune_xml == "<cputune>\n"@ + join(
            ic.vcpu_pinning@.map_values(|pin: VcpuPin| pinning_line(pin.vcpu, pin.pcpu)),
            Seq::empty(),
        ) + "  </cputune>"@,
        forall|i: int|
            0 <= i < ic.vcpu_pinning@.len() ==> occurs_in(
                "<vcpupin vcpu='"@ + digits((#[trigger] ic.vcpu_pinning@[i]).vcpu as nat)
                    + "' cpuset='"@ + digits(ic.vcpu_pinning@[i].pcpu as nat) + "'/>"@,
                with_cpus(d, fc, ic, host).cputune_xml,
            ),
        ic.vcpu_pinning@.len() == 0 ==> with_cpus(d, fc, ic, host).cputune_xml == d.cputune_xml,
{
    let pins = ic.vcpu_pinning@;
    lemma_pins_are_joined(pins);
    assert forall|i: int| 0 <= i < pins.len() implies occurs_in(
        "<vcpupin vcpu='"@ + digits((#[trigger] pins[i]).vcpu as nat) + "' cpuset='"@ + digits(
            pins[i].pcpu as nat,
        ) + "'/>"@,
        with_cpus(d, fc, ic, host).cputune_xml,
    ) by {
        reveal_strlit("    <vcpupin vcpu='");
        reveal_strlit("<vcpupin vcpu='");
        reveal_strlit("    ");
        reveal_strlit("'/>\n");
        reveal_strlit("'/>");
        reveal_strlit("\n");
        let a = pins_xml(pins.take(i));
        let b = pins_xml(pins.skip(i + 1));
        let pin = pins[i];
        let element = "<vcpupin vcpu='"@ + digits(pin.vcpu as nat) + "' cpuset='"@ + digits(
            pin.pcpu as nat,
        ) + "'/>"@;
        assert("    <vcpupin vcpu='"@ =~= "    "@ + "<vcpupin vcpu='"@);
        assert("'/>\n"@ =~= "'/>"@ + "\n"@);
        assert(pins =~= pins.take(i) + (seq![pin] + pins.skip(i + 1)));
        law_pinnings_go_one_by_one(pins.take(i), seq![pin] + pins.skip(i + 1), pin);
        law_pinnings_go_one_by_one(seq![pin], pins.skip(i + 1), pin);
        let before = "<cputune>\n"@ + a + "    "@;
        let after = "\n"@ + b + "  </cputune>"@;
        assert(cputune_xml(pins) =~= before + element + after);
        law_occurrence(element, before, after, Seq::empty());
    }
}

/// The lines of two lists are those of the first and then those of the second, so that reordering
/// a list reorders its lines; and an entry has one line.
pub proof fn law_pinnings_go_one_by_one(a: Seq<VcpuPin>, b: Seq<VcpuPin>, pin: VcpuPin)
    ensures
        pins_xml(a + b) == pins_xml(a) + pins_xml(b),
        pins_xml(seq![pin]) == pinning_line(pin.vcpu, pin.pcpu),
    decreases b.len(),
{
    assert(seq![pin].drop_last() =~= Seq::<VcpuPin>::empty());
    assert(pins_xml(Seq::<VcpuPin>::empty()) =~= Seq::<char>::empty());
    assert(pins_xml(seq![pin]) =~= pin_xml(pin));
    if b.len() == 0 {
        assert(a + b =~= a);
        assert(pins_xml(a) + pins_xml(b) =~= pins_xml(a));
    } else {
        assert((a + b).drop_last() =~= a + b.drop_last());
        law_pinnings_go_one_by_one(a, b.drop_last(), pin);
        assert(pins_xml(a + b) =~= pins_xml(a) + pins_xml(b));
    }
}

proof fn lemma_pins_are_joined(pins: Seq<VcpuPin>)
    ensures
        pins_xml(pins) == join(
            pins.map_values(|pin: VcpuPin| pinning_line(pin.vcpu, pin.pcpu)),
            Seq::empty(),
        ),
    decreases pins.len(),
{
    let lines = pins.map_values(|pin: VcpuPin| pinning_line(pin.vcpu, pin.pcpu));
    if pins.len() > 0 {
        let front = pins.drop_last();
        lemma_pins_are_joined(front);
        assert(lines.drop_last() =~= front.map_values(
            |pin: VcpuPin| pinning_line(pin.vcpu, pin.pcpu),
        ));
        assert(pin_xml(pins.last()) == lines.last());
        if pins.len() == 1 {
            assert(front =~= Seq::<VcpuPin>::empty());
            assert(pins_xml(pins) =~= lines[0]);
        } else {
            assert(pins_xml(pins) =~= join(lines.drop_last(), Seq::empty()) + Seq::<char>::empty()
                + lines.last());
        }
    } else {
        assert(pins_xml(pins) =~= Seq::<char>::empty());
    }
}

/// The number of virtual CPUs is what the image says. Where it says nothing, there is one for each
/// pinning. Where it pins none, there are as many as cover the quota of the container: the least
/// number whose share of each period is not less than the quota. Without a quota there is one.
pub proof fn law_number_of_vcpus(d: Domain, fc: FrontendConfig, ic: ImageConfig, host: HostCpu)
    requires
        ic.vcpu_pinning@.len() <= u32::MAX,
    ensures
        ({
            let cpu = member(
                member(member(json_of(fc.jsonconfig), "linux"@), "resources"@),
                "cpu"@,
            );
            let quota = member(cpu, "quota"@);
            let period = member(cpu, "period"@);
            let vcpus = with_cpus(d, fc, ic, host).vcpus;
            &&& ic.vcpus > 0 ==> vcpus == ic.vcpus
            &&& ic.vcpus == 0 && ic.vcpu_pinning@.len() > 0 ==> vcpus == ic.vcpu_pinning@.len()
            &&& ic.vcpus == 0 && ic.vcpu_pinning@.len() == 0 ==> {
                &&& quota matches Json::PosInt(q) ==> (period matches Json::PosInt(p) ==> {
                    0 < q <= 0x20_0000_0000_0000 && 0 < p <= 0x20_0000_0000_0000 && q <= p
                        * u32::MAX ==> vcpus > 0 && vcpus * p >= q && (vcpus - 1) * p < q
                })
                &&& quota == Json::PosInt(0) || period == Json::PosInt(0) || quota is NegInt
                    || period is NegInt || !holds_number(quota) || !holds_number(period) ==> vcpus
                    == 1
                &&& quota matches Json::PosInt(q) ==> (period matches Json::PosInt(p) ==> {
                    0 < q <= 0x20_0000_0000_0000 && 0 < p <= 0x20_0000_0000_0000 && q > p
                        * u32::MAX ==> vcpus == u32::MAX
                })
                &&& {
                    let large = |j: Json| j is Real || j->PosInt_0 > 0x20_0000_0000_0000;
                    let positive = |j: Json| j is Real || j is PosInt && j->PosInt_0 > 0;
                    positive(quota) && positive(period) && (large(quota) || large(period)) ==> vcpus
                        == if host.real_cpus > 0 {
                        host.real_cpus
                    } else {
                        1
                    }
                }
            }
        }),
{
    let quota = member(cpu_section(fc), "quota"@);
    let period = member(cpu_section(fc), "period"@);
    if let (Json::PosInt(q), Json::PosInt(p)) = (quota, period) {
        if 0 < q <= EXACT_MAX && 0 < p <= EXACT_MAX && q <= p * u32::MAX {
            law_cpus_cover_the_quota(q as nat, p as nat);
        }
        if 0 < q <= EXACT_MAX && 0 < p <= EXACT_MAX && q > p * u32::MAX {
            let cpus = (q + p - 1) / p as int;
            vstd::arithmetic::div_mod::lemma_fundamental_div_mod(q + p - 1, p as int);
            assert(cpus > u32::MAX) by (nonlinear_arith)
                requires
                    p > 0,
                    q > p * u32::MAX,
                    q + p - 1 == p * cpus + (q + p - 1) % (p as int),
                    (q + p - 1) % (p as int) < p,
            ;
        }
    }
}

/// With KVM the guest runs on the CPU of the host; without it the CPU is emulated. The machine and
/// its features are those of the architecture of the host. Nothing else of the domain changes.
pub proof fn law_architecture_of_the_host(
    d: Domain,
    fc: FrontendConfig,
    ic: ImageConfig,
    host: HostCpu,
)
    ensures
        ({
            let r = with_cpus(d, fc, ic, host);
            let known = host.arch@ == "x86_64"@ || host.arch@ == "aarch64"@;
            &&& known && host.has_kvm ==> r.domain_type == "kvm"@ && r.cpu_xml
                == "<cpu mode='host-passthrough' check='none'/>"@
            &&& known && !host.has_kvm ==> r.domain_type == "qemu"@
            &&& known ==> r.os_arch == host.arch@
            &&& host.arch@ == "x86_64"@ ==> r.os_machine == "q35"@ && r.features_xml
                == "<acpi/>\n    <apic/>"@
            &&& host.arch@ == "aarch64"@ ==> r.os_machine == "virt"@ && r.features_xml
                == "<gic version='3'/>"@
            &&& host.arch@ == "x86_64"@ && !host.has_kvm ==> r.cpu_xml
                == "<cpu mode='custom' match='exact'><model fallback='forbid'>qemu64</model></cpu>"@
            &&& host.arch@ == "aarch64"@ && !host.has_kvm ==> r.cpu_xml
                == "<cpu mode='custom' match='exact'><model fallback='forbid'>max</model></cpu>"@
            &&& !known ==> r.domain_type == d.domain_type && r.os_arch == d.os_arch && r.os_machine
                == d.os_machine && r.features_xml == d.features_xml && r.cpu_xml == d.cpu_xml
            &&& r.name == d.name && r.memory_kib == d.memory_kib && r.os_boot_xml == d.os_boot_xml
                && r.devices_xml == d.devices_xml && r.xml_file == d.xml_file
        }),
{
    reveal_strlit("x86_64");
    reveal_strlit("aarch64");
    assert("x86_64"@.len() == 6 && "aarch64"@.len() == 7);
}

}
