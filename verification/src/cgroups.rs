//! The cgroup that confines a guest: where it is, and which limits it enforces.
use vstd::prelude::*;

use oci_spec::runtime::{LinuxMemory, LinuxMemoryBuilder, LinuxResources};
use oci_spec::OciSpecError;
use serde_json::Value;

use crate::actions::{join_path, path_in, FileText, FileWrite};
use crate::frontend::{FrontendConfig, ImageConfig};
use crate::json::{at, bool_in, i64_in, json_of, member, text_in, Json};
use crate::text::{
    is_blank, is_space, kept_text, law_trimming, lemma_blank_is_trimmed_away, lemma_trimmed_is_same,
    same, trim, trimmed,
};

verus! {

broadcast use vstd::string::group_string_axioms;

// ---------------------------------------------------------------------------
// Paths
// ---------------------------------------------------------------------------

/// `p` without the separators and `.` components that it starts with.
pub open spec fn skip_blank(p: Seq<char>) -> Seq<char>
    decreases p.len(),
{
    if p.len() > 0 && p[0] == '/' {
        skip_blank(p.skip(1))
    } else if p.len() > 1 && p[0] == '.' && p[1] == '/' {
        skip_blank(p.skip(2))
    } else if p.len() == 1 && p[0] == '.' {
        Seq::empty()
    } else {
        p
    }
}

/// `p` without the separators and `.` components that it ends with.
pub open spec fn drop_blank(p: Seq<char>) -> Seq<char>
    decreases p.len(),
{
    if p.len() > 0 && p.last() == '/' {
        drop_blank(p.drop_last())
    } else if p.len() > 1 && p.last() == '.' && p[p.len() - 2] == '/' {
        drop_blank(p.take(p.len() - 2))
    } else if p.len() == 1 && p[0] == '.' {
        Seq::empty()
    } else {
        p
    }
}

/// The path below the root that the absolute path `p` leads to. Separators and `.` components
/// at its ends are not part of it.
pub open spec fn below_root(p: Seq<char>) -> Seq<char> {
    drop_blank(skip_blank(p))
}

fn strip_root(p: &str) -> (r: String)
    ensures
        r@ == below_root(p@),
{
    let n: usize = p.unicode_len();
    let mut from: usize = 0;
    let mut to: usize = n;
    let mut more: bool = true;
    assert(p@.skip(0) =~= p@);
    while more
        invariant
            n == p@.len(),
            from <= n,
            skip_blank(p@) == skip_blank(p@.skip(from as int)),
            !more ==> skip_blank(p@.skip(from as int)) == p@.skip(from as int),
        decreases n - from, more as int,
    {
        let ghost rest = p@.skip(from as int);
        if from < n && p.get_char(from) == '/' {
            assert(rest.skip(1) =~= p@.skip(from + 1));
            from = from + 1;
        } else if n - from > 1 && p.get_char(from) == '.' && p.get_char(from + 1) == '/' {
            assert(rest.skip(2) =~= p@.skip(from + 2));
            from = from + 2;
        } else if n - from == 1 && p.get_char(from) == '.' {
            assert(p@.skip(from + 1) =~= Seq::<char>::empty());
            from = from + 1;
            more = false;
        } else {
            more = false;
        }
    }
    let ghost body = skip_blank(p@);
    assert(body =~= p@.subrange(from as int, to as int));
    more = true;
    while more
        invariant
            from <= to <= n == p@.len(),
            drop_blank(body) == drop_blank(p@.subrange(from as int, to as int)),
            !more ==> drop_blank(p@.subrange(from as int, to as int)) == p@.subrange(
                from as int,
                to as int,
            ),
        decreases to, more as int,
    {
        let ghost rest = p@.subrange(from as int, to as int);
        if to > from && p.get_char(to - 1) == '/' {
            assert(rest.drop_last() =~= p@.subrange(from as int, to - 1));
            to = to - 1;
        } else if to - from > 1 && p.get_char(to - 1) == '.' && p.get_char(to - 2) == '/' {
            assert(rest.take(rest.len() - 2) =~= p@.subrange(from as int, to - 2));
            to = to - 2;
        } else if to - from == 1 && p.get_char(from) == '.' {
            assert(p@.subrange(from as int, to - 1) =~= Seq::<char>::empty());
            to = to - 1;
            more = false;
        } else {
            more = false;
        }
    }
    p.substring_char(from, to).to_owned()
}

/// The path of the cgroup of a container that asks for none.
pub open spec fn default_cgroup_path(containerid: Seq<char>) -> Seq<char> {
    "runphi/"@ + containerid
}

/// The path of the cgroup of a container, relative to the root of the cgroup file system.
pub open spec fn cgroup_path(fc: FrontendConfig) -> Seq<char> {
    match text_in(member(member(json_of(fc.jsonconfig), "linux"@), "cgroupsPath"@)) {
        Some(p) if trimmed(p).len() > 0 => if p[0] == '/' {
            below_root(p)
        } else {
            p
        },
        _ => default_cgroup_path(fc.containerid@),
    }
}

/// Resolves the cgroup path from the OCI configuration, or defaults to `runphi/<container id>`.
pub fn resolve_cgroup_path(fc: &FrontendConfig) -> (r: String)
    ensures
        r@ == cgroup_path(*fc),
{
    match at(at(&fc.jsonconfig, "linux"), "cgroupsPath").as_str() {
        Some(p) => {
            if !trim(p).is_empty() {
                proof {
                    crate::text::lemma_trimmed_edges(p@);
                }
                if p.get_char(0) == '/' {
                    return strip_root(p);
                }
                return p.to_owned();
            }
        },
        None => {},
    }
    "runphi/".to_owned().concat(fc.containerid.as_str())
}

/// The path that was kept in the state directory, if a path is kept there.
pub open spec fn stored_path(containerid: Seq<char>, kept: Option<Seq<char>>) -> Seq<char> {
    match kept {
        Some(text) if trimmed(text).len() > 0 => trimmed(text),
        _ => default_cgroup_path(containerid),
    }
}

/// The cgroup path that was kept in the state directory, given the content of its file, or
/// `runphi/<container id>`.
pub fn get_stored_cgroup_path(containerid: &str, kept: Option<&str>) -> (r: String)
    ensures
        r@ == stored_path(containerid@, kept_text(kept)),
{
    match kept {
        Some(text) => {
            let path = trim(text);
            if !path.is_empty() {
                return path.to_owned();
            }
        },
        None => {},
    }
    "runphi/".to_owned().concat(containerid)
}

/// Whether the state directory says that systemd manages the cgroup.
pub open spec fn stored_flag(kept: Option<Seq<char>>) -> bool {
    match kept {
        Some(text) => trimmed(text) == "1"@ || trimmed(text) == "true"@,
        None => false,
    }
}

/// Whether systemd manages the cgroup, given the content of the file that says so.
pub fn get_stored_systemd_cgroup(kept: Option<&str>) -> (r: bool)
    ensures
        r == stored_flag(kept_text(kept)),
{
    match kept {
        Some(text) => {
            let flag = trim(text);
            same(flag, "1") || same(flag, "true")
        },
        None => false,
    }
}

/// The text that keeps whether systemd manages the cgroup.
pub open spec fn flag_text(systemd_cgroup: bool) -> Seq<char> {
    if systemd_cgroup {
        "1"@
    } else {
        "0"@
    }
}

/// A cgroup path is relative to the root of the cgroup file system.
pub proof fn law_cgroup_path_is_relative(fc: FrontendConfig)
    ensures
        cgroup_path(fc).len() > 0 ==> cgroup_path(fc)[0] != '/',
{
    reveal_strlit("runphi/");
    match text_in(member(member(json_of(fc.jsonconfig), "linux"@), "cgroupsPath"@)) {
        Some(p) => {
            lemma_skip_blank(p);
            lemma_drop_blank(skip_blank(p));
        },
        None => {},
    }
}

proof fn lemma_skip_blank(p: Seq<char>)
    ensures
        skip_blank(p).len() > 0 ==> skip_blank(p)[0] != '/',
    decreases p.len(),
{
    if p.len() > 0 && p[0] == '/' {
        lemma_skip_blank(p.skip(1));
    } else if p.len() > 1 && p[0] == '.' && p[1] == '/' {
        lemma_skip_blank(p.skip(2));
    }
}

proof fn lemma_drop_blank(p: Seq<char>)
    ensures
        drop_blank(p).len() <= p.len(),
        drop_blank(p).len() > 0 ==> drop_blank(p)[0] == p[0],
    decreases p.len(),
{
    if p.len() > 0 && p.last() == '/' {
        lemma_drop_blank(p.drop_last());
    } else if p.len() > 1 && p.last() == '.' && p[p.len() - 2] == '/' {
        lemma_drop_blank(p.take(p.len() - 2));
    }
}

/// A cgroup path that is kept in the state directory is found again there, if it is not empty
/// and neither starts nor ends with whitespace.
pub proof fn law_stored_path_reads_back(containerid: Seq<char>, path: Seq<char>)
    requires
        path.len() > 0,
        !is_space(path[0]),
        !is_space(path.last()),
    ensures
        stored_path(containerid, Some(path)) == path,
{
    lemma_trimmed_is_same(path);
}

/// The flag that is kept in the state directory is found again there.
pub proof fn law_stored_flag_reads_back(systemd_cgroup: bool)
    ensures
        stored_flag(Some(flag_text(systemd_cgroup))) == systemd_cgroup,
{
    reveal_strlit("0");
    reveal_strlit("1");
    reveal_strlit("true");
    lemma_trimmed_is_same("0"@);
    lemma_trimmed_is_same("1"@);
    assert("0"@[0] != "1"@[0]);
    assert("0"@.len() != "true"@.len());
}

// ---------------------------------------------------------------------------
// Limits
// ---------------------------------------------------------------------------

/// The limits that a cgroup enforces.
#[verifier::external_type_specification]
#[verifier::external_body]
pub struct ExLinuxResources(oci_spec::runtime::LinuxResources);

/// The limits on memory.
#[verifier::external_type_specification]
#[verifier::external_body]
pub struct ExLinuxMemory(oci_spec::runtime::LinuxMemory);

/// An error of `oci_spec`.
#[verifier::external_type_specification]
#[verifier::external_body]
pub struct ExOciSpecError(oci_spec::OciSpecError);

/// The limits that `serde_json::from_value` reads from a `resources` section, if it can.
pub uninterp spec fn limits_in(section: Json) -> Option<oci_spec::runtime::LinuxResources>;

/// Whether `r` limits nothing: every field is `None`, as in what `LinuxResources::default` returns.
pub uninterp spec fn limits_nothing(r: oci_spec::runtime::LinuxResources) -> bool;

/// The limits on memory in `r`.
pub uninterp spec fn memory_of(r: oci_spec::runtime::LinuxResources) -> Option<
    oci_spec::runtime::LinuxMemory,
>;

/// `r` with `memory` for its limits on memory.
pub uninterp spec fn with_memory(
    r: oci_spec::runtime::LinuxResources,
    memory: oci_spec::runtime::LinuxMemory,
) -> oci_spec::runtime::LinuxResources;

/// The limits on memory that consist of a limit of `bytes` and nothing else.
pub uninterp spec fn memory_limit(bytes: i64) -> oci_spec::runtime::LinuxMemory;

/// The limit in bytes in limits on memory: what `LinuxMemory::limit` returns.
pub uninterp spec fn byte_limit(memory: oci_spec::runtime::LinuxMemory) -> Option<i64>;

/// The quota in the limits on CPUs in `r`, if there is one: what `LinuxCpu::quota` returns of
/// `LinuxResources::cpu`.
pub uninterp spec fn cpu_quota(r: oci_spec::runtime::LinuxResources) -> Option<i64>;

/// Whether a `resources` section says nothing of memory.
pub open spec fn silent_on_memory(section: Json) -> bool {
    !(section is List) && member(section, "memory"@) is Null
}

/// Whether a `resources` section says nothing of CPUs.
pub open spec fn silent_on_cpus(section: Json) -> bool {
    !(section is List) && member(section, "cpu"@) is Null
}

/// Reads a `resources` section.
///
/// `serde_json::from_value`, for `LinuxResources`. What it reads depends on the document alone. It
/// fails on whatever is neither an object nor an array. From a section that says nothing of memory
/// it reads no limits on memory. From a member `memory` that is an object it reads limits on memory
/// whose limit in bytes is the integer `limit` of that object, if there is one; and from a member
/// `cpu` that is an object, the integer `quota` of that object. From a section that says nothing of
/// CPUs it reads no quota.
#[verifier::external_body]
fn read_limits(section: &Value) -> (r: Result<LinuxResources, serde_json::Error>)
    ensures
        match r {
            Ok(limits) => limits_in(json_of(*section)) == Some(limits),
            Err(_) => limits_in(json_of(*section)) is None,
        },
        !(json_of(*section) is Record) && !(json_of(*section) is List) ==> r is Err,
        r is Ok && silent_on_memory(json_of(*section)) ==> memory_of(r->Ok_0) is None,
        r is Ok && member(json_of(*section), "memory"@) is Record ==> memory_of(r->Ok_0) is Some
            && byte_limit(memory_of(r->Ok_0)->Some_0) == i64_in(
            member(member(json_of(*section), "memory"@), "limit"@),
        ),
        r is Ok && member(json_of(*section), "cpu"@) is Record ==> cpu_quota(r->Ok_0) == i64_in(
            member(member(json_of(*section), "cpu"@), "quota"@),
        ),
        r is Ok && silent_on_cpus(json_of(*section)) ==> cpu_quota(r->Ok_0) is None,
{
    serde_json::from_value(section.clone())
}

/// The limits that limit nothing.
///
/// `LinuxResources::default`, which is derived: every field is `None`.
#[verifier::external_body]
fn default_limits() -> (r: LinuxResources)
    ensures
        limits_nothing(r),
        memory_of(r) is None,
        cpu_quota(r) is None,
{
    LinuxResources::default()
}

/// The limits on memory, if there are any.
///
/// `LinuxResources::memory`, the getter.
#[verifier::external_body]
fn get_memory(r: &LinuxResources) -> (memory: Option<&LinuxMemory>)
    ensures
        match memory {
            Some(m) => memory_of(*r) == Some(*m),
            None => memory_of(*r) is None,
        },
{
    r.memory().as_ref()
}

/// Sets the limits on memory and leaves every other limit as it is.
///
/// `LinuxResources::set_memory`, the setter.
#[verifier::external_body]
fn set_memory(r: &mut LinuxResources, memory: LinuxMemory)
    ensures
        *final(r) == with_memory(*old(r), memory),
        memory_of(*final(r)) == Some(memory),
        cpu_quota(*final(r)) == cpu_quota(*old(r)),
{
    r.set_memory(Some(memory));
}

/// The limits on memory that consist of a limit of `bytes`.
///
/// `LinuxMemoryBuilder`, with `limit` and `build`: every field has a default, so that `build`
/// does not fail, and `limit` is what was given.
#[verifier::external_body]
fn limit_memory(bytes: i64) -> (r: Result<LinuxMemory, OciSpecError>)
    ensures
        r is Ok,
        r->Ok_0 == memory_limit(bytes),
        byte_limit(r->Ok_0) == Some(bytes),
{
    LinuxMemoryBuilder::default().limit(bytes).build()
}

/// The limits to enforce: those of the container, and the memory of the image for a container
/// that has no limits on memory.
pub open spec fn enforced_limits(
    limits: oci_spec::runtime::LinuxResources,
    memory_mb: u64,
) -> oci_spec::runtime::LinuxResources {
    if memory_mb > 0 && memory_of(limits) is None {
        with_memory(limits, memory_limit((memory_mb * 0x10_0000) as i64))
    } else {
        limits
    }
}

/// Adds the memory of the image to limits that say nothing of memory.
pub fn add_memory_limit(limits: LinuxResources, memory_mb: u64) -> (r: Result<
    LinuxResources,
    OciSpecError,
>)
    requires
        memory_mb * 0x10_0000 <= u64::MAX || memory_of(limits) is Some,
    ensures
        r is Ok,
        r->Ok_0 == enforced_limits(limits, memory_mb),
        memory_mb > 0 && memory_of(limits) is None ==> memory_of(r->Ok_0) is Some && byte_limit(
            memory_of(r->Ok_0)->Some_0,
        ) == Some((memory_mb * 0x10_0000) as i64),
        cpu_quota(r->Ok_0) == cpu_quota(limits),
{
    let mut limits: LinuxResources = limits;
    if memory_mb > 0 && get_memory(&limits).is_none() {
        let bytes: u64 = memory_mb * 1024 * 1024;
        match limit_memory(bytes as i64) {
            Ok(memory) => set_memory(&mut limits, memory),
            Err(e) => return Err(e),
        }
    }
    Ok(limits)
}

/// The section `linux.resources` of the container.
pub open spec fn resources_section(fc: FrontendConfig) -> Json {
    member(member(json_of(fc.jsonconfig), "linux"@), "resources"@)
}

/// Whether `limits` are the limits of the container: those in its `resources` section, and none
/// where the section is missing or cannot be read.
pub open spec fn are_container_limits(
    fc: FrontendConfig,
    limits: oci_spec::runtime::LinuxResources,
) -> bool {
    match limits_in(resources_section(fc)) {
        Some(read) => limits == read,
        None => limits_nothing(limits) && memory_of(limits) is None && cpu_quota(limits) is None,
    }
}

/// The limits on memory that the container has.
pub open spec fn container_memory(fc: FrontendConfig) -> Option<oci_spec::runtime::LinuxMemory> {
    match limits_in(resources_section(fc)) {
        Some(limits) => memory_of(limits),
        None => None,
    }
}

/// The quota of CPU time that the container has.
pub open spec fn container_quota(fc: FrontendConfig) -> Option<i64> {
    match limits_in(resources_section(fc)) {
        Some(limits) => cpu_quota(limits),
        None => None,
    }
}

/// What the `resources` section of the container says of its limits on memory and CPUs: nothing
/// is read from what is neither an object nor an array; what the section is silent on is not
/// limited; a limit in bytes and a quota are the integers that it gives.
pub open spec fn section_is_read(fc: FrontendConfig) -> bool {
    let section = resources_section(fc);
    &&& !(section is Record) && !(section is List) ==> limits_in(section) is None
    &&& silent_on_memory(section) ==> container_memory(fc) is None
    &&& limits_in(section) is Some && member(section, "memory"@) is Record ==> container_memory(
        fc,
    ) is Some && byte_limit(container_memory(fc)->Some_0) == i64_in(
        member(member(section, "memory"@), "limit"@),
    )
    &&& silent_on_cpus(section) ==> container_quota(fc) is None
    &&& limits_in(section) is Some && member(section, "cpu"@) is Record ==> container_quota(fc)
        == i64_in(member(member(section, "cpu"@), "quota"@))
}

/// The limits of the container.
fn limits_of(fc: &FrontendConfig) -> (r: LinuxResources)
    ensures
        are_container_limits(*fc, r),
        section_is_read(*fc),
{
    match read_limits(at(at(&fc.jsonconfig, "linux"), "resources")) {
        Ok(limits) => limits,
        Err(_) => default_limits(),
    }
}

/// Whether the memory of the image in bytes can be counted, or need not be because the container
/// has limits on memory.
pub open spec fn memory_fits(fc: FrontendConfig, ic: ImageConfig) -> bool {
    ic.memory * 0x10_0000 <= u64::MAX || container_memory(fc) is Some
}

/// Decides [`memory_fits`].
pub fn is_memory_fit(fc: &FrontendConfig, ic: &ImageConfig) -> (r: bool)
    ensures
        r == memory_fits(*fc, *ic),
{
    ic.memory <= u64::MAX / 0x10_0000 || get_memory(&limits_of(fc)).is_some()
}

/// Whether `limits` limits memory as the container and the image ask for: by the limits of the
/// container, if it has any; else by the memory of the image, if it gives any; else not at all.
pub open spec fn limits_memory(
    fc: FrontendConfig,
    ic: ImageConfig,
    limits: oci_spec::runtime::LinuxResources,
) -> bool {
    if container_memory(fc) is None && ic.memory > 0 {
        memory_of(limits) is Some && byte_limit(memory_of(limits)->Some_0) == Some(
            (ic.memory * 0x10_0000) as i64,
        )
    } else {
        memory_of(limits) == container_memory(fc)
    }
}

/// Whether `limits` keeps the quota of CPU time that the container has, or has none if it has none.
pub open spec fn limits_cpus(
    fc: FrontendConfig,
    limits: oci_spec::runtime::LinuxResources,
) -> bool {
    cpu_quota(limits) == container_quota(fc)
}

/// Whether `limits` is what is to be enforced: the limits of the container, with the memory of the
/// image where the container has no limits on memory.
pub open spec fn are_enforced(
    fc: FrontendConfig,
    ic: ImageConfig,
    limits: oci_spec::runtime::LinuxResources,
) -> bool {
    &&& exists|own: oci_spec::runtime::LinuxResources| #[trigger]
        are_container_limits(fc, own) && limits == enforced_limits(own, ic.memory)
    &&& section_is_read(fc)
    &&& limits_memory(fc, ic, limits)
    &&& limits_cpus(fc, limits)
}

/// Builds the limits to enforce: those of the container, with the memory of the image where the
/// container has no limits on memory.
pub fn build_linux_resources(fc: &FrontendConfig, ic: &ImageConfig) -> (r: Result<
    LinuxResources,
    OciSpecError,
>)
    requires
        memory_fits(*fc, *ic),
    ensures
        r is Ok,
        are_enforced(*fc, *ic, r->Ok_0),
{
    let limits = limits_of(fc);
    let ghost own = limits;
    let r = add_memory_limit(limits, ic.memory);
    assert(are_container_limits(*fc, own));
    r
}

/// Limits on memory that the container has are enforced as they are, whatever the image says.
pub proof fn law_container_memory_prevails(
    fc: FrontendConfig,
    ic: ImageConfig,
    limits: oci_spec::runtime::LinuxResources,
)
    requires
        container_memory(fc) is Some,
        are_enforced(fc, ic, limits),
    ensures
        memory_fits(fc, ic),
        are_container_limits(fc, limits),
{
}

// ---------------------------------------------------------------------------
// The cgroup of a guest
// ---------------------------------------------------------------------------

/// Where a cgroup is and who manages it.
#[derive(Debug)]
pub struct CgroupConfig {
    /// Path of the cgroup.
    pub cgroup_path: String,
    /// Whether systemd manages it.
    pub systemd_cgroup: bool,
    /// Name of the container.
    pub container_name: String,
}

/// Where a cgroup is and who manages it, as texts.
#[verifier::ext_equal]
pub struct CgroupPlace {
    pub cgroup_path: Seq<char>,
    pub systemd_cgroup: bool,
    pub container_name: Seq<char>,
}

impl View for CgroupConfig {
    type V = CgroupPlace;

    open spec fn view(&self) -> CgroupPlace {
        CgroupPlace {
            cgroup_path: self.cgroup_path@,
            systemd_cgroup: self.systemd_cgroup,
            container_name: self.container_name@,
        }
    }
}

/// A cgroup with the given parameters.
fn build_cgroup_config(cgroup_path: String, container_id: &str, systemd_cgroup: bool) -> (r:
    CgroupConfig)
    ensures
        r@ == (CgroupPlace {
            cgroup_path: cgroup_path@,
            systemd_cgroup,
            container_name: container_id@,
        }),
{
    CgroupConfig { cgroup_path, systemd_cgroup, container_name: container_id.to_owned() }
}

/// The cgroup of a container, as it is kept in the state directory.
pub open spec fn stored_place(
    containerid: Seq<char>,
    kept_path: Option<Seq<char>>,
    kept_flag: Option<Seq<char>>,
) -> CgroupPlace {
    CgroupPlace {
        cgroup_path: stored_path(containerid, kept_path),
        systemd_cgroup: stored_flag(kept_flag),
        container_name: containerid,
    }
}

/// The cgroup of a container that exists: what is to be removed, frozen or measured, given the
/// content of the two files in the state directory.
pub fn stored_cgroup_config(
    containerid: &str,
    kept_path: Option<&str>,
    kept_flag: Option<&str>,
) -> (r: CgroupConfig)
    ensures
        r@ == stored_place(containerid@, kept_text(kept_path), kept_text(kept_flag)),
{
    build_cgroup_config(
        get_stored_cgroup_path(containerid, kept_path),
        containerid,
        get_stored_systemd_cgroup(kept_flag),
    )
}

/// What is to be done to confine a guest.
#[derive(Debug)]
pub struct CgroupSetup {
    /// Files in the state directory that keep where the cgroup is, for later commands.
    pub files: Vec<FileWrite>,
    /// The cgroup that the process of the guest joins.
    pub config: CgroupConfig,
    /// The limits to enforce.
    pub resources: LinuxResources,
    /// Adjustment of the score by which the kernel chooses what to kill.
    pub oom_score_adj: Option<i32>,
}

/// The cgroup of a container, as its configuration places it.
pub open spec fn configured_place(fc: FrontendConfig) -> CgroupPlace {
    CgroupPlace {
        cgroup_path: cgroup_path(fc),
        systemd_cgroup: managed_by_systemd(fc),
        container_name: fc.containerid@,
    }
}

/// Whether the container asks for a cgroup that systemd manages.
pub open spec fn managed_by_systemd(fc: FrontendConfig) -> bool {
    bool_in(member(json_of(fc.jsonconfig), "systemd_cgroup"@)) == Some(true)
}

/// The adjustment that the container asks for, cut to the low 32 bits.
pub open spec fn score_adjustment(fc: FrontendConfig) -> Option<i32> {
    match i64_in(member(member(json_of(fc.jsonconfig), "process"@), "oomScoreAdj"@)) {
        Some(n) => Some(n as i32),
        None => None,
    }
}

/// The files that keep where the cgroup of a container is.
pub open spec fn cgroup_files(fc: FrontendConfig) -> Seq<FileText> {
    seq![
        FileText { path: path_in(fc.crundir@, "cgroup_path"@), content: cgroup_path(fc) },
        FileText {
            path: path_in(fc.crundir@, "systemd_cgroup"@),
            content: flag_text(managed_by_systemd(fc)),
        },
    ]
}

/// The files in which later commands find the path of the cgroup of a container, and whether
/// systemd manages it, in the state directory `crundir`.
pub fn stored_cgroup_files(crundir: &str) -> (r: (String, String))
    ensures
        r.0@ == path_in(crundir@, "cgroup_path"@),
        r.1@ == path_in(crundir@, "systemd_cgroup"@),
{
    (join_path(crundir, "cgroup_path"), join_path(crundir, "systemd_cgroup"))
}

/// The cgroup of a container, as its configuration places it, and what is kept of it.
pub fn place_cgroup(fc: &FrontendConfig) -> (r: (Vec<FileWrite>, CgroupConfig))
    ensures
        r.0@.map_values(|w: FileWrite| w@) == cgroup_files(*fc),
        r.1@ == configured_place(*fc),
{
    let path = resolve_cgroup_path(fc);
    let systemd_cgroup: bool = match at(&fc.jsonconfig, "systemd_cgroup").as_bool() {
        Some(b) => b,
        None => false,
    };
    let (path_file, flag_file) = stored_cgroup_files(fc.crundir.as_str());
    let flag = if systemd_cgroup {
        "1"
    } else {
        "0"
    };
    let files = vec![
        FileWrite { path: path_file, content: path.clone() },
        FileWrite { path: flag_file, content: flag.to_owned() },
    ];
    assert(files@.map_values(|w: FileWrite| w@) =~= cgroup_files(*fc));
    (files, build_cgroup_config(path, fc.containerid.as_str(), systemd_cgroup))
}

/// Plans the confinement of a guest: what is kept for later commands, the cgroup that its
/// process joins, and the limits that the cgroup enforces.
pub fn setup_cgroups(fc: &FrontendConfig, ic: &ImageConfig) -> (r: Result<CgroupSetup, OciSpecError>)
    requires
        memory_fits(*fc, *ic),
    ensures
        r is Ok,
        r->Ok_0.files@.map_values(|w: FileWrite| w@) == cgroup_files(*fc),
        r->Ok_0.config@ == configured_place(*fc),
        are_enforced(*fc, *ic, r->Ok_0.resources),
        r->Ok_0.oom_score_adj == score_adjustment(*fc),
{
    let (files, config) = place_cgroup(fc);
    let resources = match build_linux_resources(fc, ic) {
        Ok(resources) => resources,
        Err(e) => return Err(e),
    };
    let oom_score_adj: Option<i32> = match at(
        at(&fc.jsonconfig, "process"),
        "oomScoreAdj",
    ).as_i64() {
        Some(n) => Some(n as i32),
        None => None,
    };
    Ok(CgroupSetup { files, config, resources, oom_score_adj })
}

/// Plans the confinement of a guest, as [`setup_cgroups`] does, if the memory of its image can be
/// counted.
pub fn plan_cgroups(fc: &FrontendConfig, ic: &ImageConfig) -> (r: Option<CgroupSetup>)
    ensures
        r is Some <==> memory_fits(*fc, *ic),
        r matches Some(setup) ==> {
            &&& setup.files@.map_values(|w: FileWrite| w@) == cgroup_files(*fc)
            &&& setup.config@ == configured_place(*fc)
            &&& are_enforced(*fc, *ic, setup.resources)
            &&& setup.oom_score_adj == score_adjustment(*fc)
        },
{
    if !is_memory_fit(fc, ic) {
        return None;
    }
    match setup_cgroups(fc, ic) {
        Ok(setup) => Some(setup),
        Err(_) => None,
    }
}

/// A later command finds the cgroup that was set up, if its path is not empty and neither starts
/// nor ends with whitespace.
pub proof fn law_stored_cgroup_is_the_configured(fc: FrontendConfig)
    requires
        cgroup_path(fc).len() > 0,
        !is_space(cgroup_path(fc)[0]),
        !is_space(cgroup_path(fc).last()),
    ensures
        stored_place(
            fc.containerid@,
            Some(cgroup_files(fc)[0].content),
            Some(cgroup_files(fc)[1].content),
        ) == configured_place(fc),
        cgroup_files(fc)[0].path == path_in(fc.crundir@, "cgroup_path"@),
        cgroup_files(fc)[1].path == path_in(fc.crundir@, "systemd_cgroup"@),
{
    law_stored_path_reads_back(fc.containerid@, cgroup_path(fc));
    law_stored_flag_reads_back(managed_by_systemd(fc));
}

/// What becomes of the processes in a cgroup.
#[derive(Debug, Clone, Copy, PartialEq, Eq, Structural)]
pub enum FreezerState {
    /// They are suspended.
    Frozen,
    /// They go on.
    Thawed,
}

/// The state that freezing a cgroup, or thawing it, brings about.
pub fn freezer_state(freeze: bool) -> (r: FreezerState)
    ensures
        r == (if freeze {
            FreezerState::Frozen
        } else {
            FreezerState::Thawed
        }),
{
    if freeze {
        FreezerState::Frozen
    } else {
        FreezerState::Thawed
    }
}

// ---------------------------------------------------------------------------
// What holds of the cgroup of every guest
// ---------------------------------------------------------------------------

/// Whether a path starts with a component of its own.
pub open spec fn has_clean_front(p: Seq<char>) -> bool {
    &&& p.len() > 0
    &&& p[0] != '/'
    &&& !(p[0] == '.' && (p.len() == 1 || p[1] == '/'))
}

/// Whether a path starts and ends with a component of its own.
pub open spec fn has_clean_edges(p: Seq<char>) -> bool {
    &&& p.len() > 0
    &&& p[0] != '/' && p.last() != '/'
    &&& !(p[0] == '.' && (p.len() == 1 || p[1] == '/'))
    &&& !(p.last() == '.' && (p.len() == 1 || p[p.len() - 2] == '/'))
}

/// An absolute path leads to what stands behind its root; separators and dots at its ends do not
/// count.
pub proof fn law_path_below_the_root(p: Seq<char>)
    ensures
        below_root(seq!['/'] + p) == below_root(p),
        below_root(seq!['.', '/'] + p) == below_root(p),
        has_clean_edges(p) ==> below_root(p) == p,
        has_clean_front(p) ==> below_root(p + seq!['/']) == below_root(p) && below_root(
            p + seq!['/', '.'],
        ) == below_root(p),
{
    assert((seq!['/'] + p).skip(1) =~= p);
    assert((seq!['.', '/'] + p).skip(2) =~= p);
    if has_clean_front(p) {
        let a = p + seq!['/'];
        let b = p + seq!['/', '.'];
        assert(a[0] == p[0] && b[0] == p[0]);
        if p.len() > 1 {
            assert(a[1] == p[1] && b[1] == p[1]);
        }
        assert(skip_blank(a) == a && skip_blank(b) == b);
        assert(a.last() == '/');
        assert(a.drop_last() =~= p);
        assert(b.last() == '.' && b[b.len() - 2] == '/');
        assert(b.take(b.len() - 2) =~= p);
    }
}

/// The cgroup of a container is at the path that it asks for. A relative path is taken as it is, an
/// absolute one without its root. A container that asks for no path, or for a blank one, has a
/// cgroup of its own.
pub proof fn law_place_of_a_cgroup(fc: FrontendConfig, p: Seq<char>)
    ensures
        ({
            let given = member(member(json_of(fc.jsonconfig), "linux"@), "cgroupsPath"@);
            &&& !(given is Text) ==> cgroup_path(fc) == "runphi/"@ + fc.containerid@
            &&& given == Json::Text(p) && is_blank(p) ==> cgroup_path(fc) == "runphi/"@
                + fc.containerid@
            &&& given == Json::Text(p) && !is_blank(p) && p[0] != '/' ==> cgroup_path(fc) == p
            &&& given == Json::Text(seq!['/'] + p) ==> cgroup_path(fc) == below_root(p)
            &&& given == Json::Text(seq!['/'] + p) && has_clean_edges(p) ==> cgroup_path(fc) == p
        }),
{
    lemma_blank_is_trimmed_away(p);
    let given = member(member(json_of(fc.jsonconfig), "linux"@), "cgroupsPath"@);
    if given == Json::Text(seq!['/'] + p) {
        law_path_below_the_root(p);
        let whole = seq!['/'] + p;
        assert(whole[0] == '/');
        assert(!is_space(whole[0]));
        lemma_blank_is_trimmed_away(whole);
    }
}

/// A path that is kept is read without the whitespace around it; without one the cgroup is the
/// container's own. The flag is `1` or `true`, and nothing else.
pub proof fn law_what_is_read_back(
    containerid: Seq<char>,
    before: Seq<char>,
    text: Seq<char>,
    after: Seq<char>,
)
    requires
        is_blank(before),
        is_blank(after),
        text.len() > 0 && !is_space(text[0]) && !is_space(text.last()),
    ensures
        stored_path(containerid, Some(before + text + after)) == text,
        stored_path(containerid, Some(before)) == "runphi/"@ + containerid,
        stored_path(containerid, None) == "runphi/"@ + containerid,
        stored_flag(Some(before + text + after)) <==> text == "1"@ || text == "true"@,
        !stored_flag(Some(before)),
        !stored_flag(None),
{
    law_trimming(before, text, after);
    law_trimming(before, Seq::empty(), Seq::empty());
    assert(before + Seq::<char>::empty() + Seq::<char>::empty() =~= before);
    reveal_strlit("1");
    reveal_strlit("true");
    assert("1"@.len() == 1 && "true"@.len() == 4);
}

/// What is set up for a container is its own cgroup, managed by systemd if and only if the container
/// says so, and kept in two files of its state directory. The adjustment is that of the container.
pub proof fn law_setup_follows_the_container(fc: FrontendConfig)
    ensures
        ({
            let config = json_of(fc.jsonconfig);
            let flag = member(config, "systemd_cgroup"@);
            let score = member(member(config, "process"@), "oomScoreAdj"@);
            &&& configured_place(fc).container_name == fc.containerid@
            &&& configured_place(fc).cgroup_path == cgroup_path(fc)
            &&& configured_place(fc).systemd_cgroup <==> flag == Json::Bool(true)
            &&& cgroup_files(fc).len() == 2
            &&& cgroup_files(fc)[0] == (FileText {
                path: path_in(fc.crundir@, "cgroup_path"@),
                content: cgroup_path(fc),
            })
            &&& cgroup_files(fc)[1].path == path_in(fc.crundir@, "systemd_cgroup"@)
            &&& flag == Json::Bool(true) ==> cgroup_files(fc)[1].content == "1"@
            &&& flag != Json::Bool(true) ==> cgroup_files(fc)[1].content == "0"@
            &&& score matches Json::PosInt(n) ==> (n <= i64::MAX ==> score_adjustment(fc) == Some(
                (n as i64) as i32,
            ))
            &&& score matches Json::NegInt(n) ==> score_adjustment(fc) == Some(n as i32)
            &&& !(score is PosInt) && !(score is NegInt) ==> score_adjustment(fc) is None
        }),
{
}

/// A later command looks for the cgroup of the container that it is given, at the path and with the
/// manager that were kept.
pub proof fn law_stored_place(
    containerid: Seq<char>,
    path: Option<Seq<char>>,
    flag: Option<Seq<char>>,
)
    ensures
        stored_place(containerid, path, flag).container_name == containerid,
        stored_place(containerid, path, flag).cgroup_path == stored_path(containerid, path),
        stored_place(containerid, path, flag).systemd_cgroup == stored_flag(flag),
{
}

/// The memory of the image, in bytes, is the limit of a container that has none; a container that has
/// a limit keeps it; and without either memory is not limited. The quota of CPU time is that of the
/// container, and none where it has none.
pub proof fn law_limits_that_are_enforced(fc: FrontendConfig, ic: ImageConfig, limits: LinuxResources)
    requires
        are_enforced(fc, ic, limits),
        ic.memory * 1024 * 1024 <= i64::MAX,
    ensures
        ({
            let section = member(member(json_of(fc.jsonconfig), "linux"@), "resources"@);
            let memory = member(section, "memory"@);
            let cpu = member(section, "cpu"@);
            let unread = limits_in(section) is None;
            &&& section is Null ==> unread
            &&& unread || !(section is List) && memory is Null ==> {
                &&& ic.memory > 0 ==> memory_of(limits) is Some && byte_limit(
                    memory_of(limits)->Some_0,
                ) == Some((ic.memory * 1024 * 1024) as i64)
                &&& ic.memory == 0 ==> memory_of(limits) is None
            }
            &&& !unread && memory is Record ==> memory_of(limits) is Some && byte_limit(
                memory_of(limits)->Some_0,
            ) == i64_in(member(memory, "limit"@))
            &&& unread || !(section is List) && cpu is Null ==> cpu_quota(limits) is None
            &&& !unread && cpu is Record ==> cpu_quota(limits) == i64_in(member(cpu, "quota"@))
        }),
{
}

/// Only the limits on memory are changed, and only for a container that has none and an image that
/// asks for memory.
pub proof fn law_other_limits_stay(limits: LinuxResources, memory_mb: u64)
    requires
        memory_mb * 1024 * 1024 <= i64::MAX,
    ensures
        memory_of(limits) is Some ==> enforced_limits(limits, memory_mb) == limits,
        enforced_limits(limits, 0) == limits,
        memory_of(limits) is None && memory_mb > 0 ==> enforced_limits(limits, memory_mb)
            == with_memory(limits, memory_limit((memory_mb * 1024 * 1024) as i64)),
{
}

/// The memory of every image can be counted that has less than 2 to the power of 44 MB.
pub proof fn law_memory_that_fits(fc: FrontendConfig, ic: ImageConfig)
    ensures
        ic.memory < 0x1000_0000_0000 ==> memory_fits(fc, ic),
        ic.memory >= 0x1000_0000_0000 && container_memory(fc) is None ==> !memory_fits(fc, ic),
{
}

/// A cgroup is the same as texts as it is as strings.
pub proof fn law_cgroup_as_texts(c: CgroupConfig)
    ensures
        c@.cgroup_path == c.cgroup_path@,
        c@.systemd_cgroup == c.systemd_cgroup,
        c@.container_name == c.container_name@,
{
}

}
