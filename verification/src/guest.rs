//! The life of a guest: created paused, resumed, suspended, destroyed.
//!
//! Commands and files are asked of the host one at a time. What follows from an answer is decided
//! here.
use vstd::prelude::*;

use crate::actions::{
    join_path, path_in, CommandLine, CommandOutcome, CommandText, FileText, FileWrite,
};
use crate::config_generator::disk::provision::{outcome_text, Outcome};
use crate::config_generator::disk::{
    disk_file, is_one_word, kept_disk, law_disk_state_reads_back, lv_of, read_disk_state,
    volume_size,
};
use crate::config_generator::{domain_name, domain_name_of, guest_domain, Host};
use crate::decimal::{digits, law_parse_inverts_print, number, parse_u32, print_u64};
use crate::frontend::{FrontendConfig, ImageConfig};
use crate::irq::{get_steer_irqs, law_target_cpus, steer_targets};
use crate::json::{json_of, member, Json};
use crate::text::{
    find, index_of, is_blank, is_space, law_trimming, lemma_find_is, trim, trimmed,
};

pub mod teardown;

verus! {

broadcast use vstd::string::group_string_axioms;

/// The command `program` with the arguments `args`.
pub open spec fn command(program: Seq<char>, args: Seq<Seq<char>>) -> CommandText {
    CommandText { program, args }
}

// ---------------------------------------------------------------------------
// Creating
// ---------------------------------------------------------------------------

/// How far the creation of a guest has come.
#[derive(Debug)]
pub enum Stage {
    /// It is to be found out whether a logical volume is to be created.
    FindDisk,
    /// The logical volume is to be created.
    Provision {
        /// Device path of the volume.
        lv: String,
        /// Size in MB.
        size_mb: String,
    },
    /// Interrupts are to be moved to these CPUs.
    Steer(Vec<usize>),
    /// The domain is to be created, paused.
    Define,
    /// The process of the guest is to be found.
    Locate,
    /// The process with this pid is to be put into its cgroup.
    Confine {
        /// The pid as a number.
        pid: u32,
        /// The pid as it was found.
        text: String,
    },
    /// A process is to be started that lives as long as the process with this pid.
    Watch(String),
    /// The pid of the watching process is to be written down.
    Record(u32),
    /// There is nothing left to do.
    Finished(Outcome),
}

/// How far the creation of a guest has come, as texts.
pub enum StageText {
    FindDisk,
    Provision { lv: Seq<char>, size_mb: Seq<char> },
    Steer(Seq<usize>),
    Define,
    Locate,
    Confine { pid: u32, text: Seq<char> },
    Watch(Seq<char>),
    Record(u32),
    Finished(Result<(), Seq<char>>),
}

impl View for Stage {
    type V = StageText;

    open spec fn view(&self) -> StageText {
        match *self {
            Stage::FindDisk => StageText::FindDisk,
            Stage::Provision { lv, size_mb } => StageText::Provision { lv: lv@, size_mb: size_mb@ },
            Stage::Steer(cpus) => StageText::Steer(cpus@),
            Stage::Define => StageText::Define,
            Stage::Locate => StageText::Locate,
            Stage::Confine { pid, text } => StageText::Confine { pid, text: text@ },
            Stage::Watch(pid) => StageText::Watch(pid@),
            Stage::Record(pid) => StageText::Record(pid),
            Stage::Finished(outcome) => StageText::Finished(outcome_text(outcome)),
        }
    }
}

/// What the host answers to an action.
#[derive(Debug)]
pub enum Answer {
    /// What the file holds, if there is one.
    File(Result<Option<String>, String>),
    /// How the action went.
    Done(Outcome),
    /// How the command ended.
    Ended(CommandOutcome),
    /// The pid of the process that was started.
    Started(Result<u32, String>),
}

/// What is asked of the host.
#[derive(Debug)]
pub enum Action {
    /// Read this file, if there is one.
    Read(String),
    /// Create this logical volume and fill it with the root file system.
    Provision {
        /// Device path of the volume.
        lv: String,
        /// Size in MB.
        size_mb: String,
    },
    /// Move the interrupts of the host to these CPUs.
    Steer(Vec<usize>),
    /// Run this command.
    Run(CommandLine),
    /// Put the process with this pid into the cgroup of the container.
    Confine(u32),
    /// Start this command in the background, without input and output.
    Start(CommandLine),
    /// Write this file.
    Write(FileWrite),
    /// Nothing more.
    Stop,
}

/// What is asked of the host, as texts.
pub enum ActionText {
    Read(Seq<char>),
    Provision { lv: Seq<char>, size_mb: Seq<char> },
    Steer(Seq<usize>),
    Run(CommandText),
    Confine(u32),
    Start(CommandText),
    Write(FileText),
    Stop,
}

impl View for Action {
    type V = ActionText;

    open spec fn view(&self) -> ActionText {
        match *self {
            Action::Read(path) => ActionText::Read(path@),
            Action::Provision { lv, size_mb } => ActionText::Provision {
                lv: lv@,
                size_mb: size_mb@,
            },
            Action::Steer(cpus) => ActionText::Steer(cpus@),
            Action::Run(command) => ActionText::Run(command@),
            Action::Confine(pid) => ActionText::Confine(pid),
            Action::Start(command) => ActionText::Start(command@),
            Action::Write(file) => ActionText::Write(file@),
            Action::Stop => ActionText::Stop,
        }
    }
}

/// The stage at which interrupts are moved, or the one behind it where none are.
pub open spec fn steer_stage(fc: FrontendConfig, ic: ImageConfig) -> StageText {
    match steer_targets(fc, ic) {
        Some(cpus) => StageText::Steer(cpus),
        None => StageText::Define,
    }
}

/// The pid in the output of `pgrep`: its first line, without surrounding whitespace.
pub open spec fn pid_in(stdout: Seq<char>) -> Seq<char> {
    trimmed(stdout.take(find(stdout, '\n')))
}

/// The stage at which the process `pid` is confined, or the one behind it where `pid` is no number.
pub open spec fn confine_stage(pid: Seq<char>) -> StageText {
    match number(pid, u32::MAX as nat) {
        Ok(n) => StageText::Confine { pid: n as u32, text: pid },
        Err(_) => StageText::Watch(pid),
    }
}

/// Whether an answer is of the kind that the action of a stage asks for.
pub open spec fn answers(stage: StageText, answer: Answer) -> bool {
    match stage {
        StageText::FindDisk => answer is File,
        StageText::Provision { .. } => answer is Done,
        StageText::Steer(_) => answer is Done,
        StageText::Define => answer is Ended,
        StageText::Locate => answer is Ended,
        StageText::Confine { .. } => answer is Done,
        StageText::Watch(_) => answer is Started,
        StageText::Record(_) => answer is Done,
        StageText::Finished(_) => false,
    }
}

/// The stage that follows on an answer. An answer of the wrong kind changes nothing. Only a
/// failure to move interrupts is no failure of the creation.
pub open spec fn next_stage(
    fc: FrontendConfig,
    ic: ImageConfig,
    stage: StageText,
    answer: Answer,
) -> StageText {
    match (stage, answer) {
        (StageText::FindDisk, Answer::File(content)) => match content {
            Err(e) => StageText::Finished(Err(e@)),
            Ok(None) => steer_stage(fc, ic),
            Ok(Some(text)) => match kept_disk(text@) {
                Some((lv, size_mb)) => StageText::Provision { lv, size_mb },
                None => StageText::Finished(Err("malformed disk state file"@)),
            },
        },
        (StageText::Provision { .. }, Answer::Done(outcome)) => match outcome {
            Ok(()) => steer_stage(fc, ic),
            Err(e) => StageText::Finished(Err(e@)),
        },
        (StageText::Steer(_), Answer::Done(_)) => StageText::Define,
        (StageText::Define, Answer::Ended(outcome)) => match outcome {
            CommandOutcome::NotStarted(why) => StageText::Finished(Err(why@)),
            CommandOutcome::Ended { success, code, stdout, stderr } => if success {
                StageText::Locate
            } else {
                StageText::Finished(Err("Fallita creazione dominio virsh: "@ + stderr@))
            },
        },
        (StageText::Locate, Answer::Ended(outcome)) => match outcome {
            CommandOutcome::NotStarted(why) => StageText::Finished(Err(why@)),
            CommandOutcome::Ended { success, code, stdout, stderr } => if success {
                confine_stage(pid_in(stdout@))
            } else {
                StageText::Finished(Err("pgrep failed"@))
            },
        },
        (StageText::Confine { pid, text }, Answer::Done(outcome)) => match outcome {
            Ok(()) => StageText::Watch(text),
            Err(e) => StageText::Finished(Err(e@)),
        },
        (StageText::Watch(_), Answer::Started(started)) => match started {
            Ok(pid) => StageText::Record(pid),
            Err(e) => StageText::Finished(Err(e@)),
        },
        (StageText::Record(_), Answer::Done(outcome)) => StageText::Finished(
            outcome_text(outcome),
        ),
        _ => stage,
    }
}

/// The command that creates the domain of a container, paused.
pub open spec fn define_command(fc: FrontendConfig) -> CommandText {
    command("virsh"@, seq!["create"@, path_in(fc.crundir@, "domain.xml"@), "--paused"@])
}

/// The command that finds the process of the guest of a container.
pub open spec fn locate_command(fc: FrontendConfig) -> CommandText {
    command("pgrep"@, seq!["-f"@, "qemu-system.*"@ + domain_name_of(fc.containerid@)])
}

/// The command that runs as long as the process `pid` does.
pub open spec fn watch_command(pid: Seq<char>) -> CommandText {
    command("sh"@, seq!["-c"@, "while [ -d /proc/"@ + pid + " ]; do sleep 0.2; done"@])
}

/// The action of a stage.
pub open spec fn action_of(fc: FrontendConfig, stage: StageText) -> ActionText {
    match stage {
        StageText::FindDisk => ActionText::Read(path_in(fc.crundir@, "disk"@)),
        StageText::Provision { lv, size_mb } => ActionText::Provision { lv, size_mb },
        StageText::Steer(cpus) => ActionText::Steer(cpus),
        StageText::Define => ActionText::Run(define_command(fc)),
        StageText::Locate => ActionText::Run(locate_command(fc)),
        StageText::Confine { pid, text } => ActionText::Confine(pid),
        StageText::Watch(pid) => ActionText::Start(watch_command(pid)),
        StageText::Record(pid) => ActionText::Write(
            FileText { path: fc.pidfile@, content: digits(pid as nat) },
        ),
        StageText::Finished(_) => ActionText::Stop,
    }
}

impl Stage {
    /// What is to be done now.
    pub fn action(&self, fc: &FrontendConfig) -> (r: Action)
        ensures
            r@ == action_of(*fc, self@),
    {
        let r = match self {
            Stage::FindDisk => Action::Read(join_path(fc.crundir.as_str(), "disk")),
            Stage::Provision { lv, size_mb } => Action::Provision {
                lv: lv.clone(),
                size_mb: size_mb.clone(),
            },
            Stage::Steer(cpus) => {
                let copy = cpus.clone();
                assert(copy@ =~= cpus@);
                Action::Steer(copy)
            },
            Stage::Define => {
                let document = join_path(fc.crundir.as_str(), "domain.xml");
                Action::Run(
                    CommandLine::new("virsh").arg("create").arg(document.as_str()).arg("--paused"),
                )
            },
            Stage::Locate => {
                let pattern = "qemu-system.*".to_owned().concat(
                    domain_name(fc.containerid.as_str()).as_str(),
                );
                Action::Run(CommandLine::new("pgrep").arg("-f").arg(pattern.as_str()))
            },
            Stage::Confine { pid, text } => Action::Confine(*pid),
            Stage::Watch(pid) => {
                let script = "while [ -d /proc/".to_owned().concat(pid.as_str()).concat(
                    " ]; do sleep 0.2; done",
                );
                Action::Start(CommandLine::new("sh").arg("-c").arg(script.as_str()))
            },
            Stage::Record(pid) => Action::Write(
                FileWrite { path: fc.pidfile.clone(), content: print_u64(*pid as u64) },
            ),
            Stage::Finished(_) => Action::Stop,
        };
        proof {
            match (r@, action_of(*fc, self@)) {
                (ActionText::Run(a), ActionText::Run(b)) => {
                    assert(a.args =~= b.args);
                },
                (ActionText::Start(a), ActionText::Start(b)) => {
                    assert(a.args =~= b.args);
                },
                _ => {},
            }
        }
        r
    }
}

fn to_steering(fc: &FrontendConfig, ic: &ImageConfig) -> (r: Stage)
    ensures
        r@ == steer_stage(*fc, *ic),
{
    match get_steer_irqs(fc, ic) {
        Some(cpus) => Stage::Steer(cpus),
        None => Stage::Define,
    }
}

fn to_confinement(text: String) -> (r: Stage)
    ensures
        r@ == confine_stage(text@),
{
    match parse_u32(text.as_str()) {
        Ok(pid) => Stage::Confine { pid, text },
        Err(_) => Stage::Watch(text),
    }
}

/// The pid in the output of `pgrep`: its first line, without surrounding whitespace.
pub fn first_pid(stdout: &str) -> (r: String)
    ensures
        r@ == pid_in(stdout@),
{
    let i: usize = index_of(stdout, '\n');
    let line = stdout.substring_char(0, i);
    assert(line@ =~= stdout@.take(i as int));
    trim(line).to_owned()
}

/// Goes on creating the guest of a container after the host has answered. A creation starts at
/// `Stage::FindDisk`.
pub fn createguest(fc: &FrontendConfig, ic: &ImageConfig, stage: Stage, answer: Answer) -> (r: Stage)
    ensures
        r@ == next_stage(*fc, *ic, stage@, answer),
{
    match (stage, answer) {
        (Stage::FindDisk, Answer::File(content)) => match content {
            Err(e) => Stage::Finished(Err(e)),
            Ok(None) => to_steering(fc, ic),
            Ok(Some(text)) => match read_disk_state(text.as_str()) {
                Ok((lv, size_mb)) => Stage::Provision { lv, size_mb },
                Err(e) => Stage::Finished(Err(e)),
            },
        },
        (Stage::Provision { lv, size_mb }, Answer::Done(outcome)) => match outcome {
            Ok(()) => to_steering(fc, ic),
            Err(e) => Stage::Finished(Err(e)),
        },
        (Stage::Steer(_), Answer::Done(_)) => Stage::Define,
        (Stage::Define, Answer::Ended(outcome)) => match outcome {
            CommandOutcome::NotStarted(why) => Stage::Finished(Err(why)),
            CommandOutcome::Ended { success, code, stdout, stderr } => if success {
                Stage::Locate
            } else {
                Stage::Finished(
                    Err(
                        "Fallita creazione dominio virsh: ".to_owned().concat(stderr.as_str()),
                    ),
                )
            },
        },
        (Stage::Locate, Answer::Ended(outcome)) => match outcome {
            CommandOutcome::NotStarted(why) => Stage::Finished(Err(why)),
            CommandOutcome::Ended { success, code, stdout, stderr } => if success {
                to_confinement(first_pid(stdout.as_str()))
            } else {
                Stage::Finished(Err("pgrep failed".to_owned()))
            },
        },
        (Stage::Confine { pid, text }, Answer::Done(outcome)) => match outcome {
            Ok(()) => Stage::Watch(text),
            Err(e) => Stage::Finished(Err(e)),
        },
        (Stage::Watch(_), Answer::Started(started)) => match started {
            Ok(pid) => Stage::Record(pid),
            Err(e) => Stage::Finished(Err(e)),
        },
        (Stage::Record(_), Answer::Done(outcome)) => Stage::Finished(outcome),
        (same, _) => same,
    }
}

// ---------------------------------------------------------------------------
// Laws of creation
// ---------------------------------------------------------------------------

/// The stage that a creation has reached after these answers.
pub open spec fn stage_after(
    fc: FrontendConfig,
    ic: ImageConfig,
    given: Seq<Answer>,
) -> StageText
    decreases given.len(),
{
    if given.len() == 0 {
        StageText::FindDisk
    } else {
        next_stage(fc, ic, stage_after(fc, ic, given.drop_last()), given.last())
    }
}

/// Whether every answer was of the kind that was asked for.
pub open spec fn all_fit(fc: FrontendConfig, ic: ImageConfig, given: Seq<Answer>) -> bool {
    forall|i: int|
        0 <= i < given.len() ==> answers(
            stage_after(fc, ic, #[trigger] given.take(i)),
            given[i],
        )
}

/// How many answers a creation can still take at a stage.
pub open spec fn answers_left(stage: StageText) -> nat {
    match stage {
        StageText::FindDisk => 8,
        StageText::Provision { .. } => 7,
        StageText::Steer(_) => 6,
        StageText::Define => 5,
        StageText::Locate => 4,
        StageText::Confine { .. } => 3,
        StageText::Watch(_) => 2,
        StageText::Record(_) => 1,
        StageText::Finished(_) => 0,
    }
}

/// Every creation ends: it takes eight answers at most.
pub proof fn law_every_creation_ends(fc: FrontendConfig, ic: ImageConfig, given: Seq<Answer>)
    requires
        all_fit(fc, ic, given),
    ensures
        given.len() + answers_left(stage_after(fc, ic, given)) <= 8,
    decreases given.len(),
{
    if given.len() > 0 {
        let before = given.drop_last();
        assert forall|i: int| 0 <= i < before.len() implies answers(
            stage_after(fc, ic, #[trigger] before.take(i)),
            before[i],
        ) by {
            assert(before.take(i) =~= given.take(i));
        }
        law_every_creation_ends(fc, ic, before);
        assert(given.take(given.len() - 1) =~= before);
    }
}

/// Whether a command ended well.
pub open spec fn ended_well(answer: Answer) -> bool {
    answer matches Answer::Ended(CommandOutcome::Ended { success, .. }) && success
}

/// Whether the `i`-th answer was given at a stage.
pub open spec fn given_at(
    fc: FrontendConfig,
    ic: ImageConfig,
    given: Seq<Answer>,
    i: int,
    stage: StageText,
) -> bool {
    0 <= i < given.len() && stage_after(fc, ic, given.take(i)) == stage
}

/// Nothing is confined, watched or written down unless the domain was created and its process
/// was found, in this order.
pub proof fn law_pid_is_recorded_only_for_a_running_guest(
    fc: FrontendConfig,
    ic: ImageConfig,
    given: Seq<Answer>,
)
    requires
        ({
            let stage = stage_after(fc, ic, given);
            stage is Confine || stage is Watch || stage is Record || stage == StageText::Finished(
                Ok(()),
            )
        }),
    ensures
        exists|i: int, j: int|
            {
                &&& i < j
                &&& #[trigger] given_at(fc, ic, given, i, StageText::Define)
                &&& ended_well(given[i])
                &&& #[trigger] given_at(fc, ic, given, j, StageText::Locate)
                &&& ended_well(given[j])
            },
    decreases given.len(),
{
    let before = given.drop_last();
    let k = given.len() - 1;
    assert(given.take(k) =~= before);
    let from = stage_after(fc, ic, before);
    if from is Locate {
        lemma_located_after_defined(fc, ic, before);
        let i = choose|i: int|
            #[trigger] given_at(fc, ic, before, i, StageText::Define) && ended_well(before[i]);
        assert(before.take(i) =~= given.take(i));
        assert(given_at(fc, ic, given, i, StageText::Define));
        assert(given_at(fc, ic, given, k, StageText::Locate));
    } else {
        law_pid_is_recorded_only_for_a_running_guest(fc, ic, before);
        let (i, j) = choose|i: int, j: int|
            {
                &&& i < j
                &&& #[trigger] given_at(fc, ic, before, i, StageText::Define)
                &&& ended_well(before[i])
                &&& #[trigger] given_at(fc, ic, before, j, StageText::Locate)
                &&& ended_well(before[j])
            };
        assert(before.take(i) =~= given.take(i));
        assert(before.take(j) =~= given.take(j));
        assert(given_at(fc, ic, given, i, StageText::Define));
        assert(given_at(fc, ic, given, j, StageText::Locate));
    }
}

proof fn lemma_located_after_defined(fc: FrontendConfig, ic: ImageConfig, given: Seq<Answer>)
    requires
        stage_after(fc, ic, given) is Locate,
    ensures
        exists|i: int|
            #[trigger] given_at(fc, ic, given, i, StageText::Define) && ended_well(given[i]),
    decreases given.len(),
{
    let before = given.drop_last();
    let k = given.len() - 1;
    assert(given.take(k) =~= before);
    if stage_after(fc, ic, before) is Locate {
        lemma_located_after_defined(fc, ic, before);
        let i = choose|i: int|
            #[trigger] given_at(fc, ic, before, i, StageText::Define) && ended_well(before[i]);
        assert(before.take(i) =~= given.take(i));
        assert(given_at(fc, ic, given, i, StageText::Define));
    } else {
        assert(given_at(fc, ic, given, k, StageText::Define));
    }
}

/// A creation that has ended takes no further answer: its outcome stands.
pub proof fn law_outcome_stands(
    fc: FrontendConfig,
    ic: ImageConfig,
    given: Seq<Answer>,
    more: Seq<Answer>,
)
    requires
        stage_after(fc, ic, given) is Finished,
    ensures
        stage_after(fc, ic, given + more) == stage_after(fc, ic, given),
    decreases more.len(),
{
    if more.len() == 0 {
        assert(given + more =~= given);
    } else {
        law_outcome_stands(fc, ic, given, more.drop_last());
        assert((given + more).drop_last() =~= given + more.drop_last());
    }
}

/// The logical volume that was planned with the domain is the one that creation provisions, if
/// neither the volume group nor the id of the container holds whitespace.
pub proof fn law_planned_volume_is_provisioned(
    fc: FrontendConfig,
    ic: ImageConfig,
    host: Host,
    text: String,
)
    requires
        disk_file(fc, ic, host.disk) matches Some(file) && text@ == file.content,
        is_one_word(host.disk.vg@),
        is_one_word(fc.containerid@),
    ensures
        action_of(fc, StageText::FindDisk) == ActionText::Read(
            disk_file(fc, ic, host.disk)->Some_0.path,
        ),
        next_stage(fc, ic, StageText::FindDisk, Answer::File(Ok(Some(text)))) == (
        StageText::Provision {
            lv: lv_of(host.disk.vg@, fc.containerid@),
            size_mb: digits(volume_size(ic, host.disk.rootfs_mb)),
        }),
{
    law_disk_state_reads_back(
        host.disk.vg@,
        fc.containerid@,
        volume_size(ic, host.disk.rootfs_mb),
    );
}

/// The document that creation hands to `virsh` is the one that the configuration is written to, and
/// whatever `virsh` does to the domain later is done to the one that bears the name in it.
pub proof fn law_lifecycle_names_agree(fc: FrontendConfig, ic: ImageConfig, host: Host)
    ensures
        ({
            let d = guest_domain(fc, ic, host);
            &&& define_command(fc).args[1] == d.xml_file
            &&& locate_command(fc).args[1] == "qemu-system.*"@ + d.name
            &&& forall|verb: Seq<char>|
                (#[trigger] domain_command(verb, fc.containerid@)).args[1] == d.name
        }),
{
}

// ---------------------------------------------------------------------------
// Starting, stopping
// ---------------------------------------------------------------------------

/// The `virsh` command that does `verb` to the domain of a container.
pub open spec fn domain_command(verb: Seq<char>, containerid: Seq<char>) -> CommandText {
    command("virsh"@, seq![verb, domain_name_of(containerid)])
}

/// The `virsh` command that does `verb` to the domain of a container.
pub(crate) fn virsh_command(verb: &str, containerid: &str) -> (r: CommandLine)
    ensures
        r@ == domain_command(verb@, containerid@),
{
    let name = domain_name(containerid);
    let r = CommandLine::new("virsh").arg(verb).arg(name.as_str());
    assert(r@.args =~= domain_command(verb@, containerid@).args);
    r
}

/// What is reported of a `virsh` command: that it could not be started, or `prefix`, the name of
/// the domain and what was printed on the error output.
pub open spec fn virsh_report(
    prefix: Seq<char>,
    containerid: Seq<char>,
    outcome: CommandOutcome,
) -> Result<(), Seq<char>> {
    match outcome {
        CommandOutcome::NotStarted(why) => Err(why@),
        CommandOutcome::Ended { success, code, stdout, stderr } => if success {
            Ok(())
        } else {
            Err(prefix + domain_name_of(containerid) + "': "@ + stderr@)
        },
    }
}

fn report(prefix: &str, containerid: &str, outcome: &CommandOutcome) -> (r: Outcome)
    ensures
        outcome_text(r) == virsh_report(prefix@, containerid@, *outcome),
{
    match outcome {
        CommandOutcome::NotStarted(why) => Err(why.clone()),
        CommandOutcome::Ended { success, code, stdout, stderr } => if *success {
            Ok(())
        } else {
            Err(
                prefix.to_owned().concat(domain_name(containerid).as_str()).concat("': ").concat(
                    stderr.as_str(),
                ),
            )
        },
    }
}

/// The command that starts the guest of a container.
pub fn start_command(containerid: &str) -> (r: CommandLine)
    ensures
        r@ == domain_command("resume"@, containerid@),
{
    virsh_command("resume", containerid)
}

/// The command that stops the guest of a container.
pub fn stop_command(containerid: &str) -> (r: CommandLine)
    ensures
        r@ == domain_command("suspend"@, containerid@),
{
    virsh_command("suspend", containerid)
}

/// What starting the guest of a container comes to.
pub open spec fn start_report(containerid: Seq<char>, outcome: CommandOutcome) -> Result<
    (),
    Seq<char>,
> {
    virsh_report("Fallito resume del guest virsh '"@, containerid, outcome)
}

/// What stopping the guest of a container comes to.
pub open spec fn stop_report(containerid: Seq<char>, outcome: CommandOutcome) -> Result<
    (),
    Seq<char>,
> {
    virsh_report("Fallito stop/suspend del guest virsh '"@, containerid, outcome)
}

/// What starting the guest of a container comes to, given how [`start_command`] ended.
pub fn startguest(containerid: &str, outcome: &CommandOutcome) -> (r: Outcome)
    ensures
        outcome_text(r) == virsh_report(
            "Fallito resume del guest virsh '"@,
            containerid@,
            *outcome,
        ),
        outcome_text(r) == start_report(containerid@, *outcome),
{
    report("Fallito resume del guest virsh '", containerid, outcome)
}

/// What stopping the guest of a container comes to, given how [`stop_command`] ended.
pub fn stopguest(containerid: &str, outcome: &CommandOutcome) -> (r: Outcome)
    ensures
        outcome_text(r) == virsh_report(
            "Fallito stop/suspend del guest virsh '"@,
            containerid@,
            *outcome,
        ),
        outcome_text(r) == stop_report(containerid@, *outcome),
{
    report("Fallito stop/suspend del guest virsh '", containerid, outcome)
}

// ---------------------------------------------------------------------------
// Information kept about a guest
// ---------------------------------------------------------------------------

/// The files that later commands read to know a guest: its bundle, its pidfile and its system.
pub open spec fn info_files(fc: FrontendConfig, ic: ImageConfig) -> Seq<FileText> {
    seq![
        FileText { path: path_in(fc.crundir@, "bundle"@), content: fc.bundle@ },
        FileText { path: path_in(fc.crundir@, "pidfile"@), content: fc.pidfile@ },
        FileText { path: path_in(fc.crundir@, "OS"@), content: ic.os_var@ },
    ]
}

/// The files that later commands read to know a guest, in the order in which they are written.
pub fn storeinfo(fc: &FrontendConfig, ic: &ImageConfig) -> (r: Vec<FileWrite>)
    ensures
        r@.map_values(|f: FileWrite| f@) == info_files(*fc, *ic),
{
    let dir = fc.crundir.as_str();
    let r = vec![
        FileWrite { path: join_path(dir, "bundle"), content: fc.bundle.clone() },
        FileWrite { path: join_path(dir, "pidfile"), content: fc.pidfile.clone() },
        FileWrite { path: join_path(dir, "OS"), content: ic.os_var.clone() },
    ];
    assert(r@.map_values(|f: FileWrite| f@) =~= info_files(*fc, *ic));
    r
}

// ---------------------------------------------------------------------------
// What each answer leads to
// ---------------------------------------------------------------------------

/// Once the disk is dealt with, because there is none or because its volume was provisioned,
/// interrupts are steered to the CPUs that the image names, if it names any, whatever else the image
/// says; or else to those numbers that the container names. Only where neither names a CPU is the
/// domain created at once. However steering goes, the domain is created next.
pub proof fn law_interrupts_are_steered_before_the_domain_is_created(
    fc: FrontendConfig,
    ic: ImageConfig,
    lv: Seq<char>,
    size_mb: Seq<char>,
    cpus: Seq<usize>,
    outcome: Outcome,
)
    ensures
        ({
            let given = member(json_of(fc.jsonconfig), "steer_irq"@);
            let numbers = if given is List {
                given->List_0.filter(|j: Json| j is PosInt).map_values(
                    |j: Json| j->PosInt_0 as usize,
                )
            } else {
                Seq::empty()
            };
            let image = ic.steer_irq matches Some(cpus) && cpus@.len() > 0;
            let without_disk = next_stage(fc, ic, StageText::FindDisk, Answer::File(Ok(None)));
            let with_volume = next_stage(
                fc,
                ic,
                StageText::Provision { lv, size_mb },
                Answer::Done(Ok(())),
            );
            &&& without_disk == with_volume
            &&& image ==> action_of(fc, without_disk) == ActionText::Steer(ic.steer_irq->Some_0@)
            &&& !image && numbers.len() > 0 ==> action_of(fc, without_disk) == ActionText::Steer(
                numbers,
            )
            &&& !image && numbers.len() == 0 ==> action_of(fc, without_disk) == ActionText::Run(
                define_command(fc),
            )
            &&& image || numbers.len() > 0 ==> action_of(
                fc,
                next_stage(fc, ic, without_disk, Answer::Done(outcome)),
            ) == ActionText::Run(define_command(fc))
        }),
{
    law_target_cpus(fc, ic);
}

/// The commands of a creation: the domain is created from its document, and paused; its process is
/// looked for by the name of the domain; the watcher lives as long as that process.
pub proof fn law_commands_of_a_creation(fc: FrontendConfig, pid: Seq<char>)
    ensures
        define_command(fc) == (CommandText {
            program: "virsh"@,
            args: seq!["create"@, path_in(fc.crundir@, "domain.xml"@), "--paused"@],
        }),
        locate_command(fc) == (CommandText {
            program: "pgrep"@,
            args: seq!["-f"@, "qemu-system.*"@ + ("runphi-"@ + fc.containerid@)],
        }),
        watch_command(pid) == (CommandText {
            program: "sh"@,
            args: seq!["-c"@, "while [ -d /proc/"@ + pid + " ]; do sleep 0.2; done"@],
        }),
{
}

/// What a creation asks of the host at each stage, in terms of the container.
pub proof fn law_actions_of_a_creation(
    fc: FrontendConfig,
    lv: Seq<char>,
    size_mb: Seq<char>,
    cpus: Seq<usize>,
    pid: u32,
    text: Seq<char>,
    end: Result<(), Seq<char>>,
)
    ensures
        action_of(fc, StageText::FindDisk) == ActionText::Read(path_in(fc.crundir@, "disk"@)),
        action_of(fc, StageText::Provision { lv, size_mb }) == (ActionText::Provision {
            lv,
            size_mb,
        }),
        action_of(fc, StageText::Steer(cpus)) == ActionText::Steer(cpus),
        action_of(fc, StageText::Define) == ActionText::Run(define_command(fc)),
        action_of(fc, StageText::Locate) == ActionText::Run(locate_command(fc)),
        action_of(fc, StageText::Confine { pid, text }) == ActionText::Confine(pid),
        action_of(fc, StageText::Watch(text)) == ActionText::Start(watch_command(text)),
        action_of(fc, StageText::Record(pid)) == ActionText::Write(
            FileText { path: fc.pidfile@, content: digits(pid as nat) },
        ),
        action_of(fc, StageText::Finished(end)) is Stop,
{
}

/// A note of a disk leads to the provisioning of the volume that it names, with the size that it
/// gives; a damaged note, one that cannot be read, and a volume that cannot be provisioned end the
/// creation with the error.
pub proof fn law_disk_of_a_creation(
    fc: FrontendConfig,
    ic: ImageConfig,
    note: String,
    e: String,
    lv: Seq<char>,
    size_mb: Seq<char>,
)
    ensures
        kept_disk(note@) == Some((lv, size_mb)) ==> next_stage(
            fc,
            ic,
            StageText::FindDisk,
            Answer::File(Ok(Some(note))),
        ) == (StageText::Provision { lv, size_mb }),
        kept_disk(note@) is None ==> next_stage(
            fc,
            ic,
            StageText::FindDisk,
            Answer::File(Ok(Some(note))),
        ) == StageText::Finished(Err("malformed disk state file"@)),
        next_stage(fc, ic, StageText::FindDisk, Answer::File(Err(e))) == StageText::Finished(
            Err(e@),
        ),
        next_stage(
            fc,
            ic,
            StageText::Provision { lv, size_mb },
            Answer::Done(Err(e)),
        ) == StageText::Finished(Err(e@)),
{
}

/// A domain that was created has its process looked for. One that was not ends the creation with
/// what `virsh` printed as errors; and so does a command that cannot be started, with the reason.
pub proof fn law_domain_of_a_creation(
    fc: FrontendConfig,
    ic: ImageConfig,
    code: Option<i32>,
    stdout: String,
    stderr: String,
)
    ensures
        next_stage(
            fc,
            ic,
            StageText::Define,
            Answer::Ended(CommandOutcome::Ended { success: true, code, stdout, stderr }),
        ) is Locate,
        next_stage(
            fc,
            ic,
            StageText::Define,
            Answer::Ended(CommandOutcome::Ended { success: false, code, stdout, stderr }),
        ) == StageText::Finished(Err("Fallita creazione dominio virsh: "@ + stderr@)),
        next_stage(
            fc,
            ic,
            StageText::Locate,
            Answer::Ended(CommandOutcome::Ended { success: false, code, stdout, stderr }),
        ) == StageText::Finished(Err("pgrep failed"@)),
        next_stage(
            fc,
            ic,
            StageText::Define,
            Answer::Ended(CommandOutcome::NotStarted(stderr)),
        ) == StageText::Finished(Err(stderr@)),
        next_stage(
            fc,
            ic,
            StageText::Locate,
            Answer::Ended(CommandOutcome::NotStarted(stderr)),
        ) == StageText::Finished(Err(stderr@)),
{
}

/// The process that is found first is confined, watched, and its watcher is written down: the number
/// in the first line of what `pgrep` prints, whatever follows, and whatever whitespace surrounds it.
/// A first line that is no number is watched all the same.
pub proof fn law_process_of_a_creation(
    fc: FrontendConfig,
    ic: ImageConfig,
    code: Option<i32>,
    stdout: String,
    stderr: String,
    before: Seq<char>,
    line: Seq<char>,
    after: Seq<char>,
    rest: Seq<char>,
    pid: u32,
    watcher: u32,
    e: String,
)
    requires
        is_blank(before) && is_blank(after),
        forall|i: int| 0 <= i < before.len() ==> before[i] != '\n',
        forall|i: int| 0 <= i < line.len() ==> line[i] != '\n',
        forall|i: int| 0 <= i < after.len() ==> after[i] != '\n',
        line.len() > 0 ==> !is_space(line[0]) && !is_space(line.last()),
        stdout@ == before + line + after || stdout@ == before + line + after + seq!['\n'] + rest,
    ensures
        ({
            let found = next_stage(
                fc,
                ic,
                StageText::Locate,
                Answer::Ended(CommandOutcome::Ended { success: true, code, stdout, stderr }),
            );
            &&& line == digits(pid as nat) ==> found == (StageText::Confine { pid, text: line })
            &&& number(line, u32::MAX as nat) is Err ==> found == StageText::Watch(line)
        }),
        next_stage(fc, ic, StageText::Confine { pid, text: line }, Answer::Done(Ok(())))
            == StageText::Watch(line),
        next_stage(fc, ic, StageText::Confine { pid, text: line }, Answer::Done(Err(e)))
            == StageText::Finished(Err(e@)),
        next_stage(fc, ic, StageText::Watch(line), Answer::Started(Ok(watcher)))
            == StageText::Record(watcher),
        next_stage(fc, ic, StageText::Watch(line), Answer::Started(Err(e))) == StageText::Finished(
            Err(e@),
        ),
        next_stage(fc, ic, StageText::Record(watcher), Answer::Done(Ok(()))) == StageText::Finished(
            Ok(()),
        ),
        next_stage(fc, ic, StageText::Record(watcher), Answer::Done(Err(e))) == StageText::Finished(
            Err(e@),
        ),
{
    let first = before + line + after;
    assert forall|i: int| 0 <= i < first.len() implies first[i] != '\n' by {
        if i < before.len() {
            assert(first[i] == before[i]);
        } else if i < before.len() + line.len() {
            assert(first[i] == line[i - before.len()]);
        } else {
            assert(first[i] == after[i - before.len() - line.len()]);
        }
    }
    assert forall|i: int| 0 <= i < first.len() implies stdout@[i] != '\n' by {
        assert(stdout@[i] == first[i]);
    }
    lemma_find_is(stdout@, '\n', first.len() as int);
    assert(stdout@.take(first.len() as int) =~= first);
    law_trimming(before, line, after);
    law_parse_inverts_print(pid as nat, u32::MAX as nat);
}

/// An answer that was not asked for changes nothing, and nothing follows the end.
pub proof fn law_only_the_answer_that_was_asked_for_counts(
    fc: FrontendConfig,
    ic: ImageConfig,
    stage: StageText,
    answer: Answer,
)
    ensures
        !(stage is FindDisk) && answer is File ==> next_stage(fc, ic, stage, answer) == stage,
        !(stage is Define) && !(stage is Locate) && answer is Ended ==> next_stage(
            fc,
            ic,
            stage,
            answer,
        ) == stage,
        !(stage is Watch) && answer is Started ==> next_stage(fc, ic, stage, answer) == stage,
        (stage is FindDisk || stage is Define || stage is Locate || stage is Watch)
            && answer is Done ==> next_stage(fc, ic, stage, answer) == stage,
        stage is Finished ==> next_stage(fc, ic, stage, answer) == stage,
{
}

/// What is done to the domain of a container is done by `virsh`, to the domain that bears the
/// container's name. It is reported as it went: success, or the error with the name of the domain and
/// what was printed.
pub proof fn law_commands_on_a_domain(
    verb: Seq<char>,
    containerid: Seq<char>,
    code: Option<i32>,
    stdout: String,
    stderr: String,
)
    ensures
        domain_command(verb, containerid) == (CommandText {
            program: "virsh"@,
            args: seq![verb, "runphi-"@ + containerid],
        }),
        start_report(
            containerid,
            CommandOutcome::Ended { success: true, code, stdout, stderr },
        ) is Ok,
        stop_report(
            containerid,
            CommandOutcome::Ended { success: true, code, stdout, stderr },
        ) is Ok,
        start_report(
            containerid,
            CommandOutcome::Ended { success: false, code, stdout, stderr },
        ) == Err::<(), Seq<char>>(
            "Fallito resume del guest virsh '"@ + ("runphi-"@ + containerid) + "': "@ + stderr@,
        ),
        stop_report(
            containerid,
            CommandOutcome::Ended { success: false, code, stdout, stderr },
        ) == Err::<(), Seq<char>>(
            "Fallito stop/suspend del guest virsh '"@ + ("runphi-"@ + containerid) + "': "@
                + stderr@,
        ),
        start_report(containerid, CommandOutcome::NotStarted(stderr)) == Err::<(), Seq<char>>(
            stderr@,
        ),
        stop_report(containerid, CommandOutcome::NotStarted(stderr)) == Err::<(), Seq<char>>(
            stderr@,
        ),
{
}

/// Three files tell later commands of a guest: its bundle, its pidfile and its system, each in a file
/// of its own in the state directory.
pub proof fn law_what_is_kept_of_a_guest(fc: FrontendConfig, ic: ImageConfig)
    ensures
        info_files(fc, ic).len() == 3,
        info_files(fc, ic).contains(
            FileText { path: path_in(fc.crundir@, "bundle"@), content: fc.bundle@ },
        ),
        info_files(fc, ic).contains(
            FileText { path: path_in(fc.crundir@, "pidfile"@), content: fc.pidfile@ },
        ),
        info_files(fc, ic).contains(
            FileText { path: path_in(fc.crundir@, "OS"@), content: ic.os_var@ },
        ),
{
    assert(info_files(fc, ic)[0].content == fc.bundle@);
    assert(info_files(fc, ic)[1].content == fc.pidfile@);
    assert(info_files(fc, ic)[2].content == ic.os_var@);
}

/// A stage and an action are the same as texts as they are as strings.
pub proof fn law_stages_and_actions_as_texts(
    a: String,
    b: String,
    cpus: Vec<usize>,
    pid: u32,
    command: CommandLine,
    file: FileWrite,
)
    ensures
        (Stage::Provision { lv: a, size_mb: b })@ == (StageText::Provision { lv: a@, size_mb: b@ }),
        Stage::Steer(cpus)@ == StageText::Steer(cpus@),
        (Stage::Confine { pid, text: a })@ == (StageText::Confine { pid, text: a@ }),
        Stage::Watch(a)@ == StageText::Watch(a@),
        Stage::Record(pid)@ == StageText::Record(pid),
        Stage::FindDisk@ is FindDisk && Stage::Define@ is Define && Stage::Locate@ is Locate,
        Stage::Finished(Ok(()))@ == StageText::Finished(Ok(())),
        Stage::Finished(Err(a))@ == StageText::Finished(Err(a@)),
        Action::Read(a)@ == ActionText::Read(a@),
        (Action::Provision { lv: a, size_mb: b })@ == (ActionText::Provision {
            lv: a@,
            size_mb: b@,
        }),
        Action::Steer(cpus)@ == ActionText::Steer(cpus@),
        Action::Run(command)@ == ActionText::Run(command@),
        Action::Confine(pid)@ == ActionText::Confine(pid),
        Action::Start(command)@ == ActionText::Start(command@),
        Action::Write(file)@ == ActionText::Write(file@),
        Action::Stop@ is Stop,
{
}

}
