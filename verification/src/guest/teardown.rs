//! The end of a guest: its domain is destroyed, and what was set up for it on the host is taken
//! down.
use vstd::prelude::*;

use crate::actions::{
    command_result, join_path, path_in, run_command, CommandLine, CommandOutcome, CommandText,
};
use crate::config_generator::disk::{kept_lv, lv_in_disk_state};
use crate::config_generator::disk::provision::{outcome_text, Outcome};
use crate::config_generator::{domain_name, domain_name_of};
use crate::frontend::{FrontendConfig, ImageConfig};
use crate::guest::{command, domain_command, virsh_command, Answer};
use crate::text::{contains, occurs_in, trim, trimmed};

verus! {

broadcast use vstd::string::group_string_axioms;

/// How far the teardown of a guest has come.
#[derive(Debug)]
pub enum Stage {
    /// The domain is to be destroyed.
    Destroy,
    /// Interrupts are to go back to where they were.
    Restore,
    /// The cgroup is to be removed.
    Unconfine,
    /// It is to be found out whether there is a logical volume.
    FindDisk,
    /// This logical volume is to be removed.
    RemoveVolume(String),
    /// The note of the logical volume is to be removed.
    RemoveNote,
    /// The state directory is to be removed.
    RemoveDirectory,
    /// There is nothing left to do.
    Finished(Outcome),
}

/// How far the teardown of a guest has come, as texts.
pub enum StageText {
    Destroy,
    Restore,
    Unconfine,
    FindDisk,
    RemoveVolume(Seq<char>),
    RemoveNote,
    RemoveDirectory,
    Finished(Result<(), Seq<char>>),
}

impl View for Stage {
    type V = StageText;

    open spec fn view(&self) -> StageText {
        match *self {
            Stage::Destroy => StageText::Destroy,
            Stage::Restore => StageText::Restore,
            Stage::Unconfine => StageText::Unconfine,
            Stage::FindDisk => StageText::FindDisk,
            Stage::RemoveVolume(lv) => StageText::RemoveVolume(lv@),
            Stage::RemoveNote => StageText::RemoveNote,
            Stage::RemoveDirectory => StageText::RemoveDirectory,
            Stage::Finished(outcome) => StageText::Finished(outcome_text(outcome)),
        }
    }
}

/// What is asked of the host.
#[derive(Debug)]
pub enum Action {
    /// Run this command.
    Run(CommandLine),
    /// Put the interrupts back to where they were.
    Restore,
    /// Remove the cgroup of the container.
    Unconfine,
    /// Read this file, if there is one.
    Read(String),
    /// Remove this file.
    RemoveFile(String),
    /// Remove this directory with all that it holds.
    RemoveDirectory(String),
    /// Nothing more.
    Stop,
}

/// What is asked of the host, as texts.
pub enum ActionText {
    Run(CommandText),
    Restore,
    Unconfine,
    Read(Seq<char>),
    RemoveFile(Seq<char>),
    RemoveDirectory(Seq<char>),
    Stop,
}

impl View for Action {
    type V = ActionText;

    open spec fn view(&self) -> ActionText {
        match *self {
            Action::Run(command) => ActionText::Run(command@),
            Action::Restore => ActionText::Restore,
            Action::Unconfine => ActionText::Unconfine,
            Action::Read(path) => ActionText::Read(path@),
            Action::RemoveFile(path) => ActionText::RemoveFile(path@),
            Action::RemoveDirectory(path) => ActionText::RemoveDirectory(path@),
            Action::Stop => ActionText::Stop,
        }
    }
}

/// The command that removes a logical volume.
pub open spec fn remove_command(lv: Seq<char>) -> CommandText {
    command("lvremove"@, seq!["-y"@, lv])
}

/// The action of a stage.
pub open spec fn action_of(
    containerid: Seq<char>,
    crundir: Seq<char>,
    stage: StageText,
) -> ActionText {
    match stage {
        StageText::Destroy => ActionText::Run(domain_command("destroy"@, containerid)),
        StageText::Restore => ActionText::Restore,
        StageText::Unconfine => ActionText::Unconfine,
        StageText::FindDisk => ActionText::Read(path_in(crundir, "disk"@)),
        StageText::RemoveVolume(lv) => ActionText::Run(remove_command(lv)),
        StageText::RemoveNote => ActionText::RemoveFile(path_in(crundir, "disk"@)),
        StageText::RemoveDirectory => ActionText::RemoveDirectory(crundir),
        StageText::Finished(_) => ActionText::Stop,
    }
}

/// Whether an answer is of the kind that the action of a stage asks for.
pub open spec fn answers(stage: StageText, answer: Answer) -> bool {
    match stage {
        StageText::Destroy => answer is Ended,
        StageText::Restore => answer is Done,
        StageText::Unconfine => answer is Done,
        StageText::FindDisk => answer is File,
        StageText::RemoveVolume(_) => answer is Ended,
        StageText::RemoveNote => answer is Done,
        StageText::RemoveDirectory => answer is Done,
        StageText::Finished(_) => false,
    }
}

/// The stage that follows on an answer. An answer of the wrong kind changes nothing. Once `virsh`
/// could be started, no failure stops the teardown.
pub open spec fn next_stage(stage: StageText, answer: Answer) -> StageText {
    match (stage, answer) {
        (StageText::Destroy, Answer::Ended(outcome)) => match outcome {
            CommandOutcome::NotStarted(why) => StageText::Finished(Err(why@)),
            CommandOutcome::Ended { .. } => StageText::Restore,
        },
        (StageText::Restore, Answer::Done(_)) => StageText::Unconfine,
        (StageText::Unconfine, Answer::Done(_)) => StageText::FindDisk,
        (StageText::FindDisk, Answer::File(content)) => match content {
            Ok(Some(text)) => match kept_lv(text@) {
                Some(lv) => StageText::RemoveVolume(lv),
                None => StageText::RemoveDirectory,
            },
            _ => StageText::RemoveDirectory,
        },
        (StageText::RemoveVolume(lv), Answer::Ended(outcome)) => match command_result(
            "lvremove"@,
            outcome,
        ) {
            Ok(_) => StageText::RemoveNote,
            Err(_) => StageText::RemoveDirectory,
        },
        (StageText::RemoveNote, Answer::Done(_)) => StageText::RemoveDirectory,
        (StageText::RemoveDirectory, Answer::Done(_)) => StageText::Finished(Ok(())),
        _ => stage,
    }
}

/// Whether `virsh` complains only that the domain is already down.
pub open spec fn already_down(stderr: Seq<char>) -> bool {
    occurs_in("domain is not running"@, stderr) || occurs_in("Domain not found"@, stderr)
}

/// What the administrator is told of an answer, if anything.
pub open spec fn warning_of(
    containerid: Seq<char>,
    stage: StageText,
    answer: Answer,
) -> Option<Seq<char>> {
    match (stage, answer) {
        (StageText::Destroy, Answer::Ended(outcome)) => match outcome {
            CommandOutcome::NotStarted(_) => None,
            CommandOutcome::Ended { success, code, stdout, stderr } => if success || already_down(
                stderr@,
            ) {
                None
            } else {
                Some(
                    "virsh destroy per '"@ + domain_name_of(containerid) + "' ha restituito: "@
                        + trimmed(stderr@),
                )
            },
        },
        (StageText::Restore, Answer::Done(outcome)) => match outcome {
            Ok(()) => None,
            Err(e) => Some("could not restore IRQ affinities: "@ + e@),
        },
        (StageText::Unconfine, Answer::Done(outcome)) => match outcome {
            Ok(()) => None,
            Err(e) => Some(e@),
        },
        (StageText::RemoveVolume(lv), Answer::Ended(outcome)) => match command_result(
            "lvremove"@,
            outcome,
        ) {
            Ok(_) => None,
            Err(e) => Some("could not remove LV "@ + lv + ": "@ + e),
        },
        _ => None,
    }
}

impl Stage {
    /// What is to be done now.
    pub fn action(&self, containerid: &str, crundir: &str) -> (r: Action)
        ensures
            r@ == action_of(containerid@, crundir@, self@),
    {
        match self {
            Stage::Destroy => Action::Run(virsh_command("destroy", containerid)),
            Stage::Restore => Action::Restore,
            Stage::Unconfine => Action::Unconfine,
            Stage::FindDisk => Action::Read(join_path(crundir, "disk")),
            Stage::RemoveVolume(lv) => {
                let remove = CommandLine::new("lvremove").arg("-y").arg(lv.as_str());
                assert(remove@.args =~= remove_command(lv@).args);
                Action::Run(remove)
            },
            Stage::RemoveNote => Action::RemoveFile(join_path(crundir, "disk")),
            Stage::RemoveDirectory => Action::RemoveDirectory(crundir.to_owned()),
            Stage::Finished(_) => Action::Stop,
        }
    }

    /// What the administrator is told of an answer, if anything.
    pub fn warning(&self, containerid: &str, answer: &Answer) -> (r: Option<String>)
        ensures
            kept_string(r) == warning_of(containerid@, self@, *answer),
    {
        match (self, answer) {
            (Stage::Destroy, Answer::Ended(outcome)) => match outcome {
                CommandOutcome::NotStarted(_) => None,
                CommandOutcome::Ended { success, code, stdout, stderr } => {
                    let down: bool = contains(stderr.as_str(), "domain is not running") || contains(
                        stderr.as_str(),
                        "Domain not found",
                    );
                    if *success || down {
                        None
                    } else {
                        Some(
                            "virsh destroy per '".to_owned().concat(
                                domain_name(containerid).as_str(),
                            ).concat("' ha restituito: ").concat(trim(stderr.as_str())),
                        )
                    }
                },
            },
            (Stage::Restore, Answer::Done(outcome)) => match outcome {
                Ok(()) => None,
                Err(e) => Some(
                    "could not restore IRQ affinities: ".to_owned().concat(e.as_str()),
                ),
            },
            (Stage::Unconfine, Answer::Done(outcome)) => match outcome {
                Ok(()) => None,
                Err(e) => Some(e.clone()),
            },
            (Stage::RemoveVolume(lv), Answer::Ended(outcome)) => match run_command(
                "lvremove",
                outcome,
            ) {
                Ok(_) => None,
                Err(e) => Some(
                    "could not remove LV ".to_owned().concat(lv.as_str()).concat(": ").concat(
                        e.as_str(),
                    ),
                ),
            },
            _ => None,
        }
    }
}

/// A text that may be absent.
pub open spec fn kept_string(s: Option<String>) -> Option<Seq<char>> {
    match s {
        Some(s) => Some(s@),
        None => None,
    }
}

/// Goes on with the teardown of a guest after the host has answered. A teardown starts at
/// `Stage::Destroy`.
pub fn destroyguest(stage: Stage, answer: Answer) -> (r: Stage)
    ensures
        r@ == next_stage(stage@, answer),
{
    match (stage, answer) {
        (Stage::Destroy, Answer::Ended(outcome)) => match outcome {
            CommandOutcome::NotStarted(why) => Stage::Finished(Err(why)),
            CommandOutcome::Ended { .. } => Stage::Restore,
        },
        (Stage::Restore, Answer::Done(_)) => Stage::Unconfine,
        (Stage::Unconfine, Answer::Done(_)) => Stage::FindDisk,
        (Stage::FindDisk, Answer::File(content)) => match content {
            Ok(Some(text)) => match lv_in_disk_state(text.as_str()) {
                Some(lv) => Stage::RemoveVolume(lv),
                None => Stage::RemoveDirectory,
            },
            _ => Stage::RemoveDirectory,
        },
        (Stage::RemoveVolume(lv), Answer::Ended(outcome)) => match run_command(
            "lvremove",
            &outcome,
        ) {
            Ok(_) => Stage::RemoveNote,
            Err(_) => Stage::RemoveDirectory,
        },
        (Stage::RemoveNote, Answer::Done(_)) => Stage::RemoveDirectory,
        (Stage::RemoveDirectory, Answer::Done(_)) => Stage::Finished(Ok(())),
        (same, _) => same,
    }
}

// ---------------------------------------------------------------------------
// Laws of teardown
// ---------------------------------------------------------------------------

/// The stage that a teardown has reached after these answers.
pub open spec fn stage_after(given: Seq<Answer>) -> StageText
    decreases given.len(),
{
    if given.len() == 0 {
        StageText::Destroy
    } else {
        next_stage(stage_after(given.drop_last()), given.last())
    }
}

/// Whether every answer was of the kind that was asked for.
pub open spec fn all_fit(given: Seq<Answer>) -> bool {
    forall|i: int|
        0 <= i < given.len() ==> answers(stage_after(#[trigger] given.take(i)), given[i])
}

/// Whether the `i`-th answer was given at a stage.
pub open spec fn given_at(given: Seq<Answer>, i: int, stage: StageText) -> bool {
    0 <= i < given.len() && stage_after(given.take(i)) == stage
}

/// How many answers a teardown can still take at a stage.
pub open spec fn answers_left(stage: StageText) -> nat {
    match stage {
        StageText::Destroy => 7,
        StageText::Restore => 6,
        StageText::Unconfine => 5,
        StageText::FindDisk => 4,
        StageText::RemoveVolume(_) => 3,
        StageText::RemoveNote => 2,
        StageText::RemoveDirectory => 1,
        StageText::Finished(_) => 0,
    }
}

/// Every teardown ends: it takes seven answers at most.
pub proof fn law_every_teardown_ends(given: Seq<Answer>)
    requires
        all_fit(given),
    ensures
        given.len() + answers_left(stage_after(given)) <= 7,
    decreases given.len(),
{
    if given.len() > 0 {
        let before = given.drop_last();
        assert forall|i: int| 0 <= i < before.len() implies answers(
            stage_after(#[trigger] before.take(i)),
            before[i],
        ) by {
            assert(before.take(i) =~= given.take(i));
        }
        law_every_teardown_ends(before);
        assert(given.take(given.len() - 1) =~= before);
    }
}

/// A teardown fails only if `virsh` could not be started.
pub proof fn law_teardown_fails_only_without_virsh(given: Seq<Answer>, e: Seq<char>)
    requires
        stage_after(given) == StageText::Finished(Err(e)),
    ensures
        exists|i: int|
            #[trigger] given_at(given, i, StageText::Destroy) && (given[i] matches Answer::Ended(
                CommandOutcome::NotStarted(why),
            ) && why@ == e),
    decreases given.len(),
{
    let before = given.drop_last();
    let k = given.len() - 1;
    assert(given.take(k) =~= before);
    if stage_after(before) is Destroy {
        assert(given_at(given, k, StageText::Destroy));
    } else {
        law_teardown_fails_only_without_virsh(before, e);
        let i = choose|i: int|
            #[trigger] given_at(before, i, StageText::Destroy) && (before[i] matches Answer::Ended(
                CommandOutcome::NotStarted(why),
            ) && why@ == e);
        assert(before.take(i) =~= given.take(i));
        assert(given_at(given, i, StageText::Destroy));
    }
}

/// A teardown that ends well has gone through all that was set up: interrupts were put back, the
/// cgroup and the state directory were removed, and so was the logical volume, if one was kept.
pub proof fn law_teardown_is_complete(given: Seq<Answer>)
    requires
        stage_after(given) == StageText::Finished(Ok(())),
    ensures
        exists|i: int| #[trigger] given_at(given, i, StageText::Restore),
        exists|i: int| #[trigger] given_at(given, i, StageText::Unconfine),
        exists|i: int| #[trigger] given_at(given, i, StageText::RemoveDirectory),
        exists|i: int|
            #[trigger] given_at(given, i, StageText::FindDisk) && volume_is_seen_to(given, i),
    decreases given.len(),
{
    let before = given.drop_last();
    let k = given.len() - 1;
    assert(given.take(k) =~= before);
    if stage_after(before) is Finished {
        law_teardown_is_complete(before);
        lemma_given_before(given, StageText::Restore);
        lemma_given_before(given, StageText::Unconfine);
        lemma_given_before(given, StageText::RemoveDirectory);
        lemma_seen_to_before(given);
    } else {
        lemma_way_to_the_end(before);
        lemma_given_before(given, StageText::Restore);
        lemma_given_before(given, StageText::Unconfine);
        lemma_seen_to_before(given);
        assert(given_at(given, k, StageText::RemoveDirectory));
    }
}

/// Whether the logical volume that the `i`-th answer holds, if any, was then asked to be removed.
pub open spec fn volume_is_seen_to(given: Seq<Answer>, i: int) -> bool {
    given[i] matches Answer::File(content) && (match content {
        Ok(Some(text)) => match kept_lv(text@) {
            Some(lv) => exists|j: int| i < j && #[trigger] given_at(
                given,
                j,
                StageText::RemoveVolume(lv),
            ),
            None => true,
        },
        _ => true,
    })
}

proof fn lemma_given_before(given: Seq<Answer>, stage: StageText)
    requires
        given.len() > 0,
        exists|i: int| #[trigger] given_at(given.drop_last(), i, stage),
    ensures
        exists|i: int| #[trigger] given_at(given, i, stage),
{
    let before = given.drop_last();
    let i = choose|i: int| #[trigger] given_at(before, i, stage);
    assert(before.take(i) =~= given.take(i));
    assert(given_at(given, i, stage));
}

proof fn lemma_seen_to_before(given: Seq<Answer>)
    requires
        given.len() > 0,
        exists|i: int|
            #[trigger] given_at(given.drop_last(), i, StageText::FindDisk) && volume_is_seen_to(
                given.drop_last(),
                i,
            ),
    ensures
        exists|i: int|
            #[trigger] given_at(given, i, StageText::FindDisk) && volume_is_seen_to(given, i),
{
    let before = given.drop_last();
    let i = choose|i: int|
        #[trigger] given_at(before, i, StageText::FindDisk) && volume_is_seen_to(before, i);
    assert(before.take(i) =~= given.take(i));
    assert(given_at(given, i, StageText::FindDisk));
    if let Answer::File(Ok(Some(text))) = given[i] {
        if let Some(lv) = kept_lv(text@) {
            let j = choose|j: int|
                i < j && #[trigger] given_at(before, j, StageText::RemoveVolume(lv));
            assert(before.take(j) =~= given.take(j));
            assert(given_at(given, j, StageText::RemoveVolume(lv)));
        }
    }
}

/// What must have been gone through when a teardown stands at a stage.
spec fn way_behind(given: Seq<Answer>) -> bool {
    let stage = stage_after(given);
    &&& stage is Finished || stage is Destroy || stage is Restore || exists|i: int|
        #[trigger] given_at(given, i, StageText::Restore)
    &&& stage is Finished || stage is Destroy || stage is Restore || stage is Unconfine || exists|
        i: int,
    |
        #[trigger] given_at(given, i, StageText::Unconfine)
    &&& stage matches StageText::RemoveVolume(lv) ==> exists|i: int|
        #[trigger] given_at(given, i, StageText::FindDisk) && asks_for(given[i], lv)
    &&& stage is RemoveNote || stage is RemoveDirectory ==> exists|i: int|
        #[trigger] given_at(given, i, StageText::FindDisk) && volume_is_seen_to(given, i)
}

/// Whether an answer holds a note of the logical volume `lv`.
spec fn asks_for(answer: Answer, lv: Seq<char>) -> bool {
    answer matches Answer::File(Ok(Some(text))) && kept_lv(text@) == Some(lv)
}

proof fn lemma_way_to_the_end(given: Seq<Answer>)
    ensures
        way_behind(given),
    decreases given.len(),
{
    if given.len() > 0 {
        let before = given.drop_last();
        let k = given.len() - 1;
        assert(given.take(k) =~= before);
        lemma_way_to_the_end(before);
        let from = stage_after(before);
        let to = stage_after(given);
        assert(given_at(given, k, from));
        if exists|i: int| #[trigger] given_at(before, i, StageText::Restore) {
            lemma_given_before(given, StageText::Restore);
        }
        if exists|i: int| #[trigger] given_at(before, i, StageText::Unconfine) {
            lemma_given_before(given, StageText::Unconfine);
        }
        if from is RemoveNote || from is RemoveDirectory {
            lemma_seen_to_before(given);
        }
        if let StageText::RemoveVolume(lv) = from {
            let i = choose|i: int|
                #[trigger] given_at(before, i, StageText::FindDisk) && asks_for(before[i], lv);
            assert(before.take(i) =~= given.take(i));
            assert(given_at(given, i, StageText::FindDisk));
            assert(given_at(given, k, StageText::RemoveVolume(lv)));
            assert(asks_for(given[i], lv));
            if let Answer::File(Ok(Some(text))) = given[i] {
                assert(kept_lv(text@)->0 == lv);
            }
            assert(volume_is_seen_to(given, i));
        }
        if from is FindDisk {
            assert(to is RemoveDirectory ==> volume_is_seen_to(given, k));
        }
    }
}

/// The logical volume that is created for a guest is the one that is removed at its end.
pub proof fn law_created_volume_is_removed(
    fc: FrontendConfig,
    ic: ImageConfig,
    text: String,
    lv: Seq<char>,
    size_mb: Seq<char>,
)
    requires
        crate::guest::next_stage(
            fc,
            ic,
            crate::guest::StageText::FindDisk,
            Answer::File(Ok(Some(text))),
        ) == (crate::guest::StageText::Provision { lv, size_mb }),
    ensures
        next_stage(StageText::FindDisk, Answer::File(Ok(Some(text)))) == StageText::RemoveVolume(
            lv,
        ),
{
}

// ---------------------------------------------------------------------------
// What each answer leads to
// ---------------------------------------------------------------------------

/// What a teardown asks of the host at each stage, in terms of the container.
pub proof fn law_actions_of_a_teardown(
    containerid: Seq<char>,
    crundir: Seq<char>,
    lv: Seq<char>,
    end: Result<(), Seq<char>>,
)
    ensures
        action_of(containerid, crundir, StageText::Destroy) == ActionText::Run(
            CommandText { program: "virsh"@, args: seq!["destroy"@, "runphi-"@ + containerid] },
        ),
        action_of(containerid, crundir, StageText::Restore) is Restore,
        action_of(containerid, crundir, StageText::Unconfine) is Unconfine,
        action_of(containerid, crundir, StageText::FindDisk) == ActionText::Read(
            path_in(crundir, "disk"@),
        ),
        action_of(containerid, crundir, StageText::RemoveVolume(lv)) == ActionText::Run(
            CommandText { program: "lvremove"@, args: seq!["-y"@, lv] },
        ),
        action_of(containerid, crundir, StageText::RemoveNote) == ActionText::RemoveFile(
            path_in(crundir, "disk"@),
        ),
        action_of(containerid, crundir, StageText::RemoveDirectory) == ActionText::RemoveDirectory(
            crundir,
        ),
        action_of(containerid, crundir, StageText::Finished(end)) is Stop,
{
}

/// However `virsh` ends, interrupts are put back, the cgroup is removed and the disk is looked for,
/// in this order and however each goes. A volume that is noted is removed, and its note with it if
/// that went well. The state directory is removed last, and the teardown ends well.
pub proof fn law_steps_of_a_teardown(
    success: bool,
    code: Option<i32>,
    stdout: String,
    stderr: String,
    any: Outcome,
    note: String,
    lv: Seq<char>,
)
    ensures
        next_stage(
            StageText::Destroy,
            Answer::Ended(CommandOutcome::Ended { success, code, stdout, stderr }),
        ) is Restore,
        next_stage(
            StageText::Destroy,
            Answer::Ended(CommandOutcome::NotStarted(stderr)),
        ) == StageText::Finished(Err(stderr@)),
        next_stage(StageText::Restore, Answer::Done(any)) is Unconfine,
        next_stage(StageText::Unconfine, Answer::Done(any)) is FindDisk,
        kept_lv(note@) == Some(lv) ==> next_stage(
            StageText::FindDisk,
            Answer::File(Ok(Some(note))),
        ) == StageText::RemoveVolume(lv),
        kept_lv(note@) is None ==> next_stage(
            StageText::FindDisk,
            Answer::File(Ok(Some(note))),
        ) is RemoveDirectory,
        next_stage(StageText::FindDisk, Answer::File(Ok(None))) is RemoveDirectory,
        next_stage(StageText::FindDisk, Answer::File(Err(stderr))) is RemoveDirectory,
        next_stage(
            StageText::RemoveVolume(lv),
            Answer::Ended(CommandOutcome::Ended { success: true, code, stdout, stderr }),
        ) is RemoveNote,
        next_stage(
            StageText::RemoveVolume(lv),
            Answer::Ended(CommandOutcome::Ended { success: false, code, stdout, stderr }),
        ) is RemoveDirectory,
        next_stage(
            StageText::RemoveVolume(lv),
            Answer::Ended(CommandOutcome::NotStarted(stderr)),
        ) is RemoveDirectory,
        next_stage(StageText::RemoveNote, Answer::Done(any)) is RemoveDirectory,
        next_stage(StageText::RemoveDirectory, Answer::Done(any)) == StageText::Finished(Ok(())),
{
}

/// The administrator is told of a domain that could not be destroyed, unless it was down already, and
/// of interrupts, a cgroup or a volume that could not be cleaned up. Of nothing else is anything
/// said.
pub proof fn law_warnings_of_a_teardown(
    containerid: Seq<char>,
    code: Option<i32>,
    stdout: String,
    stderr: String,
    e: String,
    lv: Seq<char>,
    any: Answer,
    content: Result<Option<String>, String>,
)
    ensures
        ({
            let failed = CommandOutcome::Ended { success: false, code, stdout, stderr };
            let down = occurs_in("domain is not running"@, stderr@) || occurs_in(
                "Domain not found"@,
                stderr@,
            );
            &&& down ==> warning_of(containerid, StageText::Destroy, Answer::Ended(failed)) is None
            &&& !down ==> warning_of(containerid, StageText::Destroy, Answer::Ended(failed)) == Some(
                "virsh destroy per '"@ + ("runphi-"@ + containerid) + "' ha restituito: "@
                    + trimmed(stderr@),
            )
            &&& warning_of(containerid, StageText::RemoveVolume(lv), Answer::Ended(failed)) == Some(
                "could not remove LV "@ + lv + ": "@ + command_result("lvremove"@, failed)->Err_0,
            )
        }),
        warning_of(containerid, StageText::Restore, Answer::Done(Err(e))) == Some(
            "could not restore IRQ affinities: "@ + e@,
        ),
        warning_of(containerid, StageText::Unconfine, Answer::Done(Err(e))) == Some(e@),
        warning_of(
            containerid,
            StageText::RemoveVolume(lv),
            Answer::Ended(CommandOutcome::NotStarted(e)),
        ) == Some(
            "could not remove LV "@ + lv + ": "@ + command_result(
                "lvremove"@,
                CommandOutcome::NotStarted(e),
            )->Err_0,
        ),
        ({
            let ended = Answer::Ended(
                CommandOutcome::Ended { success: true, code, stdout, stderr },
            );
            &&& warning_of(containerid, StageText::Destroy, ended) is None
            &&& warning_of(containerid, StageText::RemoveVolume(lv), ended) is None
        }),
        warning_of(
            containerid,
            StageText::Destroy,
            Answer::Ended(CommandOutcome::NotStarted(e)),
        ) is None,
        warning_of(containerid, StageText::Restore, Answer::Done(Ok(()))) is None,
        warning_of(containerid, StageText::Unconfine, Answer::Done(Ok(()))) is None,
        warning_of(containerid, StageText::FindDisk, any) is None,
        warning_of(containerid, StageText::RemoveNote, any) is None,
        warning_of(containerid, StageText::RemoveDirectory, any) is None,
        warning_of(containerid, StageText::Finished(Ok(())), any) is None,
{
}

/// An answer that was not asked for changes nothing, and nothing follows the end.
pub proof fn law_only_what_was_asked_for_counts(stage: StageText, answer: Answer)
    ensures
        answer is Started ==> next_stage(stage, answer) == stage,
        !(stage is FindDisk) && answer is File ==> next_stage(stage, answer) == stage,
        !(stage is Destroy) && !(stage is RemoveVolume) && answer is Ended ==> next_stage(
            stage,
            answer,
        ) == stage,
        (stage is Destroy || stage is FindDisk || stage is RemoveVolume || stage is Finished)
            && answer is Done ==> next_stage(stage, answer) == stage,
{
}

/// A stage and an action are the same as texts as they are as strings.
pub proof fn law_stages_and_actions_as_texts(a: String, command: CommandLine)
    ensures
        Stage::RemoveVolume(a)@ == StageText::RemoveVolume(a@),
        Stage::Finished(Ok(()))@ == StageText::Finished(Ok(())),
        Stage::Finished(Err(a))@ == StageText::Finished(Err(a@)),
        Stage::Destroy@ is Destroy && Stage::Restore@ is Restore && Stage::Unconfine@ is Unconfine,
        Stage::FindDisk@ is FindDisk && Stage::RemoveNote@ is RemoveNote,
        Stage::RemoveDirectory@ is RemoveDirectory,
        Action::Run(command)@ == ActionText::Run(command@),
        Action::Restore@ is Restore && Action::Unconfine@ is Unconfine && Action::Stop@ is Stop,
        Action::Read(a)@ == ActionText::Read(a@),
        Action::RemoveFile(a)@ == ActionText::RemoveFile(a@),
        Action::RemoveDirectory(a)@ == ActionText::RemoveDirectory(a@),
        kept_string(Some(a)) == Some(a@),
        kept_string(None) is None,
{
}

}
