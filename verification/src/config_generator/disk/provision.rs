//! Creating the logical volume of a guest and filling it with the container's root file system.
//!
//! The volume is created, formatted, mounted, filled and unmounted. After a failure behind its
//! creation it is removed again, so that a failed attempt leaves no volume behind.
use vstd::prelude::*;

use crate::actions::{join_path, path_in, CommandLine, CommandText};
use crate::text::{find_back, last_index_of, lemma_find_back_is};

verus! {

broadcast use vstd::string::group_string_axioms;

// ---------------------------------------------------------------------------
// The volume
// ---------------------------------------------------------------------------

/// The name of a logical volume and its volume group, in this order, from its device path.
pub open spec fn volume_names(lv: Seq<char>) -> Option<(Seq<char>, Seq<char>)> {
    let i = find_back(lv, '/');
    if i == 0 {
        None
    } else {
        let front = lv.take(i - 1);
        Some((lv.skip(i), front.skip(find_back(front, '/'))))
    }
}

/// A logical volume that is to be created.
#[derive(Debug)]
pub struct Volume {
    /// Device path.
    pub lv: String,
    /// Name of the volume.
    pub name: String,
    /// Volume group.
    pub vg: String,
    /// Size in MB.
    pub size_mb: String,
    /// What the volume is filled with.
    pub rootfs: String,
    /// Where the volume is mounted meanwhile.
    pub mnt: String,
}

// ---------------------------------------------------------------------------
// The steps
// ---------------------------------------------------------------------------

/// How an action went; the text says what went wrong.
pub type Outcome = Result<(), String>;

/// How far a volume has come. An error that is held here is the one to be reported.
#[derive(Debug)]
pub enum Stage {
    /// The volume is to be created.
    Create,
    /// It is to be formatted.
    Format,
    /// Its mount point is to be made.
    MakeMountPoint,
    /// It is to be mounted.
    Mount,
    /// The root file system is to be copied.
    Copy,
    /// It is to be unmounted; the copy went so.
    Unmount(Outcome),
    /// Something failed: it is to be unmounted, should it be mounted.
    Release(String),
    /// Something failed: it is to be removed.
    Remove(String),
    /// There is nothing left to do.
    Finished(Outcome),
}

/// How an action went, as text.
pub open spec fn outcome_text(outcome: Outcome) -> Result<(), Seq<char>> {
    match outcome {
        Ok(()) => Ok(()),
        Err(e) => Err(e@),
    }
}

/// How far a volume has come, as texts.
pub enum StageText {
    Create,
    Format,
    MakeMountPoint,
    Mount,
    Copy,
    Unmount(Result<(), Seq<char>>),
    Release(Seq<char>),
    Remove(Seq<char>),
    Finished(Result<(), Seq<char>>),
}

impl View for Stage {
    type V = StageText;

    open spec fn view(&self) -> StageText {
        match *self {
            Stage::Create => StageText::Create,
            Stage::Format => StageText::Format,
            Stage::MakeMountPoint => StageText::MakeMountPoint,
            Stage::Mount => StageText::Mount,
            Stage::Copy => StageText::Copy,
            Stage::Unmount(copied) => StageText::Unmount(outcome_text(copied)),
            Stage::Release(e) => StageText::Release(e@),
            Stage::Remove(e) => StageText::Remove(e@),
            Stage::Finished(outcome) => StageText::Finished(outcome_text(outcome)),
        }
    }
}

/// The stage that follows when the action of a stage went as `outcome` says.
pub open spec fn next_stage(stage: StageText, outcome: Result<(), Seq<char>>) -> StageText {
    match stage {
        StageText::Create => match outcome {
            Ok(()) => StageText::Format,
            Err(e) => StageText::Finished(Err(e)),
        },
        StageText::Format => match outcome {
            Ok(()) => StageText::MakeMountPoint,
            Err(e) => StageText::Release(e),
        },
        StageText::MakeMountPoint => match outcome {
            Ok(()) => StageText::Mount,
            Err(e) => StageText::Release(e),
        },
        StageText::Mount => match outcome {
            Ok(()) => StageText::Copy,
            Err(e) => StageText::Release(e),
        },
        StageText::Copy => StageText::Unmount(outcome),
        StageText::Unmount(copied) => match copied {
            Err(e) => StageText::Release(e),
            Ok(()) => match outcome {
                Ok(()) => StageText::Finished(Ok(())),
                Err(e) => StageText::Release(e),
            },
        },
        StageText::Release(e) => StageText::Remove(e),
        StageText::Remove(e) => StageText::Finished(Err(e)),
        StageText::Finished(_) => stage,
    }
}

/// What is to be done at a stage.
#[derive(Debug)]
pub enum Action {
    /// Run this command.
    Run(CommandLine),
    /// Make this directory and those above it.
    MakeDir(String),
    /// Nothing more.
    Stop,
}

/// What is to be done at a stage, as texts.
pub enum ActionText {
    Run(CommandText),
    MakeDir(Seq<char>),
    Stop,
}

impl View for Action {
    type V = ActionText;

    open spec fn view(&self) -> ActionText {
        match *self {
            Action::Run(command) => ActionText::Run(command@),
            Action::MakeDir(path) => ActionText::MakeDir(path@),
            Action::Stop => ActionText::Stop,
        }
    }
}

/// The command `program` with the arguments `args`.
pub open spec fn command(program: Seq<char>, args: Seq<Seq<char>>) -> ActionText {
    ActionText::Run(CommandText { program, args })
}

/// The action of a stage.
pub open spec fn action_of(v: Volume, stage: StageText) -> ActionText {
    match stage {
        StageText::Create => command(
            "lvcreate"@,
            seq!["-y"@, "-L"@, v.size_mb@ + "M"@, "-n"@, v.name@, v.vg@],
        ),
        StageText::Format => command("mkfs.ext4"@, seq!["-q"@, "-F"@, v.lv@]),
        StageText::MakeMountPoint => ActionText::MakeDir(v.mnt@),
        StageText::Mount => command("mount"@, seq![v.lv@, v.mnt@]),
        StageText::Copy => command("cp"@, seq!["-a"@, v.rootfs@ + "/."@, v.mnt@]),
        StageText::Unmount(_) => command("umount"@, seq![v.mnt@]),
        StageText::Release(_) => command("umount"@, seq![v.mnt@]),
        StageText::Remove(_) => removal(v),
        StageText::Finished(_) => ActionText::Stop,
    }
}

/// The removal of a volume.
pub open spec fn removal(v: Volume) -> ActionText {
    command("lvremove"@, seq!["-y"@, v.lv@])
}

/// A logical volume on its way.
#[derive(Debug)]
pub struct Provisioning {
    pub volume: Volume,
    pub stage: Stage,
}

/// Starts to create the logical volume `lv` of `size_mb` MB for the root file system `rootfs`.
pub fn provision_lvm_root(lv: &str, size_mb: &str, rootfs: &str, crundir: &str) -> (r: Result<
    Provisioning,
    String,
>)
    ensures
        match r {
            Ok(p) => volume_names(lv@) == Some((p.volume.name@, p.volume.vg@)) && p.volume.lv@
                == lv@ && p.volume.size_mb@ == size_mb@ && p.volume.rootfs@ == rootfs@
                && p.volume.mnt@ == path_in(crundir@, "mnt"@) && p.stage@ == StageText::Create,
            Err(e) => volume_names(lv@) is None && e@ == "malformed lv path"@,
        },
{
    let n: usize = lv.unicode_len();
    let i: usize = last_index_of(lv, '/');
    if i == 0 {
        return Err("malformed lv path".to_owned());
    }
    let name = lv.substring_char(i, n);
    let front = lv.substring_char(0, i - 1);
    let j: usize = last_index_of(front, '/');
    let vg = front.substring_char(j, i - 1);
    proof {
        assert(name@ =~= lv@.skip(i as int));
        assert(front@ =~= lv@.take(i - 1));
        assert(vg@ =~= front@.skip(j as int));
    }
    Ok(
        Provisioning {
            volume: Volume {
                lv: lv.to_owned(),
                name: name.to_owned(),
                vg: vg.to_owned(),
                size_mb: size_mb.to_owned(),
                rootfs: rootfs.to_owned(),
                mnt: join_path(crundir, "mnt"),
            },
            stage: Stage::Create,
        },
    )
}

impl Provisioning {
    /// What is to be done now.
    pub fn action(&self) -> (r: Action)
        ensures
            r@ == action_of(self.volume, self.stage@),
    {
        let v = &self.volume;
        let r = match &self.stage {
            Stage::Create => {
                let size = v.size_mb.clone().concat("M");
                Action::Run(
                    CommandLine::new("lvcreate").arg("-y").arg("-L").arg(size.as_str()).arg(
                        "-n",
                    ).arg(v.name.as_str()).arg(v.vg.as_str()),
                )
            },
            Stage::Format => Action::Run(
                CommandLine::new("mkfs.ext4").arg("-q").arg("-F").arg(v.lv.as_str()),
            ),
            Stage::MakeMountPoint => Action::MakeDir(v.mnt.clone()),
            Stage::Mount => Action::Run(
                CommandLine::new("mount").arg(v.lv.as_str()).arg(v.mnt.as_str()),
            ),
            Stage::Copy => {
                let from = v.rootfs.clone().concat("/.");
                Action::Run(CommandLine::new("cp").arg("-a").arg(from.as_str()).arg(v.mnt.as_str()))
            },
            Stage::Unmount(_) | Stage::Release(_) => Action::Run(
                CommandLine::new("umount").arg(v.mnt.as_str()),
            ),
            Stage::Remove(_) => Action::Run(CommandLine::new("lvremove").arg("-y").arg(v.lv.as_str())),
            Stage::Finished(_) => Action::Stop,
        };
        proof {
            match (r@, action_of(self.volume, self.stage@)) {
                (ActionText::Run(a), ActionText::Run(b)) => {
                    assert(a.args =~= b.args);
                },
                _ => {},
            }
        }
        r
    }

    /// Goes on after the action of this stage went as `outcome` says.
    pub fn advance(self, outcome: Outcome) -> (r: Self)
        ensures
            r.volume == self.volume,
            r.stage@ == next_stage(self.stage@, outcome_text(outcome)),
    {
        let Provisioning { volume, stage } = self;
        let stage = match stage {
            Stage::Create => match outcome {
                Ok(()) => Stage::Format,
                Err(e) => Stage::Finished(Err(e)),
            },
            Stage::Format => match outcome {
                Ok(()) => Stage::MakeMountPoint,
                Err(e) => Stage::Release(e),
            },
            Stage::MakeMountPoint => match outcome {
                Ok(()) => Stage::Mount,
                Err(e) => Stage::Release(e),
            },
            Stage::Mount => match outcome {
                Ok(()) => Stage::Copy,
                Err(e) => Stage::Release(e),
            },
            Stage::Copy => Stage::Unmount(outcome),
            Stage::Unmount(copied) => match copied {
                Err(e) => Stage::Release(e),
                Ok(()) => match outcome {
                    Ok(()) => Stage::Finished(Ok(())),
                    Err(e) => Stage::Release(e),
                },
            },
            Stage::Release(e) => Stage::Remove(e),
            Stage::Remove(e) => Stage::Finished(Err(e)),
            Stage::Finished(outcome) => Stage::Finished(outcome),
        };
        Provisioning { volume, stage }
    }
}

// ---------------------------------------------------------------------------
// What holds of every run
// ---------------------------------------------------------------------------

/// The stage after the actions of a run went as `outcomes` says, one after the other.
pub open spec fn stage_after(outcomes: Seq<Result<(), Seq<char>>>) -> StageText
    decreases outcomes.len(),
{
    if outcomes.len() == 0 {
        StageText::Create
    } else {
        next_stage(stage_after(outcomes.drop_last()), outcomes.last())
    }
}

/// A run ends after at most eight actions, whatever happens.
pub proof fn law_every_run_ends(outcomes: Seq<Result<(), Seq<char>>>)
    requires
        outcomes.len() >= 8,
    ensures
        stage_after(outcomes) is Finished,
{
    lemma_progress(outcomes);
}

/// How many actions a stage is behind the first one, at least.
spec fn rank(stage: StageText) -> nat {
    match stage {
        StageText::Create => 0,
        StageText::Format => 1,
        StageText::MakeMountPoint => 2,
        StageText::Mount => 3,
        StageText::Copy => 4,
        StageText::Unmount(_) => 5,
        StageText::Release(_) => 6,
        StageText::Remove(_) => 7,
        StageText::Finished(_) => 8,
    }
}

proof fn lemma_progress(outcomes: Seq<Result<(), Seq<char>>>)
    ensures
        rank(stage_after(outcomes)) >= outcomes.len() || stage_after(outcomes) is Finished,
    decreases outcomes.len(),
{
    if outcomes.len() > 0 {
        lemma_progress(outcomes.drop_last());
    }
}

/// No volume is left behind by a failure: where the volume was created and the run ends in an
/// error, the removal of the volume was one of its actions, and nothing came behind it.
pub proof fn law_failure_leaves_no_volume(v: Volume, outcomes: Seq<Result<(), Seq<char>>>)
    requires
        outcomes.len() > 0,
        outcomes[0] is Ok,
        stage_after(outcomes) is Finished,
        stage_after(outcomes)->Finished_0 is Err,
    ensures
        exists|k: int|
            0 < k < outcomes.len() && action_of(v, #[trigger] stage_after(outcomes.take(k)))
                == removal(v) && forall|j: int|
                k < j <= outcomes.len() ==> action_of(v, #[trigger] stage_after(outcomes.take(j)))
                    is Stop,
    decreases outcomes.len(),
{
    let front = outcomes.drop_last();
    let n = outcomes.len() as int;
    assert(outcomes.take(n) =~= outcomes);
    assert(outcomes.take(n - 1) =~= front);
    if n == 1 {
        assert(front =~= Seq::empty());
    } else if stage_after(front) is Finished {
        law_failure_leaves_no_volume(v, front);
        let k = choose|k: int|
            0 < k < front.len() && action_of(v, #[trigger] stage_after(front.take(k))) == removal(v)
                && forall|j: int|
                k < j <= front.len() ==> action_of(v, #[trigger] stage_after(front.take(j))) is Stop;
        assert(outcomes.take(k) =~= front.take(k));
        assert forall|j: int| k < j <= n implies action_of(
            v,
            #[trigger] stage_after(outcomes.take(j)),
        ) is Stop by {
            if j < n {
                assert(outcomes.take(j) =~= front.take(j));
            }
        }
    } else {
        lemma_first_is_create(front);
        assert(stage_after(front) is Remove);
        assert(action_of(v, stage_after(outcomes.take(n - 1))) == removal(v));
    }
}

/// Once an action went well that was not the last, the volume exists.
proof fn lemma_first_is_create(outcomes: Seq<Result<(), Seq<char>>>)
    requires
        outcomes.len() > 0,
    ensures
        !(stage_after(outcomes) is Create),
    decreases outcomes.len(),
{
    if outcomes.len() > 1 {
        lemma_first_is_create(outcomes.drop_last());
    }
}

/// A volume that was filled is kept: a run that ends well never removes it.
pub proof fn law_success_keeps_the_volume(v: Volume, outcomes: Seq<Result<(), Seq<char>>>, k: int)
    requires
        stage_after(outcomes) == StageText::Finished(Ok(())),
        0 <= k <= outcomes.len(),
    ensures
        !(stage_after(outcomes.take(k)) is Remove),
    decreases outcomes.len() - k,
{
    assert(outcomes.take(outcomes.len() as int) =~= outcomes);
    if k < outcomes.len() {
        lemma_failed_stays_failed(outcomes, k);
    }
}

/// A run that is about to clean up, or that has failed, ends in an error.
proof fn lemma_failed_stays_failed(outcomes: Seq<Result<(), Seq<char>>>, k: int)
    requires
        0 <= k <= outcomes.len(),
    ensures
        stage_after(outcomes.take(k)) is Remove ==> stage_after(outcomes) is Remove || (stage_after(
            outcomes,
        ) is Finished && stage_after(outcomes)->Finished_0 is Err),
    decreases outcomes.len() - k,
{
    if k < outcomes.len() {
        let front = outcomes.drop_last();
        lemma_failed_stays_failed(front, k);
        assert(front.take(k) =~= outcomes.take(k));
    } else {
        assert(outcomes.take(k) =~= outcomes);
    }
}

/// The error of a run is that of its first action that failed.
pub proof fn law_first_failure_is_reported(outcomes: Seq<Result<(), Seq<char>>>, e: Seq<char>)
    requires
        stage_after(outcomes) == StageText::Finished(Err::<(), Seq<char>>(e)),
    ensures
        exists|k: int|
            0 <= k < outcomes.len() && #[trigger] outcomes[k] == Err::<(), Seq<char>>(e)
                && forall|j: int| 0 <= j < k ==> outcomes[j] is Ok,
{
    lemma_first_failure(outcomes);
}

/// Whether `e` is the first error among `outcomes`.
spec fn is_first_failure(outcomes: Seq<Result<(), Seq<char>>>, e: Seq<char>) -> bool {
    exists|k: int|
        0 <= k < outcomes.len() && #[trigger] outcomes[k] == Err::<(), Seq<char>>(e) && forall|j: int|
            0 <= j < k ==> outcomes[j] is Ok
}

/// The error that a stage is about to report, if any.
spec fn pending(stage: StageText) -> Option<Seq<char>> {
    match stage {
        StageText::Unmount(Err(e)) => Some(e),
        StageText::Release(e) => Some(e),
        StageText::Remove(e) => Some(e),
        StageText::Finished(Err(e)) => Some(e),
        _ => None,
    }
}

proof fn lemma_first_failure(outcomes: Seq<Result<(), Seq<char>>>)
    ensures
        match pending(stage_after(outcomes)) {
            Some(e) => is_first_failure(outcomes, e),
            None => stage_after(outcomes) is Finished || forall|j: int|
                0 <= j < outcomes.len() ==> outcomes[j] is Ok,
        },
    decreases outcomes.len(),
{
    if outcomes.len() > 0 {
        let front = outcomes.drop_last();
        let n = outcomes.len() - 1;
        lemma_first_failure(front);
        match pending(stage_after(front)) {
            Some(e) => {
                let k = choose|k: int|
                    0 <= k < front.len() && #[trigger] front[k] == Err::<(), Seq<char>>(e)
                        && forall|j: int| 0 <= j < k ==> front[j] is Ok;
                assert(outcomes[k] == front[k]);
                assert forall|j: int| 0 <= j < k implies outcomes[j] is Ok by {
                    assert(front[j] is Ok);
                }
                assert(is_first_failure(outcomes, e));
            },
            None => {
                if !(stage_after(front) is Finished) {
                    assert forall|j: int| 0 <= j < n implies outcomes[j] is Ok by {
                        assert(front[j] is Ok);
                    }
                    match outcomes[n] {
                        Err(e) => {
                            assert(outcomes[n] == Err::<(), Seq<char>>(e));
                            assert(is_first_failure(outcomes, e));
                        },
                        Ok(()) => {},
                    }
                }
            },
        }
    }
}

/// A volume that was mounted is unmounted: that is the next action, however the copy went.
pub proof fn law_mounted_volume_is_unmounted(
    v: Volume,
    outcomes: Seq<Result<(), Seq<char>>>,
    k: int,
)
    requires
        0 <= k < outcomes.len(),
        stage_after(outcomes.take(k)) is Copy,
    ensures
        action_of(v, stage_after(outcomes.take(k + 1))) == command("umount"@, seq![v.mnt@]),
{
    assert(outcomes.take(k + 1).drop_last() =~= outcomes.take(k));
}

/// A volume is created in its volume group with its size and name, formatted, mounted in the state
/// directory, filled with the root file system and unmounted, in this order; that is all, if nothing
/// fails.
pub proof fn law_steps_of_a_good_run(
    v: Volume,
    outcomes: Seq<Result<(), Seq<char>>>,
)
    requires
        outcomes.len() == 6,
        forall|i: int| 0 <= i < 6 ==> outcomes[i] is Ok,
    ensures
        action_of(v, stage_after(outcomes.take(0))) == ActionText::Run(
            CommandText {
                program: "lvcreate"@,
                args: seq!["-y"@, "-L"@, v.size_mb@ + "M"@, "-n"@, v.name@, v.vg@],
            },
        ),
        action_of(v, stage_after(outcomes.take(1))) == ActionText::Run(
            CommandText { program: "mkfs.ext4"@, args: seq!["-q"@, "-F"@, v.lv@] },
        ),
        action_of(v, stage_after(outcomes.take(2))) == ActionText::MakeDir(v.mnt@),
        action_of(v, stage_after(outcomes.take(3))) == ActionText::Run(
            CommandText { program: "mount"@, args: seq![v.lv@, v.mnt@] },
        ),
        action_of(v, stage_after(outcomes.take(4))) == ActionText::Run(
            CommandText { program: "cp"@, args: seq!["-a"@, v.rootfs@ + "/."@, v.mnt@] },
        ),
        action_of(v, stage_after(outcomes.take(5))) == ActionText::Run(
            CommandText { program: "umount"@, args: seq![v.mnt@] },
        ),
        action_of(v, stage_after(outcomes)) is Stop,
        stage_after(outcomes) == StageText::Finished(Ok(())),
{
    reveal_with_fuel(stage_after, 7);
    assert(outcomes.take(6) =~= outcomes);
    assert(outcomes.take(6).drop_last() =~= outcomes.take(5));
    assert(outcomes.take(5).drop_last() =~= outcomes.take(4));
    assert(outcomes.take(4).drop_last() =~= outcomes.take(3));
    assert(outcomes.take(3).drop_last() =~= outcomes.take(2));
    assert(outcomes.take(2).drop_last() =~= outcomes.take(1));
    assert(outcomes.take(1).drop_last() =~= outcomes.take(0));
    assert(outcomes.take(1).last() is Ok && outcomes.take(2).last() is Ok && outcomes.take(
        3,
    ).last() is Ok && outcomes.take(4).last() is Ok && outcomes.take(5).last() is Ok
        && outcomes.take(6).last() is Ok);
}

/// Where a step behind the creation fails, the volume is unmounted and removed, and nothing else is
/// done; a failed copy is followed by an unmounting of its own. Where the creation fails, there is
/// nothing to clean up.
pub proof fn law_steps_after_a_failure(v: Volume, e: Seq<char>, any: Result<(), Seq<char>>)
    ensures
        next_stage(StageText::Create, Err(e)) == StageText::Finished(Err(e)),
        next_stage(StageText::Format, Err(e)) == next_stage(StageText::MakeMountPoint, Err(e)),
        next_stage(StageText::Format, Err(e)) == next_stage(StageText::Mount, Err(e)),
        next_stage(StageText::Format, Err(e)) == next_stage(StageText::Unmount(Ok(())), Err(e)),
        next_stage(StageText::Format, Err(e)) == next_stage(StageText::Unmount(Err(e)), any),
        action_of(v, next_stage(StageText::Copy, Err(e))) == ActionText::Run(
            CommandText { program: "umount"@, args: seq![v.mnt@] },
        ),
        next_stage(next_stage(StageText::Copy, Err(e)), any) == next_stage(
            StageText::Format,
            Err(e),
        ),
        action_of(v, next_stage(StageText::Format, Err(e))) == ActionText::Run(
            CommandText { program: "umount"@, args: seq![v.mnt@] },
        ),
        action_of(v, next_stage(next_stage(StageText::Format, Err(e)), any)) == ActionText::Run(
            CommandText { program: "lvremove"@, args: seq!["-y"@, v.lv@] },
        ),
        next_stage(next_stage(next_stage(StageText::Format, Err(e)), any), any)
            == StageText::Finished(Err(e)),
{
}

/// A device path ends in the volume group and the name of the volume; what stands before them does
/// not count, and without a `/` there is no volume.
pub proof fn law_names_in_a_device_path(before: Seq<char>, vg: Seq<char>, name: Seq<char>)
    requires
        forall|i: int| 0 <= i < vg.len() ==> vg[i] != '/',
        forall|i: int| 0 <= i < name.len() ==> name[i] != '/',
    ensures
        volume_names(before + seq!['/'] + vg + seq!['/'] + name) == Some((name, vg)),
        volume_names(vg + seq!['/'] + name) == Some((name, vg)),
        volume_names(name) is None,
{
    let lv = before + seq!['/'] + vg + seq!['/'] + name;
    let i: int = before.len() as int + vg.len() + 2;
    assert(lv[i - 1] == '/');
    assert forall|j: int| i <= j < lv.len() implies lv[j] != '/' by {
        assert(lv[j] == name[j - i]);
    }
    lemma_find_back_is(lv, '/', i);
    assert(lv.skip(i) =~= name);
    let front = lv.take(i - 1);
    let k: int = before.len() as int + 1;
    assert(front[k - 1] == '/');
    assert forall|j: int| k <= j < front.len() implies front[j] != '/' by {
        assert(front[j] == vg[j - k]);
    }
    lemma_find_back_is(front, '/', k);
    assert(front.skip(k) =~= vg);

    let short = vg + seq!['/'] + name;
    let n: int = vg.len() as int + 1;
    assert(short[n - 1] == '/');
    assert forall|j: int| n <= j < short.len() implies short[j] != '/' by {
        assert(short[j] == name[j - n]);
    }
    lemma_find_back_is(short, '/', n);
    assert(short.skip(n) =~= name);
    assert(short.take(n - 1) =~= vg);
    lemma_find_back_is(vg, '/', 0);
    assert(vg.skip(0) =~= vg);
    lemma_find_back_is(name, '/', 0);
}

/// A stage, an action and an outcome are the same as texts as they are as strings.
pub proof fn law_stages_and_actions_as_texts(e: String, path: String, command: CommandLine)
    ensures
        outcome_text(Ok(())) == Ok::<(), Seq<char>>(()),
        outcome_text(Err(e)) == Err::<(), Seq<char>>(e@),
        Stage::Unmount(Err(e))@ == StageText::Unmount(Err(e@)),
        Stage::Unmount(Ok(()))@ == StageText::Unmount(Ok(())),
        Stage::Release(e)@ == StageText::Release(e@),
        Stage::Remove(e)@ == StageText::Remove(e@),
        Stage::Finished(Err(e))@ == StageText::Finished(Err(e@)),
        Stage::Finished(Ok(()))@ == StageText::Finished(Ok(())),
        Stage::Create@ is Create && Stage::Format@ is Format && Stage::Mount@ is Mount,
        Stage::MakeMountPoint@ is MakeMountPoint && Stage::Copy@ is Copy,
        Action::Run(command)@ == ActionText::Run(command@),
        Action::MakeDir(path)@ == ActionText::MakeDir(path@),
        Action::Stop@ is Stop,
{
}

}
