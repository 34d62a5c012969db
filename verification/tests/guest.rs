use backend_kvm::actions::{CommandLine, CommandOutcome};
use backend_kvm::frontend::{FrontendConfig, ImageConfig};
use backend_kvm::guest::teardown::{self, destroyguest};
use backend_kvm::guest::{
    createguest, first_pid, start_command, startguest, stop_command, stopguest, storeinfo, Action,
    Answer, Stage,
};

fn image(steer_irq: Option<Vec<usize>>) -> ImageConfig {
    ImageConfig {
        cpio: String::new(),
        os_var: "linux".to_string(),
        kernel: String::new(),
        ramdisk: String::new(),
        inmate: String::new(),
        dtb: String::new(),
        initrd: String::new(),
        netconf: String::new(),
        disk_type: String::new(),
        disk_image: String::new(),
        disk_size: 0,
        starting_vaddress: String::new(),
        memory: 0,
        net: String::new(),
        rpu_req: false,
        vcpus: 0,
        vcpu_pinning: Vec::new(),
        isolcpu: String::new(),
        nohz_full: String::new(),
        steer_irq,
    }
}

fn container() -> FrontendConfig {
    let mut fc = FrontendConfig::new();
    fc.containerid = "abc".to_string();
    fc.bundle = "/b".to_string();
    fc.pidfile = "/b/pid".to_string();
    fc.crundir = "/run/x".to_string();
    fc
}

fn ended(success: bool, stdout: &str, stderr: &str) -> CommandOutcome {
    CommandOutcome::Ended {
        success,
        code: Some(if success { 0 } else { 1 }),
        stdout: stdout.to_string(),
        stderr: stderr.to_string(),
    }
}

fn not_started() -> CommandOutcome {
    CommandOutcome::NotStarted("no such file".to_string())
}

fn shown(command: &CommandLine) -> String {
    format!("{} {}", command.program, command.args.join(" "))
}

/// Creates a guest on a host whose disk note is `note`, whose `pgrep` prints `pids`, and on which
/// the step that starts with `failing` fails.
fn create(
    note: Option<&str>,
    steer_irq: Option<Vec<usize>>,
    pids: &str,
    failing: &str,
) -> (Vec<String>, Result<(), String>) {
    let fc = container();
    let ic = image(steer_irq);
    let mut done: Vec<String> = Vec::new();
    let mut stage = Stage::FindDisk;
    loop {
        let action = stage.action(&fc);
        let step = match &action {
            Action::Read(path) => format!("read {}", path),
            Action::Provision { lv, size_mb } => format!("provision {} {}", lv, size_mb),
            Action::Steer(cpus) => format!("steer {:?}", cpus),
            Action::Run(command) => shown(command),
            Action::Confine(pid) => format!("confine {}", pid),
            Action::Start(command) => shown(command),
            Action::Write(w) => format!("write {} {}", w.path, w.content),
            Action::Stop => {
                return match stage {
                    Stage::Finished(outcome) => (done, outcome),
                    other => panic!("{:?}", other),
                }
            }
        };
        let fails = step.starts_with(failing);
        let outcome = if fails { Err(format!("{} failed", failing)) } else { Ok(()) };
        done.push(step);
        let answer = match action {
            Action::Read(_) => Answer::File(match outcome {
                Ok(()) => Ok(note.map(|text| text.to_string())),
                Err(e) => Err(e),
            }),
            Action::Run(command) => {
                let stdout = if command.program == "pgrep" { pids } else { "" };
                Answer::Ended(ended(!fails, stdout, "bad"))
            }
            Action::Start(_) => Answer::Started(match outcome {
                Ok(()) => Ok(4321),
                Err(e) => Err(e),
            }),
            _ => Answer::Done(outcome),
        };
        stage = createguest(&fc, &ic, stage, answer);
    }
}

#[test]
fn a_guest_is_created_paused_and_watched() {
    let (done, outcome) = create(None, None, "77\n88\n", "nothing");
    assert_eq!(
        done,
        vec![
            "read /run/x/disk",
            "virsh create /run/x/domain.xml --paused",
            "pgrep -f qemu-system.*runphi-abc",
            "confine 77",
            "sh -c while [ -d /proc/77 ]; do sleep 0.2; done",
            "write /b/pid 4321",
        ]
    );
    assert_eq!(outcome, Ok(()));
}

#[test]
fn a_guest_with_a_disk_and_steered_interrupts() {
    let (done, outcome) = create(Some("/dev/vg/lv_abc 324\n"), Some(vec![0, 1]), "77", "nothing");
    assert_eq!(done[1], "provision /dev/vg/lv_abc 324");
    assert_eq!(done[2], "steer [0, 1]");
    assert_eq!(done.len(), 8);
    assert_eq!(outcome, Ok(()));
}

#[test]
fn interrupts_that_cannot_be_steered_do_not_stop_the_guest() {
    let (done, outcome) = create(None, Some(vec![0]), "77", "steer");
    assert_eq!(done.len(), 7);
    assert_eq!(outcome, Ok(()));
}

#[test]
fn a_pid_that_is_no_number_is_watched_and_not_confined() {
    let (done, outcome) = create(None, None, "", "nothing");
    assert_eq!(done[3], "sh -c while [ -d /proc/ ]; do sleep 0.2; done");
    assert_eq!(outcome, Ok(()));
}

#[test]
fn every_way_in_which_creation_fails() {
    let note = Some("/dev/vg/lv_abc 324\n");
    assert_eq!(create(note, None, "77", "read"), (
        vec!["read /run/x/disk".to_string()],
        Err("read failed".to_string()),
    ));
    assert_eq!(create(Some("x"), None, "77", "nothing").1, Err("malformed disk state file".to_string()));
    let (done, outcome) = create(note, None, "77", "provision");
    assert_eq!(done.len(), 2);
    assert_eq!(outcome, Err("provision failed".to_string()));
    let (done, outcome) = create(note, None, "77", "virsh");
    assert_eq!(done.len(), 3);
    assert_eq!(outcome, Err("Fallita creazione dominio virsh: bad".to_string()));
    let (done, outcome) = create(note, None, "77", "pgrep");
    assert_eq!(done.len(), 4);
    assert_eq!(outcome, Err("pgrep failed".to_string()));
    assert_eq!(create(note, None, "77", "confine").1, Err("confine failed".to_string()));
    assert_eq!(create(note, None, "77", "sh").1, Err("sh failed".to_string()));
    assert_eq!(create(note, None, "77", "write").1, Err("write failed".to_string()));
}

#[test]
fn a_command_that_cannot_be_started_ends_the_creation() {
    for stage in [Stage::Define, Stage::Locate] {
        let next = createguest(&container(), &image(None), stage, Answer::Ended(not_started()));
        match next {
            Stage::Finished(Err(e)) => assert_eq!(e, "no such file"),
            other => panic!("{:?}", other),
        }
    }
}

#[test]
fn an_answer_of_the_wrong_kind_changes_nothing() {
    let next = createguest(&container(), &image(None), Stage::Define, Answer::Done(Ok(())));
    assert!(matches!(next, Stage::Define));
    let next = createguest(&container(), &image(None), Stage::Finished(Ok(())), Answer::Done(Ok(())));
    assert!(matches!(next, Stage::Finished(Ok(()))));
}

#[test]
fn the_first_pid_of_several() {
    assert_eq!(first_pid(" 12 \r\n13\n"), "12");
    assert_eq!(first_pid("12"), "12");
    assert_eq!(first_pid("\n12"), "");
    assert_eq!(first_pid(""), "");
}

#[test]
fn a_guest_is_started_and_stopped() {
    assert_eq!(shown(&start_command("abc")), "virsh resume runphi-abc");
    assert_eq!(shown(&stop_command("abc")), "virsh suspend runphi-abc");
    assert_eq!(startguest("abc", &ended(true, "", "")), Ok(()));
    assert_eq!(stopguest("abc", &ended(true, "", "")), Ok(()));
    assert_eq!(
        startguest("abc", &ended(false, "", " bad\n")),
        Err("Fallito resume del guest virsh 'runphi-abc':  bad\n".to_string())
    );
    assert_eq!(
        stopguest("abc", &ended(false, "", "bad")),
        Err("Fallito stop/suspend del guest virsh 'runphi-abc': bad".to_string())
    );
    assert_eq!(startguest("abc", &not_started()), Err("no such file".to_string()));
    assert_eq!(stopguest("abc", &not_started()), Err("no such file".to_string()));
}

#[test]
fn what_is_kept_of_a_guest() {
    let files: Vec<(String, String)> = storeinfo(&container(), &image(None))
        .into_iter()
        .map(|w| (w.path, w.content))
        .collect();
    assert_eq!(
        files,
        vec![
            ("/run/x/bundle".to_string(), "/b".to_string()),
            ("/run/x/pidfile".to_string(), "/b/pid".to_string()),
            ("/run/x/OS".to_string(), "linux".to_string()),
        ]
    );
}

/// Tears a guest down on a host whose disk note is `note`; the steps that start with `failing`
/// fail with `stderr`.
fn destroy(note: Option<&str>, failing: &str, stderr: &str) -> (Vec<String>, Vec<String>, Result<(), String>) {
    let mut done: Vec<String> = Vec::new();
    let mut warnings: Vec<String> = Vec::new();
    let mut stage = teardown::Stage::Destroy;
    loop {
        let action = stage.action("abc", "/run/x");
        let step = match &action {
            teardown::Action::Run(command) => shown(command),
            teardown::Action::Restore => "restore".to_string(),
            teardown::Action::Unconfine => "unconfine".to_string(),
            teardown::Action::Read(path) => format!("read {}", path),
            teardown::Action::RemoveFile(path) => format!("rm {}", path),
            teardown::Action::RemoveDirectory(path) => format!("rmdir {}", path),
            teardown::Action::Stop => {
                return match stage {
                    teardown::Stage::Finished(outcome) => (done, warnings, outcome),
                    other => panic!("{:?}", other),
                }
            }
        };
        let fails = step.starts_with(failing);
        done.push(step);
        let outcome = if fails { Err(stderr.to_string()) } else { Ok(()) };
        let answer = match action {
            teardown::Action::Run(_) => Answer::Ended(ended(!fails, "", stderr)),
            teardown::Action::Read(_) => Answer::File(match outcome {
                Ok(()) => Ok(note.map(|text| text.to_string())),
                Err(e) => Err(e),
            }),
            _ => Answer::Done(outcome),
        };
        if let Some(warning) = stage.warning("abc", &answer) {
            warnings.push(warning);
        }
        stage = destroyguest(stage, answer);
    }
}

#[test]
fn a_guest_is_torn_down() {
    let (done, warnings, outcome) = destroy(Some("/dev/vg/lv_abc 324\n"), "nothing", "");
    assert_eq!(
        done,
        vec![
            "virsh destroy runphi-abc",
            "restore",
            "unconfine",
            "read /run/x/disk",
            "lvremove -y /dev/vg/lv_abc",
            "rm /run/x/disk",
            "rmdir /run/x",
        ]
    );
    assert!(warnings.is_empty());
    assert_eq!(outcome, Ok(()));
}

#[test]
fn a_guest_without_a_volume_is_torn_down() {
    for note in [None, Some(" \n")] {
        let (done, warnings, outcome) = destroy(note, "nothing", "");
        assert_eq!(done.len(), 5);
        assert!(warnings.is_empty());
        assert_eq!(outcome, Ok(()));
    }
    let (done, warnings, _) = destroy(Some("/dev/vg/lv 1"), "read", "denied");
    assert_eq!(done.len(), 5);
    assert!(warnings.is_empty());
}

#[test]
fn failures_of_a_teardown_are_warned_of() {
    let note = Some("/dev/vg/lv_abc 324\n");
    let (done, warnings, outcome) = destroy(note, "virsh", " bad\n");
    assert_eq!(done.len(), 7);
    assert_eq!(warnings, vec!["virsh destroy per 'runphi-abc' ha restituito: bad"]);
    assert_eq!(outcome, Ok(()));
    for known in ["error: domain is not running\n", "Domain not found: x"] {
        assert!(destroy(note, "virsh", known).1.is_empty());
    }
    let (done, warnings, outcome) = destroy(note, "lvremove", "busy");
    assert_eq!(done.len(), 6);
    assert_eq!(
        warnings,
        vec!["could not remove LV /dev/vg/lv_abc: lvremove failed (exit 1): busy"]
    );
    assert_eq!(outcome, Ok(()));
    assert_eq!(destroy(note, "restore", "x").1, vec!["could not restore IRQ affinities: x"]);
    assert_eq!(destroy(note, "unconfine", "x").1, vec!["x"]);
    assert!(destroy(note, "rm", "x").1.is_empty());
}

#[test]
fn a_teardown_without_virsh_fails() {
    let answer = Answer::Ended(not_started());
    assert!(teardown::Stage::Destroy.warning("abc", &answer).is_none());
    match destroyguest(teardown::Stage::Destroy, answer) {
        teardown::Stage::Finished(Err(e)) => assert_eq!(e, "no such file"),
        other => panic!("{:?}", other),
    }
}
