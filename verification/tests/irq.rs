use backend_kvm::frontend::{FrontendConfig, ImageConfig};
use backend_kvm::irq::affinity::{
    apply_irq_steering, load_affinities, restore_irq_steering, restore_writes, save_affinities,
    state_file, Affinity, IrqSteering,
};
use backend_kvm::irq::{
    get_isolated_cpus, get_steer_irqs, parse_cpulist, print_cpulist, warn_if_isolated, HostCpus,
};
use std::collections::HashMap;

#[test]
fn test_parse_cpulist_empty() {
    assert!(parse_cpulist("").is_empty());
    assert!(parse_cpulist("   ").is_empty());
}

#[test]
fn test_parse_cpulist_single() {
    let set = parse_cpulist("3");
    assert_eq!(set.len(), 1);
    assert!(set.contains(&3));
}

#[test]
fn test_parse_cpulist_list() {
    let set = parse_cpulist("0,2,4");
    assert_eq!(set.len(), 3);
    assert!(set.contains(&0));
    assert!(set.contains(&2));
    assert!(set.contains(&4));
}

#[test]
fn test_parse_cpulist_range() {
    let set = parse_cpulist("1-3");
    assert_eq!(set.len(), 3);
    assert!(set.contains(&1));
    assert!(set.contains(&2));
    assert!(set.contains(&3));
}

#[test]
fn test_parse_cpulist_mixed() {
    let set = parse_cpulist(" 0, 2-4, 7 ");
    assert_eq!(set.len(), 5);
    assert!(set.contains(&0));
    assert!(set.contains(&2));
    assert!(set.contains(&3));
    assert!(set.contains(&4));
    assert!(set.contains(&7));
}

fn image(isolcpu: &str, nohz_full: &str, steer_irq: Option<Vec<usize>>) -> ImageConfig {
    ImageConfig {
        cpio: String::new(),
        os_var: String::new(),
        kernel: String::new(),
        ramdisk: String::new(),
        inmate: String::new(),
        dtb: String::new(),
        initrd: String::new(),
        netconf: String::new(),
        disk_type: String::new(),
        disk_image: String::new(),
        disk_size: 0,
        starting_vaddress: String::new(),
        memory: 0,
        net: String::new(),
        rpu_req: false,
        vcpus: 1,
        vcpu_pinning: Vec::new(),
        isolcpu: isolcpu.to_string(),
        nohz_full: nohz_full.to_string(),
        steer_irq,
    }
}

fn quiet() -> HostCpus {
    HostCpus { isolated: None, nohz_full: None }
}

fn container(config: &str) -> FrontendConfig {
    let mut fc = FrontendConfig::new();
    fc.jsonconfig = serde_json::from_str(config).unwrap();
    fc
}

#[test]
fn test_detect_isolated_cpus_from_image_config() {
    let ic = image("2,3", "3", Some(vec![0, 2]));

    let isolated = get_isolated_cpus(&ic, &quiet());
    assert!(isolated.contains(&2));
    assert!(isolated.contains(&3));
    assert!(!isolated.contains(&0));
    assert!(!isolated.contains(&1));
}

#[test]
fn test_saved_affinities_roundtrip() {
    let mut affinities: HashMap<u32, String> = HashMap::new();
    affinities.insert(1, "0-3".to_string());
    affinities.insert(12, "0,1".to_string());

    let serialized = save_affinities(&affinities).unwrap();
    let deserialized: HashMap<u32, String> = load_affinities(&serialized).unwrap();

    assert_eq!(affinities, deserialized);
}

#[test]
fn pieces_that_are_no_cpus_are_passed_over() {
    let set = parse_cpulist("x,1-,-2,3-1,5-5,,+7,1-2-3");
    let mut cpus: Vec<usize> = set.into_iter().collect();
    cpus.sort();
    assert_eq!(cpus, vec![5, 7]);
}

#[test]
fn a_printed_list_reads_back() {
    let cpus: Vec<usize> = vec![7, 0, 7, 12];
    let text = print_cpulist(&cpus);
    assert_eq!(text, "7,0,7,12");
    let set = parse_cpulist(&text);
    assert_eq!(set.len(), 3);
    for cpu in cpus {
        assert!(set.contains(&cpu));
    }
}

#[test]
fn cpus_that_the_host_isolates_count_too() {
    let host = HostCpus { isolated: Some("4-5\n".to_string()), nohz_full: Some("9".to_string()) };
    let mut cpus: Vec<usize> = get_isolated_cpus(&image("2", "3", None), &host).into_iter().collect();
    cpus.sort();
    assert_eq!(cpus, vec![2, 3, 4, 5, 9]);
}

#[test]
fn targets_of_the_image_come_first() {
    let fc = container(r#"{"steer_irq": [6, "x", 7, -1]}"#);
    assert_eq!(get_steer_irqs(&fc, &image("", "", Some(vec![0, 1]))), Some(vec![0, 1]));
    assert_eq!(get_steer_irqs(&fc, &image("", "", None)), Some(vec![6, 7]));
    assert_eq!(get_steer_irqs(&fc, &image("", "", Some(vec![]))), Some(vec![6, 7]));
    let fc = container(r#"{"steer_irq": ["x"]}"#);
    assert_eq!(get_steer_irqs(&fc, &image("", "", None)), None);
    let fc = container(r#"{"steer_irq": 3}"#);
    assert_eq!(get_steer_irqs(&fc, &image("", "", None)), None);
    assert_eq!(get_steer_irqs(&FrontendConfig::new(), &image("", "", None)), None);
}

#[test]
fn isolated_targets_are_warned_of() {
    assert_eq!(
        warn_if_isolated(&[0, 2, 3], &image("2,3", "3", None), &quiet()),
        vec![
            "CPU 2 is isolated, but specified in steer_irq! Redirecting IRQs to an isolated CPU may compromise real-time performance.",
            "CPU 3 is isolated, but specified in steer_irq! Redirecting IRQs to an isolated CPU may compromise real-time performance.",
        ]
    );
    assert!(warn_if_isolated(&[0, 1], &image("2,3", "3", None), &quiet()).is_empty());
}

#[test]
fn interrupts_are_moved_and_put_back() {
    let mut steering = IrqSteering::begin(&[0, 1]).unwrap();
    let w = steering.visit("17", &Affinity::Text("0-3\n".to_string())).unwrap();
    assert_eq!(w.path, "/proc/irq/17/smp_affinity_list");
    assert_eq!(w.content, "0,1");
    let w = steering.visit("9", &Affinity::Text("2\n".to_string())).unwrap();
    assert_eq!(w.path, "/proc/irq/9/smp_affinity_list");
    // moved, but there is nothing to put back
    assert!(steering.visit("5", &Affinity::Unreadable).is_some());
    // not an interrupt, or not movable
    assert!(steering.visit("default_smp_affinity", &Affinity::Missing).is_none());
    assert!(steering.visit("0x1", &Affinity::Text("1".to_string())).is_none());
    assert!(steering.visit("6", &Affinity::Missing).is_none());

    let kept = save_affinities(&steering.saved).unwrap();
    let saved = load_affinities(&kept).unwrap();
    let mut writes: Vec<(String, String)> =
        restore_writes(&saved).into_iter().map(|w| (w.path, w.content)).collect();
    writes.sort();
    assert_eq!(
        writes,
        vec![
            ("/proc/irq/17/smp_affinity_list".to_string(), "0-3".to_string()),
            ("/proc/irq/9/smp_affinity_list".to_string(), "2".to_string()),
        ]
    );
}

#[test]
fn nothing_is_moved_without_a_target() {
    assert!(IrqSteering::begin(&[]).is_none());
}

#[test]
fn a_damaged_state_is_reported() {
    assert!(!load_affinities("{\"1\": 2}").unwrap_err().detail.is_empty());
    assert!(load_affinities("").is_err());
    assert!(load_affinities("{\"x\": \"0\"}").is_err());
    assert!(load_affinities("{}").unwrap().is_empty());
}

#[test]
fn a_whole_host_is_steered_and_put_back() {
    let entries = vec![
        ("17".to_string(), Affinity::Text("0-3\n".to_string())),
        ("default".to_string(), Affinity::Missing),
        ("5".to_string(), Affinity::Unreadable),
        ("9".to_string(), Affinity::Text("2\n".to_string())),
        ("6".to_string(), Affinity::Missing),
    ];
    assert!(apply_irq_steering("/run/x", &[], &entries).is_none());
    let plan = apply_irq_steering("/run/x", &[4, 1], &entries).unwrap();
    let writes: Vec<(String, String)> =
        plan.writes.into_iter().map(|w| (w.path, w.content)).collect();
    assert_eq!(
        writes,
        vec![
            ("/proc/irq/17/smp_affinity_list".to_string(), "4,1".to_string()),
            ("/proc/irq/5/smp_affinity_list".to_string(), "4,1".to_string()),
            ("/proc/irq/9/smp_affinity_list".to_string(), "4,1".to_string()),
        ]
    );
    let state = plan.state.unwrap();
    assert_eq!(state.path, "/run/x/saved_irq_affinities.json");
    assert_eq!(state.path, state_file("/run/x"));
    let way = restore_irq_steering("/run/x", Some(&state.content)).unwrap().unwrap();
    assert_eq!(way.remove, state.path);
    let mut back: Vec<(String, String)> = way
        .writes
        .into_iter()
        .map(|w| (w.path, w.content))
        .collect();
    back.sort();
    assert_eq!(
        back,
        vec![
            ("/proc/irq/17/smp_affinity_list".to_string(), "0-3".to_string()),
            ("/proc/irq/9/smp_affinity_list".to_string(), "2".to_string()),
        ]
    );
    // the state file is gone
    assert!(restore_irq_steering("/run/x", None).unwrap().is_none());
    let fault = restore_irq_steering("/run/x", Some("[]")).unwrap_err();
    assert!(fault.detail.contains("invalid type"));
}
