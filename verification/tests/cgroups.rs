use backend_kvm::cgroups::{
    build_linux_resources, freezer_state, get_stored_cgroup_path, get_stored_systemd_cgroup,
    is_memory_fit, place_cgroup, plan_cgroups, resolve_cgroup_path, setup_cgroups,
    stored_cgroup_config, stored_cgroup_files, FreezerState,
};
use backend_kvm::frontend::{FrontendConfig, ImageConfig};
use serde_json::Value;

fn json(text: &str) -> Value {
    serde_json::from_str(text).unwrap()
}

fn image(memory: u64) -> ImageConfig {
    ImageConfig {
        cpio: String::new(),
        os_var: String::new(),
        kernel: String::new(),
        ramdisk: String::new(),
        inmate: String::new(),
        dtb: String::new(),
        initrd: String::new(),
        netconf: String::new(),
        disk_type: String::new(),
        disk_image: String::new(),
        disk_size: 0,
        starting_vaddress: String::new(),
        memory,
        net: String::new(),
        rpu_req: false,
        vcpus: 0,
        vcpu_pinning: Vec::new(),
        isolcpu: String::new(),
        nohz_full: String::new(),
        steer_irq: None,
    }
}

fn container(config: &str) -> FrontendConfig {
    let mut fc = FrontendConfig::new();
    fc.containerid = "test-cont-123".to_string();
    fc.crundir = "/run/runPHI/test-cont-123".to_string();
    fc.jsonconfig = json(config);
    fc
}

#[test]
fn test_resolve_cgroup_path_default() {
    let mut fc = FrontendConfig::new();
    fc.containerid = "test-cont-123".to_string();
    fc.jsonconfig = json("{}");

    let path = resolve_cgroup_path(&fc);
    assert_eq!(path, "runphi/test-cont-123");
}

#[test]
fn test_resolve_cgroup_path_custom_relative() {
    let mut fc = FrontendConfig::new();
    fc.containerid = "test-cont-123".to_string();
    fc.jsonconfig = json(r#"{"linux": {"cgroupsPath": "docker/custom-cgroup"}}"#);

    let path = resolve_cgroup_path(&fc);
    assert_eq!(path, "docker/custom-cgroup");
}

#[test]
fn test_resolve_cgroup_path_custom_absolute() {
    let mut fc = FrontendConfig::new();
    fc.containerid = "test-cont-123".to_string();
    fc.jsonconfig = json(r#"{"linux": {"cgroupsPath": "/system.slice/runphi-test.scope"}}"#);

    let path = resolve_cgroup_path(&fc);
    assert_eq!(path, "system.slice/runphi-test.scope");
}

#[test]
fn test_resolve_cgroup_path_empty_or_whitespace() {
    let mut fc = FrontendConfig::new();
    fc.containerid = "test-cont-123".to_string();
    fc.jsonconfig = json(r#"{"linux": {"cgroupsPath": "   "}}"#);

    let path = resolve_cgroup_path(&fc);
    assert_eq!(path, "runphi/test-cont-123");
}

#[test]
fn test_stored_cgroup_path_and_systemd() {
    // When files do not exist:
    assert_eq!(get_stored_cgroup_path("mycont", None), "runphi/mycont");
    assert!(!get_stored_systemd_cgroup(None));

    // What the files hold
    assert_eq!(
        get_stored_cgroup_path("mycont", Some("docker/mycont\n")),
        "docker/mycont"
    );
    assert!(get_stored_systemd_cgroup(Some("1\n")));
}

#[test]
fn test_build_linux_resources_memory_fallback() {
    let mut fc = FrontendConfig::new();
    fc.jsonconfig = json(r#"{"linux": {"resources": {"cpu": {"quota": 100000}}}}"#);

    let ic = image(512);

    let res = build_linux_resources(&fc, &ic).unwrap();
    assert!(res.memory().is_some());
    assert_eq!(
        res.memory().as_ref().unwrap().limit(),
        Some(512 * 1024 * 1024)
    );
    assert!(res.cpu().is_some());
    assert_eq!(res.cpu().as_ref().unwrap().quota(), Some(100000));
}

#[test]
fn test_build_linux_resources_explicit_memory_preserved() {
    let mut fc = FrontendConfig::new();
    fc.jsonconfig = json(r#"{"linux": {"resources": {"memory": {"limit": 1073741824}}}}"#);

    let ic = image(256);

    let res = build_linux_resources(&fc, &ic).unwrap();
    assert_eq!(
        res.memory().as_ref().unwrap().limit(),
        Some(1073741824)
    );
}

#[test]
fn an_absolute_path_loses_all_its_leading_separators() {
    let fc = container(r#"{"linux": {"cgroupsPath": "///a//b/"}}"#);
    assert_eq!(resolve_cgroup_path(&fc), "a//b");
    let fc = container(r#"{"linux": {"cgroupsPath": "/./a/."}}"#);
    assert_eq!(resolve_cgroup_path(&fc), "a");
}

#[test]
fn a_relative_path_is_kept_as_it_is() {
    let fc = container(r#"{"linux": {"cgroupsPath": " /a "}}"#);
    assert_eq!(resolve_cgroup_path(&fc), " /a ");
}

#[test]
fn a_path_that_is_no_text_is_passed_over() {
    let fc = container(r#"{"linux": {"cgroupsPath": 5}}"#);
    assert_eq!(resolve_cgroup_path(&fc), "runphi/test-cont-123");
}

#[test]
fn a_blank_note_of_the_path_is_passed_over() {
    assert_eq!(get_stored_cgroup_path("c", Some(" \n")), "runphi/c");
}

#[test]
fn the_flag_is_one_or_true() {
    assert!(get_stored_systemd_cgroup(Some("true")));
    assert!(!get_stored_systemd_cgroup(Some("0")));
    assert!(!get_stored_systemd_cgroup(Some("True")));
    assert!(!get_stored_systemd_cgroup(Some("")));
}

#[test]
fn limits_without_memory_stay_without_it_where_the_image_gives_none() {
    let fc = container("{}");
    let res = build_linux_resources(&fc, &image(0)).unwrap();
    assert!(res.memory().is_none());
    assert!(res.cpu().is_none());
}

#[test]
fn limits_that_cannot_be_read_are_none_at_all() {
    let fc = container(r#"{"linux": {"resources": {"cpu": "fast"}}}"#);
    let res = build_linux_resources(&fc, &image(1)).unwrap();
    assert!(res.cpu().is_none());
    assert_eq!(res.memory().as_ref().unwrap().limit(), Some(1048576));
}

#[test]
fn a_memory_that_cannot_be_counted_is_refused_unless_a_limit_is_given() {
    let fc = container("{}");
    assert!(!is_memory_fit(&fc, &image(u64::MAX)));
    assert!(plan_cgroups(&fc, &image(u64::MAX)).is_none());
    assert!(is_memory_fit(&fc, &image(u64::MAX / 1048576)));

    let fc = container(r#"{"linux": {"resources": {"memory": {"limit": 7}}}}"#);
    assert!(is_memory_fit(&fc, &image(u64::MAX)));
    let setup = plan_cgroups(&fc, &image(u64::MAX)).unwrap();
    assert_eq!(setup.resources.memory().as_ref().unwrap().limit(), Some(7));
}

#[test]
fn a_cgroup_is_set_up_and_found_again() {
    let fc = container(
        r#"{"systemd_cgroup": true, "process": {"oomScoreAdj": -500},
            "linux": {"cgroupsPath": "/docker/x"}}"#,
    );
    let setup = setup_cgroups(&fc, &image(64)).unwrap();
    assert_eq!(setup.files.len(), 2);
    assert_eq!(setup.files[0].path, "/run/runPHI/test-cont-123/cgroup_path");
    assert_eq!(setup.files[0].content, "docker/x");
    assert_eq!(setup.files[1].path, "/run/runPHI/test-cont-123/systemd_cgroup");
    assert_eq!(setup.files[1].content, "1");
    assert_eq!(setup.config.cgroup_path, "docker/x");
    assert!(setup.config.systemd_cgroup);
    assert_eq!(setup.config.container_name, "test-cont-123");
    assert_eq!(setup.oom_score_adj, Some(-500));
    assert_eq!(
        setup.resources.memory().as_ref().unwrap().limit(),
        Some(67108864)
    );

    let (path_file, flag_file) = stored_cgroup_files(&fc.crundir);
    assert_eq!(setup.files[0].path, path_file);
    assert_eq!(setup.files[1].path, flag_file);
    let (files, config) = place_cgroup(&fc);
    assert_eq!(files.len(), 2);
    assert_eq!(config.cgroup_path, "docker/x");

    let found = stored_cgroup_config(
        "test-cont-123",
        Some(setup.files[0].content.as_str()),
        Some(setup.files[1].content.as_str()),
    );
    assert_eq!(found.cgroup_path, setup.config.cgroup_path);
    assert_eq!(found.systemd_cgroup, setup.config.systemd_cgroup);
    assert_eq!(found.container_name, setup.config.container_name);
}

#[test]
fn a_container_without_settings_is_confined_by_default() {
    let fc = container("{}");
    let setup = setup_cgroups(&fc, &image(0)).unwrap();
    assert_eq!(setup.files[0].content, "runphi/test-cont-123");
    assert_eq!(setup.files[1].content, "0");
    assert!(!setup.config.systemd_cgroup);
    assert_eq!(setup.oom_score_adj, None);
}

#[test]
fn an_adjustment_keeps_its_low_bits() {
    let fc = container(r#"{"process": {"oomScoreAdj": 4294967297}}"#);
    assert_eq!(setup_cgroups(&fc, &image(0)).unwrap().oom_score_adj, Some(1));
}

#[test]
fn freezing_and_thawing() {
    assert_eq!(freezer_state(true), FreezerState::Frozen);
    assert_eq!(freezer_state(false), FreezerState::Thawed);
}

#[test]
fn absolute_paths_are_stripped_as_by_the_standard_library() {
    for path in ["/", "//", "/a", "///a//b/", "/./a/.", "/.", "/..", "/a/..", "/.a", "/a/./", "/./..//.", "/a. "] {
        let fc = container(&format!("{{\"linux\": {{\"cgroupsPath\": \"{}\"}}}}", path));
        let stripped = std::path::Path::new(path).strip_prefix("/").unwrap();
        assert_eq!(resolve_cgroup_path(&fc), stripped.to_str().unwrap());
    }
}

#[test]
fn a_section_that_says_nothing_of_memory() {
    for section in [
        "{}",
        r#"{"linux": {}}"#,
        r#"{"linux": {"resources": null}}"#,
        r#"{"linux": {"resources": "x"}}"#,
        r#"{"linux": {"resources": {"memory": null}}}"#,
        r#"{"linux": {"resources": {"memory": {"limit": 1.5}}}}"#,
    ] {
        let fc = container(section);
        let res = build_linux_resources(&fc, &image(512)).unwrap();
        assert_eq!(res.memory().as_ref().unwrap().limit(), Some(536870912));
        let res = build_linux_resources(&fc, &image(0)).unwrap();
        assert!(res.memory().is_none());
    }
}

#[test]
fn a_section_with_memory_of_its_own() {
    for (limit, read) in [("7", Some(7)), ("-1", Some(-1)), ("null", None)] {
        let fc = container(&format!(
            "{{\"linux\": {{\"resources\": {{\"memory\": {{\"limit\": {}}}, \"cpu\": {{\"quota\": 5}}}}}}}}",
            limit
        ));
        let res = build_linux_resources(&fc, &image(512)).unwrap();
        assert_eq!(res.memory().as_ref().unwrap().limit(), read);
        assert_eq!(res.cpu().as_ref().unwrap().quota(), Some(5));
    }
}

#[test]
fn a_section_that_cannot_be_read_limits_nothing() {
    let fc = container(r#"{"linux": {"resources": {"memory": {"limit": "x"}}}}"#);
    let res = build_linux_resources(&fc, &image(0)).unwrap();
    assert_eq!(res, oci_spec::runtime::LinuxResources::default());
}

#[test]
fn a_section_that_says_nothing_of_cpus() {
    for section in [
        "{}",
        r#"{"linux": {"resources": "x"}}"#,
        r#"{"linux": {"resources": {"cpu": null}}}"#,
        r#"{"linux": {"resources": {"memory": {"limit": 7}}}}"#,
        r#"{"linux": {"resources": {"cpu": {"quota": "x"}}}}"#,
    ] {
        let res = build_linux_resources(&container(section), &image(512)).unwrap();
        assert!(res.cpu().is_none());
    }
}
