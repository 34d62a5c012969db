use backend_kvm::config_generator::network::{
    detect_default_bridge, generate_interface_xml, interface_path, is_net_enabled,
    is_spelt_in_ascii, netconf, HostNetwork,
};
use backend_kvm::config_generator::BackendConfig;
use backend_kvm::frontend::{FrontendConfig, ImageConfig};

const BARE: HostNetwork = HostNetwork {
    virbr0: false,
    docker0: false,
    xenbr0: false,
    br0: false,
    named: false,
    virtnetworkd: false,
};

const USER: &str = "<interface type='user'>\n      <model type='virtio'/>\n    </interface>";

fn bridge(name: &str) -> String {
    format!(
        "<interface type='bridge'>\n      <source bridge='{}'/>\n      <model type='virtio'/>\n    </interface>",
        name
    )
}

fn network(name: &str) -> String {
    format!(
        "<interface type='network'>\n      <source network='{}'/>\n      <model type='virtio'/>\n    </interface>",
        name
    )
}

#[test]
fn test_is_net_enabled_disabled_values() {
    assert!(!is_net_enabled(""));
    assert!(!is_net_enabled("   "));
    assert!(!is_net_enabled("no"));
    assert!(!is_net_enabled("No"));
    assert!(!is_net_enabled("NO"));
    assert!(!is_net_enabled("none"));
    assert!(!is_net_enabled("false"));
    assert!(!is_net_enabled("off"));
    assert!(!is_net_enabled("disabled"));
    assert!(!is_net_enabled("0"));
}

#[test]
fn test_is_net_enabled_enabled_values() {
    assert!(is_net_enabled("yes"));
    assert!(is_net_enabled("Yes"));
    assert!(is_net_enabled("true"));
    assert!(is_net_enabled("default"));
    assert!(is_net_enabled("bridge"));
    assert!(is_net_enabled("user"));
    assert!(is_net_enabled("virbr0"));
    assert!(is_net_enabled("docker0"));
}

#[test]
fn test_generate_interface_user_slirp() {
    let xml = generate_interface_xml("user", "", &BARE);
    assert!(xml.contains("type='user'"));
    assert!(xml.contains("<model type='virtio'/>"));

    let xml_slirp = generate_interface_xml("slirp", "", &BARE);
    assert!(xml_slirp.contains("type='user'"));
}

#[test]
fn test_generate_interface_bridge() {
    let xml = generate_interface_xml("bridge:mybr0", "", &BARE);
    assert!(xml.contains("type='bridge'"));
    assert!(xml.contains("source bridge='mybr0'"));
    assert!(xml.contains("<model type='virtio'/>"));

    let xml_conf = generate_interface_xml("bridge", "custombr", &BARE);
    assert!(xml_conf.contains("source bridge='custombr'"));
}

#[test]
fn test_generate_interface_network() {
    let xml = generate_interface_xml("network:custom-net", "", &BARE);
    assert!(xml.contains("type='network'"));
    assert!(xml.contains("source network='custom-net'"));

    let xml_net = generate_interface_xml("network", "", &BARE);
    assert!(xml_net.contains("type='network'"));
    assert!(xml_net.contains("source network='default'"));
}

#[test]
fn test_netconf_integration() {
    let fc = FrontendConfig::new();
    let mut ic = ImageConfig {
        cpio: String::new(),
        os_var: "linux".to_string(),
        kernel: String::new(),
        ramdisk: String::new(),
        inmate: "/boot/Image".to_string(),
        dtb: String::new(),
        initrd: String::new(),
        netconf: String::new(),
        disk_type: String::new(),
        disk_image: String::new(),
        disk_size: 0,
        starting_vaddress: String::new(),
        memory: 1024,
        net: "no".to_string(),
        rpu_req: false,
        vcpus: 1,
        vcpu_pinning: Vec::new(),
        isolcpu: String::new(),
        nohz_full: String::new(),
        steer_irq: None,
    };

    let mut c = BackendConfig::new("x86_64");
    c.name = "test-guest".to_string();

    // Disabled case
    netconf(&fc, &ic, &mut c, &BARE).unwrap();
    assert!(c.devices_xml.is_empty());

    // Enabled case
    ic.net = "yes".to_string();
    netconf(&fc, &ic, &mut c, &BARE).unwrap();
    assert_eq!(c.devices_xml.len(), 1);
    assert!(c.devices_xml[0].contains("<model type='virtio'/>"));
}

#[test]
fn each_mode_gives_its_interface() {
    assert_eq!(generate_interface_xml(" User ", "x", &BARE), USER);
    assert_eq!(generate_interface_xml("BRIDGE: b1 ", "x", &BARE), bridge("b1"));
    assert_eq!(generate_interface_xml("Bridge", " b2 ", &BARE), bridge("b2"));
    assert_eq!(generate_interface_xml("Network: n1", "x", &BARE), network("n1"));
    assert_eq!(generate_interface_xml("network:", "x", &BARE), network("default"));
}

#[test]
fn a_bridge_without_a_name_is_detected() {
    let host = HostNetwork { docker0: true, br0: true, ..BARE };
    assert_eq!(detect_default_bridge(&host), "docker0");
    assert_eq!(generate_interface_xml("bridge:", "x", &host), bridge("docker0"));
    assert_eq!(generate_interface_xml("bridge", "", &host), bridge("docker0"));
    assert_eq!(generate_interface_xml("bridge", "", &BARE), bridge("virbr0"));
}

#[test]
fn bridges_are_detected_in_their_order() {
    let all = HostNetwork { virbr0: true, docker0: true, xenbr0: true, br0: true, ..BARE };
    assert_eq!(detect_default_bridge(&all), "virbr0");
    assert_eq!(detect_default_bridge(&HostNetwork { virbr0: false, ..all }), "docker0");
    assert_eq!(detect_default_bridge(&HostNetwork { xenbr0: true, br0: true, ..BARE }), "xenbr0");
    assert_eq!(detect_default_bridge(&HostNetwork { br0: true, ..BARE }), "br0");
    assert_eq!(detect_default_bridge(&BARE), "virbr0");
}

#[test]
fn an_interface_of_the_host_is_used_as_a_bridge() {
    let host = HostNetwork { named: true, virtnetworkd: true, ..BARE };
    assert_eq!(generate_interface_xml(" eth7 ", "x", &host), bridge("eth7"));
    assert_eq!(interface_path(" eth7 "), "/sys/class/net/eth7");
}

#[test]
fn the_default_mode_takes_what_the_host_has() {
    let daemon = HostNetwork { virtnetworkd: true, docker0: true, ..BARE };
    assert_eq!(generate_interface_xml("yes", " lab ", &daemon), network("lab"));
    assert_eq!(generate_interface_xml("yes", "", &daemon), network("default"));
    let docker = HostNetwork { docker0: true, ..BARE };
    assert_eq!(generate_interface_xml("yes", "lab", &docker), bridge("docker0"));
    assert_eq!(generate_interface_xml("yes", "lab", &BARE), USER);
}

#[test]
fn a_kelvin_sign_counts_as_a_k() {
    assert_eq!(generate_interface_xml("networ\u{212a}", "", &BARE), network("default"));
    assert!(!is_spelt_in_ascii("networ\u{212a}:n"));
    assert!(is_spelt_in_ascii("network:n"));
    assert!(is_spelt_in_ascii("networ\u{212a}"));
}
