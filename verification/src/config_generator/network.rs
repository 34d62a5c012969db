//! The network interface of a guest.
use vstd::prelude::*;

use crate::config_generator::{BackendConfig, ConfigError, Domain};
use crate::frontend::{FrontendConfig, ImageConfig};
use crate::text::{
    folds_to, has_word_prefix, is_blank, is_space, is_word, law_trimming,
    lemma_blank_is_trimmed_away, lemma_trim_back, lemma_trim_front, lemma_trimmed_edges,
    matches_word, occurs_at, occurs_in, starts_with_word, strings, trim, trim_front, trimmed,
};

verus! {

broadcast use vstd::string::group_string_axioms;

// ---------------------------------------------------------------------------
// Whether there is an interface
// ---------------------------------------------------------------------------

/// Whether the network mode `net` asks for an interface: any mode does, but for an empty one and
/// for the words that switch networking off, in any case.
pub open spec fn net_enabled(net: Seq<char>) -> bool {
    let mode = trimmed(net);
    &&& mode.len() > 0
    &&& !is_word(mode, "no"@)
    &&& !is_word(mode, "none"@)
    &&& !is_word(mode, "false"@)
    &&& !is_word(mode, "off"@)
    &&& !is_word(mode, "disabled"@)
    &&& !is_word(mode, "0"@)
}

/// Checks whether networking is enabled, by the value of the field `net`.
pub fn is_net_enabled(net_val: &str) -> (r: bool)
    ensures
        r == net_enabled(net_val@),
{
    let mode = trim(net_val);
    !mode.is_empty() && !matches_word(mode, "no") && !matches_word(mode, "none") && !matches_word(
        mode,
        "false",
    ) && !matches_word(mode, "off") && !matches_word(mode, "disabled") && !matches_word(mode, "0")
}

// ---------------------------------------------------------------------------
// What the interface is connected to
// ---------------------------------------------------------------------------

/// What the host offers to connect an interface to.
#[derive(Debug, Clone, Copy)]
pub struct HostNetwork {
    /// Whether there is an interface `virbr0`.
    pub virbr0: bool,
    /// Whether there is an interface `docker0`.
    pub docker0: bool,
    /// Whether there is an interface `xenbr0`.
    pub xenbr0: bool,
    /// Whether there is an interface `br0`.
    pub br0: bool,
    /// Whether there is an interface whose name is the network mode of the guest.
    pub named: bool,
    /// Whether the socket of the daemon for virtual networks is there.
    pub virtnetworkd: bool,
}

/// The path that exists where the host has an interface called `net`.
pub fn interface_path(net: &str) -> (r: String)
    ensures
        r@ == "/sys/class/net/"@ + trimmed(net@),
{
    "/sys/class/net/".to_owned().concat(trim(net))
}

/// The bridge to use where none is named: the first of the usual ones that the host has.
pub open spec fn default_bridge(host: HostNetwork) -> Seq<char> {
    if host.virbr0 {
        "virbr0"@
    } else if host.docker0 {
        "docker0"@
    } else if host.xenbr0 {
        "xenbr0"@
    } else if host.br0 {
        "br0"@
    } else {
        "virbr0"@
    }
}

/// Whether the host has one of the usual bridges.
pub open spec fn has_default_bridge(host: HostNetwork) -> bool {
    host.virbr0 || host.docker0 || host.xenbr0 || host.br0
}

/// Detects an available bridge of the host, or falls back to the name of the most usual one.
pub fn detect_default_bridge(host: &HostNetwork) -> (r: String)
    ensures
        r@ == default_bridge(*host),
{
    let name = if host.virbr0 {
        "virbr0"
    } else if host.docker0 {
        "docker0"
    } else if host.xenbr0 {
        "xenbr0"
    } else if host.br0 {
        "br0"
    } else {
        "virbr0"
    };
    name.to_owned()
}

/// An interface in user mode.
pub open spec fn user_interface() -> Seq<char> {
    "<interface type='user'>\n      <model type='virtio'/>\n    </interface>"@
}

/// An interface on the bridge `name`.
pub open spec fn bridge_interface(name: Seq<char>) -> Seq<char> {
    "<interface type='bridge'>\n      <source bridge='"@ + name
        + "'/>\n      <model type='virtio'/>\n    </interface>"@
}

/// An interface in the virtual network `name`.
pub open spec fn network_interface(name: Seq<char>) -> Seq<char> {
    "<interface type='network'>\n      <source network='"@ + name
        + "'/>\n      <model type='virtio'/>\n    </interface>"@
}

/// `name`, or `other` where `name` is blank.
pub open spec fn name_or(name: Seq<char>, other: Seq<char>) -> Seq<char> {
    if trimmed(name).len() > 0 {
        trimmed(name)
    } else {
        other
    }
}

/// The interface that the network mode `net` and the parameter `netconf` ask for.
pub open spec fn interface_xml(net: Seq<char>, netconf: Seq<char>, host: HostNetwork) -> Seq<char> {
    let mode = trimmed(net);
    if is_word(mode, "user"@) || is_word(mode, "slirp"@) {
        user_interface()
    } else if starts_with_word(mode, "bridge:"@) {
        bridge_interface(name_or(mode.skip(7), default_bridge(host)))
    } else if is_word(mode, "bridge"@) {
        bridge_interface(name_or(netconf, default_bridge(host)))
    } else if starts_with_word(mode, "network:"@) {
        network_interface(name_or(mode.skip(8), "default"@))
    } else if is_word(mode, "network"@) {
        network_interface("default"@)
    } else if host.named {
        bridge_interface(mode)
    } else if host.virtnetworkd {
        network_interface(name_or(netconf, "default"@))
    } else if has_default_bridge(host) {
        bridge_interface(default_bridge(host))
    } else {
        user_interface()
    }
}

/// Whether a network mode that names a virtual network spells the word `network` in ASCII. The
/// name starts behind the first eight bytes, and with a Kelvin sign in place of the `k` the
/// eighth byte lies within a character.
pub open spec fn spelt_in_ascii(net: Seq<char>) -> bool {
    starts_with_word(trimmed(net), "network:"@) ==> trimmed(net)[6] != '\u{212a}'
}

/// Decides [`spelt_in_ascii`].
pub fn is_spelt_in_ascii(net: &str) -> (r: bool)
    ensures
        r == spelt_in_ascii(net@),
{
    proof {
        reveal_strlit("network:");
    }
    let mode = trim(net);
    !has_word_prefix(mode, "network:") || mode.get_char(6) != '\u{212a}'
}

fn bridge_xml(name: &str) -> (r: String)
    ensures
        r@ == bridge_interface(name@),
{
    "<interface type='bridge'>\n      <source bridge='".to_owned().concat(name).concat(
        "'/>\n      <model type='virtio'/>\n    </interface>",
    )
}

fn network_xml(name: &str) -> (r: String)
    ensures
        r@ == network_interface(name@),
{
    "<interface type='network'>\n      <source network='".to_owned().concat(name).concat(
        "'/>\n      <model type='virtio'/>\n    </interface>",
    )
}

fn user_xml() -> (r: String)
    ensures
        r@ == user_interface(),
{
    "<interface type='user'>\n      <model type='virtio'/>\n    </interface>".to_owned()
}

/// Generates the interface that the network mode asks for, on the given host.
pub fn generate_interface_xml(net_val: &str, netconf_val: &str, host: &HostNetwork) -> (r: String)
    requires
        spelt_in_ascii(net_val@),
    ensures
        r@ == interface_xml(net_val@, netconf_val@, *host),
{
    proof {
        reveal_strlit("bridge:");
        reveal_strlit("network:");
    }
    let mode = trim(net_val);
    let n: usize = mode.unicode_len();
    let bridge = detect_default_bridge(host);
    let parameter = trim(netconf_val);
    if matches_word(mode, "user") || matches_word(mode, "slirp") {
        user_xml()
    } else if has_word_prefix(mode, "bridge:") {
        assert(mode@.subrange(7, n as int) =~= mode@.skip(7));
        let name = trim(mode.substring_char(7, n));
        if name.is_empty() {
            bridge_xml(bridge.as_str())
        } else {
            bridge_xml(name)
        }
    } else if matches_word(mode, "bridge") {
        if parameter.is_empty() {
            bridge_xml(bridge.as_str())
        } else {
            bridge_xml(parameter)
        }
    } else if has_word_prefix(mode, "network:") {
        assert(mode@.subrange(8, n as int) =~= mode@.skip(8));
        let name = trim(mode.substring_char(8, n));
        if name.is_empty() {
            network_xml("default")
        } else {
            network_xml(name)
        }
    } else if matches_word(mode, "network") {
        network_xml("default")
    } else if host.named {
        bridge_xml(mode)
    } else if host.virtnetworkd {
        if parameter.is_empty() {
            network_xml("default")
        } else {
            network_xml(parameter)
        }
    } else if host.virbr0 || host.docker0 || host.xenbr0 || host.br0 {
        bridge_xml(bridge.as_str())
    } else {
        user_xml()
    }
}

/// The domain `d` with the interface of the guest, if it has one.
pub open spec fn with_network(d: Domain, ic: ImageConfig, host: HostNetwork) -> Domain {
    if net_enabled(ic.net@) {
        Domain {
            devices_xml: d.devices_xml.push(interface_xml(ic.net@, ic.netconf@, host)),
            ..d
        }
    } else {
        d
    }
}

/// Adds the interface of the guest to the devices of the domain, if networking is enabled.
pub fn netconf(
    _fc: &FrontendConfig,
    ic: &ImageConfig,
    c: &mut BackendConfig,
    host: &HostNetwork,
) -> (r: Result<(), ConfigError>)
    requires
        spelt_in_ascii(ic.net@),
    ensures
        r is Ok,
        final(c)@ == with_network(old(c)@, *ic, *host),
{
    if is_net_enabled(ic.net.as_str()) {
        c.devices_xml.push(generate_interface_xml(ic.net.as_str(), ic.netconf.as_str(), host));
        assert(strings(c.devices_xml@) =~= strings(old(c).devices_xml@).push(
            interface_xml(ic.net@, ic.netconf@, *host),
        ));
    }
    assert(c@ =~= with_network(old(c)@, *ic, *host));
    Ok(())
}

/// Whitespace around the network mode does not matter.
pub proof fn law_mode_is_trimmed(net: Seq<char>, netconf: Seq<char>, host: HostNetwork)
    ensures
        net_enabled(trimmed(net)) == net_enabled(net),
        interface_xml(trimmed(net), netconf, host) == interface_xml(net, netconf, host),
{
    lemma_trimmed_edges(net);
}

/// Every interface of a guest is a virtio device.
pub proof fn law_every_interface_is_virtio(net: Seq<char>, netconf: Seq<char>, host: HostNetwork)
    ensures
        occurs_in("<model type='virtio'/>"@, interface_xml(net, netconf, host)),
{
    reveal_strlit("<model type='virtio'/>");
    reveal_strlit("<interface type='user'>\n      <model type='virtio'/>\n    </interface>");
    reveal_strlit("'/>\n      <model type='virtio'/>\n    </interface>");
    let model = "<model type='virtio'/>"@;
    let xml = interface_xml(net, netconf, host);
    let tail = "'/>\n      <model type='virtio'/>\n    </interface>"@;
    assert(occurs_at(model, user_interface(), 30)) by {
        assert(user_interface().subrange(30, 30int + model.len()) =~= model);
    }
    assert(tail.subrange(10, 10int + model.len()) =~= model);
    if xml != user_interface() {
        let i: int = xml.len() - tail.len() + 10;
        assert(xml.subrange(i, i + model.len()) =~= tail.subrange(10, 10int + model.len()));
        assert(occurs_at(model, xml, i));
    }
}

// ---------------------------------------------------------------------------
// What each network mode gives
// ---------------------------------------------------------------------------

/// Networking is switched off by a blank mode and by these words, and by nothing else.
pub proof fn law_what_switches_networking_off(net: Seq<char>)
    ensures
        is_blank(net) ==> !net_enabled(net),
        ({
            let off = seq!["no"@, "none"@, "false"@, "off"@, "disabled"@, "0"@];
            !is_blank(net) ==> (net_enabled(net) <==> forall|k: int|
                0 <= k < off.len() ==> !is_word(trimmed(net), #[trigger] off[k]))
        }),
{
    lemma_blank_is_trimmed_away(net);
    let off = seq!["no"@, "none"@, "false"@, "off"@, "disabled"@, "0"@];
    assert(off[0] == "no"@ && off[1] == "none"@ && off[2] == "false"@ && off[3] == "off"@ && off[4]
        == "disabled"@ && off[5] == "0"@);
}

/// A bridge that the mode names is the bridge of the interface, whatever bridges the host has, and
/// whatever the parameter is. The keyword may be in any case, and whitespace around the name and
/// around the mode does not count.
pub proof fn law_a_named_bridge_is_used(
    before: Seq<char>,
    keyword: Seq<char>,
    gap: Seq<char>,
    name: Seq<char>,
    after: Seq<char>,
    netconf: Seq<char>,
    host: HostNetwork,
)
    requires
        is_blank(before) && is_blank(gap) && is_blank(after),
        is_word(keyword, "bridge:"@),
        name.len() > 0 && !is_space(name[0]) && !is_space(name.last()),
    ensures
        interface_xml(before + (keyword + gap + name) + after, netconf, host)
            == "<interface type='bridge'>\n      <source bridge='"@ + name
            + "'/>\n      <model type='virtio'/>\n    </interface>"@,
{
    reveal_strlit("bridge:");
    reveal_strlit("user");
    reveal_strlit("slirp");
    assert("bridge:"@.len() == 7 && "user"@.len() == 4 && "slirp"@.len() == 5);
    lemma_named_mode(before, keyword, gap, name, after, "bridge:"@);
    let mode = keyword + gap + name;
    assert(folds_to(keyword[0], "bridge:"@[0]));
    lemma_not_user(mode, 'b');
}

/// A virtual network that the mode names is the network of the interface, whatever the host and the
/// parameter are.
pub proof fn law_a_named_network_is_used(
    before: Seq<char>,
    keyword: Seq<char>,
    gap: Seq<char>,
    name: Seq<char>,
    after: Seq<char>,
    netconf: Seq<char>,
    host: HostNetwork,
)
    requires
        is_blank(before) && is_blank(gap) && is_blank(after),
        is_word(keyword, "network:"@),
        name.len() > 0 && !is_space(name[0]) && !is_space(name.last()),
    ensures
        interface_xml(before + (keyword + gap + name) + after, netconf, host)
            == "<interface type='network'>\n      <source network='"@ + name
            + "'/>\n      <model type='virtio'/>\n    </interface>"@,
{
    reveal_strlit("network:");
    reveal_strlit("bridge:");
    reveal_strlit("bridge");
    reveal_strlit("user");
    reveal_strlit("slirp");
    assert("network:"@.len() == 8 && "user"@.len() == 4 && "slirp"@.len() == 5);
    lemma_named_mode(before, keyword, gap, name, after, "network:"@);
    let mode = keyword + gap + name;
    assert(folds_to(keyword[0], "network:"@[0]));
    lemma_not_user(mode, 'n');
    assert(!folds_to(mode[0], 'b'));
    assert("bridge:"@[0] == 'b' && "bridge"@[0] == 'b');
    if starts_with_word(mode, "bridge:"@) {
        assert(folds_to(mode[0], "bridge:"@[0]));
    }
    if is_word(mode, "bridge"@) {
        assert(folds_to(mode[0], "bridge"@[0]));
    }
}

proof fn lemma_not_user(mode: Seq<char>, first: char)
    requires
        mode.len() > 0,
        first == 'b' || first == 'n',
        folds_to(mode[0], first),
    ensures
        !is_word(mode, "user"@),
        !is_word(mode, "slirp"@),
{
    reveal_strlit("user");
    reveal_strlit("slirp");
    if is_word(mode, "user"@) {
        assert(folds_to(mode[0], "user"@[0]));
    }
    if is_word(mode, "slirp"@) {
        assert(folds_to(mode[0], "slirp"@[0]));
    }
}

proof fn lemma_named_mode(
    before: Seq<char>,
    keyword: Seq<char>,
    gap: Seq<char>,
    name: Seq<char>,
    after: Seq<char>,
    word: Seq<char>,
)
    requires
        is_blank(before) && is_blank(gap) && is_blank(after),
        is_word(keyword, word),
        word.len() > 0,
        word[0] == 'b' || word[0] == 'n',
        name.len() > 0 && !is_space(name[0]) && !is_space(name.last()),
    ensures
        trimmed(before + (keyword + gap + name) + after) == keyword + gap + name,
        starts_with_word(keyword + gap + name, word),
        trimmed((keyword + gap + name).skip(word.len() as int)) == name,
{
    let mode = keyword + gap + name;
    assert(folds_to(keyword[0], word[0]));
    assert(mode[0] == keyword[0]);
    assert(mode.last() == name.last());
    law_trimming(before, mode, after);
    assert forall|i: int| 0 <= i < word.len() implies folds_to(#[trigger] mode[i], word[i]) by {
        assert(folds_to(keyword[i], word[i]));
    }
    assert(mode.skip(word.len() as int) =~= gap + name);
    law_trimming(gap, name, Seq::empty());
    assert(gap + name + Seq::<char>::empty() =~= gap + name);
}

/// What a mode that names nothing gives: user mode for `user` and `slirp`; for `bridge` the bridge of
/// the parameter, or else a bridge of the host; for `network` the network `default`; for the name of
/// an interface of the host, that interface; for any other mode the network of the parameter if the
/// host runs virtual networks, or else a bridge that the host has, or else user mode.
pub proof fn law_modes_without_a_name(net: Seq<char>, netconf: Seq<char>, host: HostNetwork)
    ensures
        ({
            let mode = trimmed(net);
            let xml = interface_xml(net, netconf, host);
            let user = "<interface type='user'>\n      <model type='virtio'/>\n    </interface>"@;
            let tail = "'/>\n      <model type='virtio'/>\n    </interface>"@;
            let bridge = "<interface type='bridge'>\n      <source bridge='"@;
            let network = "<interface type='network'>\n      <source network='"@;
            let usual = if host.virbr0 {
                "virbr0"@
            } else if host.docker0 {
                "docker0"@
            } else if host.xenbr0 {
                "xenbr0"@
            } else if host.br0 {
                "br0"@
            } else {
                "virbr0"@
            };
            let keyword = is_word(mode, "user"@) || is_word(mode, "slirp"@) || is_word(
                mode,
                "bridge"@,
            ) || is_word(mode, "network"@) || starts_with_word(mode, "bridge:"@)
                || starts_with_word(mode, "network:"@);
            &&& is_word(mode, "user"@) || is_word(mode, "slirp"@) ==> xml == user
            &&& is_word(mode, "bridge"@) && !is_blank(netconf) ==> xml == bridge + trimmed(netconf)
                + tail
            &&& is_word(mode, "bridge"@) && is_blank(netconf) ==> xml == bridge + usual + tail
            &&& is_word(mode, "network"@) ==> xml == network + "default"@ + tail
            &&& !keyword && host.named ==> xml == bridge + mode + tail
            &&& !keyword && !host.named && host.virtnetworkd && !is_blank(netconf) ==> xml
                == network + trimmed(netconf) + tail
            &&& !keyword && !host.named && host.virtnetworkd && is_blank(netconf) ==> xml
                == network + "default"@ + tail
            &&& !keyword && !host.named && !host.virtnetworkd && (host.virbr0 || host.docker0
                || host.xenbr0 || host.br0) ==> xml == bridge + usual + tail
            &&& !keyword && !host.named && !host.virtnetworkd && !(host.virbr0 || host.docker0
                || host.xenbr0 || host.br0) ==> xml == user
        }),
{
    lemma_blank_is_trimmed_away(netconf);
    reveal_strlit("user");
    reveal_strlit("slirp");
    reveal_strlit("bridge");
    reveal_strlit("bridge:");
    reveal_strlit("network");
    reveal_strlit("network:");
    assert("user"@.len() == 4 && "slirp"@.len() == 5 && "bridge"@.len() == 6 && "bridge:"@.len()
        == 7 && "network"@.len() == 7 && "network:"@.len() == 8);
    let mode = trimmed(net);
    if is_word(mode, "network"@) && starts_with_word(mode, "bridge:"@) {
        assert(folds_to(mode[0], "network"@[0]));
        assert(folds_to(mode[0], "bridge:"@[0]));
    }
}

/// A guest with networking has one more device, behind those it had; one without has what it had.
/// Nothing else of the domain changes.
pub proof fn law_networking_adds_one_device(d: Domain, ic: ImageConfig, host: HostNetwork)
    ensures
        !net_enabled(ic.net@) ==> with_network(d, ic, host) == d,
        net_enabled(ic.net@) ==> with_network(d, ic, host) == (Domain {
            devices_xml: d.devices_xml + seq![interface_xml(ic.net@, ic.netconf@, host)],
            ..d
        }),
{
    assert(d.devices_xml.push(interface_xml(ic.net@, ic.netconf@, host)) =~= d.devices_xml + seq![
        interface_xml(ic.net@, ic.netconf@, host),
    ]);
}

/// A mode without a Kelvin sign is spelt in ASCII as far as it has to be.
pub proof fn law_only_a_kelvin_sign_is_refused(net: Seq<char>)
    requires
        forall|i: int| 0 <= i < net.len() ==> (#[trigger] net[i]) as int != 0x212a,
    ensures
        spelt_in_ascii(net),
{
    let t = trim_front(net);
    lemma_trim_front(net);
    lemma_trim_back(t);
    reveal_strlit("network:");
    if starts_with_word(trimmed(net), "network:"@) {
        assert(trimmed(net)[6] == t[6]);
        assert(t[6] == net[6 + (net.len() - t.len())]);
    }
}

/// A mode that announces a name and gives none falls back: to a bridge of the host, or to the
/// network `default`.
pub proof fn law_a_missing_name_falls_back(
    before: Seq<char>,
    keyword: Seq<char>,
    after: Seq<char>,
    netconf: Seq<char>,
    host: HostNetwork,
)
    requires
        is_blank(before) && is_blank(after),
    ensures
        is_word(keyword, "bridge:"@) ==> interface_xml(before + keyword + after, netconf, host)
            == "<interface type='bridge'>\n      <source bridge='"@ + (if host.virbr0 {
            "virbr0"@
        } else if host.docker0 {
            "docker0"@
        } else if host.xenbr0 {
            "xenbr0"@
        } else if host.br0 {
            "br0"@
        } else {
            "virbr0"@
        }) + "'/>\n      <model type='virtio'/>\n    </interface>"@,
        is_word(keyword, "network:"@) ==> interface_xml(before + keyword + after, netconf, host)
            == "<interface type='network'>\n      <source network='default'/>\n      <model type='virtio'/>\n    </interface>"@,
{
    reveal_strlit("bridge:");
    reveal_strlit("bridge");
    reveal_strlit("network:");
    assert("bridge:"@.len() == 7 && "network:"@.len() == 8);
    assert(trimmed(Seq::<char>::empty()).len() == 0);
    if is_word(keyword, "bridge:"@) {
        assert(folds_to(keyword[0], "bridge:"@[0]) && folds_to(keyword[6], "bridge:"@[6]));
        law_trimming(before, keyword, after);
        lemma_not_user(keyword, 'b');
        assert(keyword.skip(7) =~= Seq::<char>::empty());
    }
    if is_word(keyword, "network:"@) {
        assert(folds_to(keyword[0], "network:"@[0]) && folds_to(keyword[7], "network:"@[7]));
        law_trimming(before, keyword, after);
        lemma_not_user(keyword, 'n');
        assert(keyword.skip(8) =~= Seq::<char>::empty());
        if starts_with_word(keyword, "bridge:"@) {
            assert(folds_to(keyword[0], "bridge:"@[0]));
        }
        if is_word(keyword, "bridge"@) {
            assert(folds_to(keyword[0], "bridge"@[0]));
        }
        lemma_default_network();
    }
}

proof fn lemma_default_network()
    ensures
        network_interface("default"@)
            == "<interface type='network'>\n      <source network='default'/>\n      <model type='virtio'/>\n    </interface>"@,
{
    reveal_strlit("<interface type='network'>\n      <source network='");
    reveal_strlit("default");
    reveal_strlit("'/>\n      <model type='virtio'/>\n    </interface>");
    reveal_strlit(
        "<interface type='network'>\n      <source network='default'/>\n      <model type='virtio'/>\n    </interface>",
    );
    assert(network_interface("default"@)
        =~= "<interface type='network'>\n      <source network='default'/>\n      <model type='virtio'/>\n    </interface>"@);
}

}
