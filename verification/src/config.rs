use vstd::prelude::*;

verus! {

// ── Default releases ────────────────────────────────────────────────────────

pub const RUNC_VERSION: &'static str = "v1.4.2";
pub const CNI_VERSION: &'static str = "v1.9.1";
pub const CONTAINERD_VERSION: &'static str = "v2.3.1";
pub const K8S_VERSION: &'static str = "v1.36.1";
pub const CILIUM_VERSION: &'static str = "v0.19.4";

/// The configuration file that `generate` writes and `install` reads.
pub const CONFIG_FILENAME: &'static str = "config.toml";

// ── Default install locations ───────────────────────────────────────────────

pub const RUNC_INSTALL_PATH: &'static str = "/usr/local/sbin/runc";
pub const CNI_INSTALL_DIR: &'static str = "/opt/cni/bin";
pub const CONTAINERD_INSTALL_DIR: &'static str = "/usr/local";
pub const K8S_INSTALL_DIR: &'static str = "/usr/local/bin";
pub const CILIUM_INSTALL_DIR: &'static str = "/usr/local/bin";
pub const KUBELET_INSTALL_DIR: &'static str = "/usr/bin";

// ── Download locations ──────────────────────────────────────────────────────

pub const RUNC_URL_BASE: &'static str = "https://github.com/opencontainers/runc/releases/download";
pub const CNI_URL_BASE: &'static str = "https://github.com/containernetworking/plugins/releases/download";
pub const CONTAINERD_URL_BASE: &'static str = "https://github.com/containerd/containerd/releases/download";
pub const K8S_URL_BASE: &'static str = "https://dl.k8s.io";
pub const CILIUM_URL_BASE: &'static str = "https://github.com/cilium/cilium-cli/releases/download";

pub const KUBELET_SERVICE_URL: &'static str = "https://raw.githubusercontent.com/kubernetes/release/master/cmd/krel/templates/latest/kubelet/kubelet.service";
pub const KUBEADM_CONF_URL: &'static str = "https://raw.githubusercontent.com/kubernetes/release/master/cmd/krel/templates/latest/kubeadm/10-kubeadm.conf";

/// The upstream containerd systemd unit.
pub const CONTAINERD_SERVICE_URL: &'static str = "https://raw.githubusercontent.com/containerd/containerd/main/containerd.service";
/// Where the containerd systemd unit is installed.
pub const CONTAINERD_UNIT_DIR: &'static str = "/usr/local/lib/systemd/system";

/// The fingerprint of the key that signs runc releases.
pub const RUNC_SIGNING_KEY: &'static str = "C2428CD75720FACDCF76B6EA17DE5ECB75A1100E";

/// Where `kubelet.service` is installed on a systemd host.
pub const KUBELET_SERVICE_PATH: &'static str = "/usr/lib/systemd/system/kubelet.service";
/// Drop-in that `kubeadm` uses to inject environment variables into kubelet.
pub const KUBEADM_DROP_IN_PATH: &'static str = "/etc/systemd/system/kubelet.service.d/10-kubeadm.conf";

pub const SYSCTL_CONF_PATH: &'static str = "/etc/sysctl.d/99-cisak.conf";
pub const SYSCTL_CONF_CONTENT: &'static str = "net.ipv4.ip_forward = 1\n";

// ── Command line ────────────────────────────────────────────────────────────

/// The parsed command line.
pub struct Cli {
    /// Skip all y/N confirmations (assume yes).
    pub assume_yes: bool,
    pub command: Command,
}

/// The subcommands.
#[derive(Clone, Copy, PartialEq, Eq, Debug)]
pub enum Command {
    /// Generate a config.toml file in the current directory.
    Generate,
    /// Download, verify, and install container runtime components.
    Install,
    /// Check for newer versions of installed components.
    Outdated,
}

// ── config.toml ─────────────────────────────────────────────────────────────

/// The contents of `config.toml`: the runtime section is required, every
/// other section is optional and its component is skipped when absent.
#[derive(Debug)]
pub struct Config {
    pub runtime: RuntimeConfig,
    pub cni: Option<CniConfig>,
    pub containerd: Option<ContainerdConfig>,
    pub network: Option<NetworkConfig>,
    pub kubernetes: Option<KubernetesConfig>,
    pub cilium: Option<CiliumConfig>,
}

#[derive(Debug)]
pub struct RuntimeConfig {
    pub name: String,
    pub version: String,
    /// Where the runc binary goes. Defaults to `/usr/local/sbin/runc`.
    pub binary: Option<String>,
}

#[derive(Debug)]
pub struct CniConfig {
    pub version: String,
    /// Where the plugins are unpacked. Defaults to `/opt/cni/bin`.
    pub install_dir: Option<String>,
}

#[derive(Debug)]
pub struct ContainerdConfig {
    pub version: String,
    /// Prefix under which the tarball's `bin/` subtree is unpacked.
    /// Defaults to `/usr/local`; binaries end up in `<install_dir>/bin/`.
    pub install_dir: Option<String>,
}

#[derive(Debug)]
pub struct NetworkConfig {
    /// Enable net.ipv4.ip_forward (required for container networking).
    /// Defaults to `true` when the [network] section is present.
    pub ipv4_forward: Option<bool>,
    /// Drop-in file used to persist the setting across reboots.
    /// Defaults to `/etc/sysctl.d/99-cisak.conf`.
    pub sysctl_conf_path: Option<String>,
}

#[derive(Debug)]
pub struct KubernetesConfig {
    pub version: String,
    /// Directory for `kubeadm` and `kubectl`. Defaults to `/usr/local/bin`.
    pub install_dir: Option<String>,
    /// Directory for `kubelet`. Defaults to `/usr/bin`.
    pub kubelet_install_dir: Option<String>,
}

#[derive(Debug)]
pub struct CiliumConfig {
    pub version: String,
    /// Directory for the `cilium` binary. Defaults to `/usr/local/bin`.
    pub install_dir: Option<String>,
}

/// The configuration that `generate` writes: runc as the runtime, the CNI
/// plugins, containerd, Kubernetes and the Cilium CLI at the given releases,
/// every install location left to its default, and no `[network]` section.
pub fn build_config(
    runc_version: &str,
    cni_version: &str,
    containerd_version: &str,
    k8s_version: &str,
    cilium_version: &str,
) -> (c: Config)
    ensures
        c.runtime.name@ == "runc"@,
        c.runtime.version@ == runc_version@,
        c.runtime.binary is None,
        c.cni matches Some(cni) && cni.version@ == cni_version@ && cni.install_dir is None,
        c.containerd matches Some(ctd) && ctd.version@ == containerd_version@
            && ctd.install_dir is None,
        c.network is None,
        c.kubernetes matches Some(k) && k.version@ == k8s_version@ && k.install_dir is None
            && k.kubelet_install_dir is None,
        c.cilium matches Some(cl) && cl.version@ == cilium_version@ && cl.install_dir is None,
{
    Config {
        runtime: RuntimeConfig {
            name: "runc".to_string(),
            version: runc_version.to_string(),
            binary: None,
        },
        cni: Some(CniConfig { version: cni_version.to_string(), install_dir: None }),
        containerd: Some(
            ContainerdConfig { version: containerd_version.to_string(), install_dir: None },
        ),
        network: None,
        kubernetes: Some(
            KubernetesConfig {
                version: k8s_version.to_string(),
                install_dir: None,
                kubelet_install_dir: None,
            },
        ),
        cilium: Some(CiliumConfig { version: cilium_version.to_string(), install_dir: None }),
    }
}

} // verus!
