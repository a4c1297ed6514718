use cisak::config::{
    build_config,
    CiliumConfig, CniConfig, ContainerdConfig, KubernetesConfig, NetworkConfig, RuntimeConfig,
};
use cisak::install::{
    cilium_plan, cni_plan, containerd_plan, ip_forward_enabled, ipv4_forward_conf_path,
    k8s_check_file, kubernetes_plan, runc_artifact, runc_install_path, install_steps, InstallStep,
    Section,
};

#[test]
fn runc_binary_and_signature() {
    let a = runc_artifact("v1.4.2");
    assert_eq!(a.file_name, "runc.amd64");
    assert_eq!(
        a.url,
        "https://github.com/opencontainers/runc/releases/download/v1.4.2/runc.amd64"
    );
    assert_eq!(a.check_file_name, "runc.amd64.asc");
    assert_eq!(
        a.check_url,
        "https://github.com/opencontainers/runc/releases/download/v1.4.2/runc.amd64.asc"
    );
}

#[test]
fn runc_path_defaults() {
    let mut r = RuntimeConfig { name: "runc".into(), version: "v1".into(), binary: None };
    assert_eq!(runc_install_path(&r), "/usr/local/sbin/runc");
    r.binary = Some("/opt/runc".into());
    assert_eq!(runc_install_path(&r), "/opt/runc");
}

#[test]
fn cni_tarball_and_checksum() {
    let p = cni_plan(&CniConfig { version: "v1.9.1".into(), install_dir: None });
    assert_eq!(p.artifact.file_name, "cni-plugins-linux-amd64-v1.9.1.tgz");
    assert_eq!(p.artifact.check_file_name, "cni-plugins-linux-amd64-v1.9.1.tgz.sha512");
    assert_eq!(
        p.artifact.url,
        "https://github.com/containernetworking/plugins/releases/download/v1.9.1/cni-plugins-linux-amd64-v1.9.1.tgz"
    );
    assert_eq!(
        p.artifact.check_url,
        "https://github.com/containernetworking/plugins/releases/download/v1.9.1/cni-plugins-linux-amd64-v1.9.1.tgz.sha512"
    );
    assert_eq!(p.install_dir, "/opt/cni/bin");
    let q = cni_plan(&CniConfig { version: "v1".into(), install_dir: Some("/x".into()) });
    assert_eq!(q.install_dir, "/x");
    assert_eq!(q.destination, "/x");
}

#[test]
fn containerd_file_name_drops_leading_v() {
    let p = containerd_plan(&ContainerdConfig { version: "v2.3.1".into(), install_dir: None });
    assert_eq!(p.artifact.file_name, "containerd-2.3.1-linux-amd64.tar.gz");
    assert_eq!(p.artifact.check_file_name, "containerd-2.3.1-linux-amd64.tar.gz.sha256sum");
    assert_eq!(
        p.artifact.url,
        "https://github.com/containerd/containerd/releases/download/v2.3.1/containerd-2.3.1-linux-amd64.tar.gz"
    );
    assert_eq!(
        p.artifact.check_url,
        "https://github.com/containerd/containerd/releases/download/v2.3.1/containerd-2.3.1-linux-amd64.tar.gz.sha256sum"
    );
    assert_eq!(p.install_dir, "/usr/local");
    assert_eq!(p.destination, "/usr/local");
}

#[test]
fn cilium_goes_into_install_dir() {
    let p = cilium_plan(&CiliumConfig { version: "v0.19.4".into(), install_dir: None });
    assert_eq!(p.artifact.file_name, "cilium-linux-amd64.tar.gz");
    assert_eq!(
        p.artifact.url,
        "https://github.com/cilium/cilium-cli/releases/download/v0.19.4/cilium-linux-amd64.tar.gz"
    );
    assert_eq!(
        p.artifact.check_url,
        "https://github.com/cilium/cilium-cli/releases/download/v0.19.4/cilium-linux-amd64.tar.gz.sha256sum"
    );
    assert_eq!(p.destination, "/usr/local/bin/cilium");
    let q = cilium_plan(&CiliumConfig { version: "v1".into(), install_dir: Some("/opt/bin/".into()) });
    assert_eq!(q.destination, "/opt/bin/cilium");
}

#[test]
fn kubernetes_binaries_in_order_with_defaults() {
    let ps = kubernetes_plan(&KubernetesConfig {
        version: "v1.36.1".into(),
        install_dir: None,
        kubelet_install_dir: None,
    });
    assert_eq!(ps.len(), 3);
    let names: Vec<&str> = ps.iter().map(|p| p.artifact.file_name.as_str()).collect();
    assert_eq!(names, vec!["kubelet", "kubeadm", "kubectl"]);
    assert_eq!(ps[0].artifact.url, "https://dl.k8s.io/v1.36.1/bin/linux/amd64/kubelet");
    assert_eq!(ps[0].artifact.check_url, "https://dl.k8s.io/v1.36.1/bin/linux/amd64/kubelet.sha256");
    assert_eq!(ps[0].artifact.check_file_name, "kubelet.sha256");
    assert_eq!(ps[0].install_dir, "/usr/bin");
    assert_eq!(ps[0].destination, "/usr/bin/kubelet");
    assert_eq!(ps[1].destination, "/usr/local/bin/kubeadm");
    assert_eq!(ps[2].destination, "/usr/local/bin/kubectl");
}

#[test]
fn kubernetes_configured_dirs() {
    let ps = kubernetes_plan(&KubernetesConfig {
        version: "v1".into(),
        install_dir: Some("/opt/k8s".into()),
        kubelet_install_dir: Some("/opt/kubelet".into()),
    });
    assert_eq!(ps[0].destination, "/opt/kubelet/kubelet");
    assert_eq!(ps[1].install_dir, "/opt/k8s");
    assert_eq!(ps[2].destination, "/opt/k8s/kubectl");
}

#[test]
fn ipv4_forward_defaults_on() {
    let on = NetworkConfig { ipv4_forward: None, sysctl_conf_path: None };
    assert_eq!(ipv4_forward_conf_path(&on).as_deref(), Some("/etc/sysctl.d/99-cisak.conf"));
    let custom = NetworkConfig { ipv4_forward: Some(true), sysctl_conf_path: Some("/x.conf".into()) };
    assert_eq!(ipv4_forward_conf_path(&custom).as_deref(), Some("/x.conf"));
    let off = NetworkConfig { ipv4_forward: Some(false), sysctl_conf_path: Some("/x.conf".into()) };
    assert_eq!(ipv4_forward_conf_path(&off), None);
}

#[test]
fn ip_forward_query_output() {
    assert!(ip_forward_enabled(true, "1\n"));
    assert!(!ip_forward_enabled(true, "0\n"));
    assert!(!ip_forward_enabled(false, "1\n"));
    assert!(!ip_forward_enabled(true, "11"));
    assert!(!ip_forward_enabled(true, ""));
}

#[test]
fn k8s_check_line_has_two_spaces_and_newline() {
    let (name, line) = k8s_check_file("abc123\n", "kubelet");
    assert_eq!(name, "kubelet.sha256check");
    assert_eq!(line, "abc123  kubelet\n");
}

#[test]
fn install_steps_follow_sections() {
    let cfg = build_config("v1", "v2", "v3", "v4", "v5");
    assert_eq!(
        install_steps(&cfg),
        vec![
            InstallStep::Runc,
            InstallStep::Install(Section::Cni),
            InstallStep::Install(Section::Containerd),
            InstallStep::Install(Section::Kubernetes),
            InstallStep::Install(Section::Cilium),
            InstallStep::Skip(Section::Network),
            InstallStep::PullImages,
        ]
    );
    let mut cfg = build_config("v1", "v2", "v3", "v4", "v5");
    cfg.containerd = None;
    cfg.network = Some(NetworkConfig { ipv4_forward: None, sysctl_conf_path: None });
    let steps = install_steps(&cfg);
    assert_eq!(steps[2], InstallStep::Skip(Section::Containerd));
    assert_eq!(steps[5], InstallStep::Install(Section::Network));
}
