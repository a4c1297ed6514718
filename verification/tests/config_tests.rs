use cisak::config::{
    build_config, Command, CILIUM_VERSION, CNI_VERSION, CONTAINERD_VERSION, K8S_VERSION,
    RUNC_VERSION,
};

#[test]
fn build_config_fills_every_section_but_network() {
    let c = build_config("v1", "v2", "v3", "v4", "v5");
    assert_eq!(c.runtime.name, "runc");
    assert_eq!(c.runtime.version, "v1");
    assert!(c.runtime.binary.is_none());
    let cni = c.cni.as_ref().unwrap();
    assert_eq!(cni.version, "v2");
    assert!(cni.install_dir.is_none());
    let ctd = c.containerd.as_ref().unwrap();
    assert_eq!(ctd.version, "v3");
    assert!(ctd.install_dir.is_none());
    assert!(c.network.is_none());
    let k = c.kubernetes.as_ref().unwrap();
    assert_eq!(k.version, "v4");
    assert!(k.install_dir.is_none());
    assert!(k.kubelet_install_dir.is_none());
    let cl = c.cilium.as_ref().unwrap();
    assert_eq!(cl.version, "v5");
    assert!(cl.install_dir.is_none());
}

#[test]
fn default_config_uses_default_releases() {
    let c = build_config(RUNC_VERSION, CNI_VERSION, CONTAINERD_VERSION, K8S_VERSION, CILIUM_VERSION);
    assert_eq!(c.runtime.version, "v1.4.2");
    assert_eq!(c.cni.unwrap().version, "v1.9.1");
    assert_eq!(c.containerd.unwrap().version, "v2.3.1");
    assert_eq!(c.kubernetes.unwrap().version, "v1.36.1");
    assert_eq!(c.cilium.unwrap().version, "v0.19.4");
}

#[test]
fn commands_are_distinct() {
    assert_ne!(Command::Generate, Command::Install);
    assert_ne!(Command::Install, Command::Outdated);
}
