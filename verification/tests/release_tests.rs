use cisak::config::build_config;
use cisak::install::{install_steps, InstallStep};
use cisak::release::{
    github_release_api_url, latest_release_tag, outdated_checks, stable_k8s_version, ReleaseError,
    ReleaseSource, K8S_STABLE_URL,
};

#[test]
fn api_url() {
    assert_eq!(
        github_release_api_url("opencontainers", "runc"),
        "https://api.github.com/repos/opencontainers/runc/releases/latest"
    );
    assert_eq!(K8S_STABLE_URL, "https://dl.k8s.io/release/stable.txt");
}

#[test]
fn tag_from_answer() {
    let body = br#"{"tag_name": "v1.4.3", "name": "runc 1.4.3"}"#.to_vec();
    assert_eq!(latest_release_tag(true, body), Ok("v1.4.3".to_string()));
}

#[test]
fn tag_errors() {
    assert_eq!(latest_release_tag(false, b"{}".to_vec()), Err(ReleaseError::RequestFailed));
    assert_eq!(latest_release_tag(true, vec![0xff, 0xfe]), Err(ReleaseError::NotUtf8));
    assert_eq!(latest_release_tag(true, b"not json".to_vec()), Err(ReleaseError::NotJson));
    assert_eq!(latest_release_tag(true, b"{\"name\": 1}".to_vec()), Err(ReleaseError::NoTagName));
    assert_eq!(latest_release_tag(true, b"{\"tag_name\": 1}".to_vec()), Err(ReleaseError::NoTagName));
    assert_eq!(latest_release_tag(true, b"[1, 2]".to_vec()), Err(ReleaseError::NoTagName));
}

#[test]
fn stable_version_is_trimmed() {
    assert_eq!(stable_k8s_version(true, b"v1.36.2\n".to_vec()), Ok("v1.36.2".to_string()));
    assert_eq!(stable_k8s_version(false, b"v1".to_vec()), Err(ReleaseError::RequestFailed));
    assert_eq!(stable_k8s_version(true, vec![0xc3]), Err(ReleaseError::NotUtf8));
    assert_eq!(stable_k8s_version(true, "  é \n".as_bytes().to_vec()), Ok("é".to_string()));
}

#[test]
fn outdated_checks_all_sections() {
    let cfg = build_config("v1.4.2", "v1.9.1", "v2.3.1", "v1.36.1", "v0.19.4");
    let cs = outdated_checks(&cfg);
    let names: Vec<&str> = cs.iter().map(|c| c.name).collect();
    assert_eq!(names, vec!["runc", "CNI plugins", "containerd", "Kubernetes", "Cilium CLI"]);
    assert_eq!(cs[0].current, "v1.4.2");
    assert_eq!(cs[0].source, ReleaseSource::GitHub { owner: "opencontainers", repo: "runc" });
    assert_eq!(cs[1].source, ReleaseSource::GitHub { owner: "containernetworking", repo: "plugins" });
    assert_eq!(cs[2].source, ReleaseSource::GitHub { owner: "containerd", repo: "containerd" });
    assert_eq!(cs[3].source, ReleaseSource::KubernetesStable);
    assert_eq!(cs[3].current, "v1.36.1");
    assert_eq!(cs[4].source, ReleaseSource::GitHub { owner: "cilium", repo: "cilium-cli" });
}

#[test]
fn outdated_checks_skip_missing_sections() {
    let mut cfg = build_config("v1", "v2", "v3", "v4", "v5");
    cfg.cni = None;
    cfg.kubernetes = None;
    let cs = outdated_checks(&cfg);
    let names: Vec<&str> = cs.iter().map(|c| c.name).collect();
    assert_eq!(names, vec!["runc", "containerd", "Cilium CLI"]);
}

#[test]
fn outdated_checks_match_installed_components() {
    let mut cfg = build_config("v1", "v2", "v3", "v4", "v5");
    cfg.containerd = None;
    cfg.cilium = None;
    let installed = install_steps(&cfg)
        .into_iter()
        .filter(|s| matches!(s, InstallStep::Runc | InstallStep::Install(_)))
        .count();
    assert_eq!(outdated_checks(&cfg).len(), installed);
}
