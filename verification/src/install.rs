use vstd::prelude::*;
use vstd::string::*;
use crate::config::{
    Config,
    CiliumConfig, CniConfig, ContainerdConfig, KubernetesConfig, NetworkConfig, RuntimeConfig,
    CILIUM_INSTALL_DIR, CILIUM_URL_BASE, CNI_INSTALL_DIR, CNI_URL_BASE, CONTAINERD_INSTALL_DIR,
    CONTAINERD_URL_BASE, K8S_INSTALL_DIR, K8S_URL_BASE, KUBELET_INSTALL_DIR, RUNC_INSTALL_PATH,
    RUNC_URL_BASE, SYSCTL_CONF_PATH,
};
use crate::text::{join_dir, join_path, trim, trim_str};
use crate::version::strip_v;

verus! {

broadcast use vstd::string::group_string_axioms;

/// A file published with a release, and the file that vouches for it (a
/// checksum or a detached signature), each with the URL it is fetched from.
pub struct ReleaseArtifact {
    pub file_name: String,
    pub url: String,
    pub check_file_name: String,
    pub check_url: String,
}

/// What installing one component takes: the artifact to fetch, the
/// directory it goes to, and the path it ends up at.
pub struct InstallPlan {
    pub artifact: ReleaseArtifact,
    pub install_dir: String,
    pub destination: String,
}

/// `<base>/<version>/<file>`, the layout of every release download.
pub open spec fn release_url(base: Seq<char>, version: Seq<char>, file: Seq<char>) -> Seq<char> {
    base + seq!['/'] + version + seq!['/'] + file
}

/// The configured value, or the default where none is configured.
pub open spec fn or_default(value: Option<String>, default: Seq<char>) -> Seq<char> {
    match value {
        Some(v) => v@,
        None => default,
    }
}

/// `file` and `check`, both published under `<base>/<version>/`.
pub open spec fn artifact_at(
    a: ReleaseArtifact,
    base: Seq<char>,
    version: Seq<char>,
    file: Seq<char>,
    check: Seq<char>,
) -> bool {
    &&& a.file_name@ == file
    &&& a.url@ == release_url(base, version, file)
    &&& a.check_file_name@ == check
    &&& a.check_url@ == release_url(base, version, check)
}

fn release_url_of(base: &str, version: &str, file: &str) -> (r: String)
    ensures
        r@ == release_url(base@, version@, file@),
{
    proof {
        reveal_strlit("/");
        assert("/"@ =~= seq!['/']);
    }
    let mut r = base.to_string();
    r.append("/");
    r.append(version);
    r.append("/");
    r.append(file);
    r
}

fn configured_or(value: &Option<String>, default: &str) -> (r: String)
    ensures
        r@ == or_default(*value, default@),
{
    match value {
        Some(v) => v.clone(),
        None => default.to_string(),
    }
}

fn artifact(base: &str, version: &str, file: String, check: String) -> (r: ReleaseArtifact)
    ensures
        artifact_at(r, base@, version@, file@, check@),
{
    let url = release_url_of(base, version, file.as_str());
    let check_url = release_url_of(base, version, check.as_str());
    ReleaseArtifact { file_name: file, url, check_file_name: check, check_url }
}

/// The runc binary and its detached GPG signature for `version`.
pub fn runc_artifact(version: &str) -> (r: ReleaseArtifact)
    ensures
        artifact_at(r, RUNC_URL_BASE@, version@, "runc.amd64"@, "runc.amd64.asc"@),
{
    artifact(RUNC_URL_BASE, version, "runc.amd64".to_string(), "runc.amd64.asc".to_string())
}

/// Where the runc binary is installed: the configured path, by default
/// `/usr/local/sbin/runc`.
pub fn runc_install_path(cfg: &RuntimeConfig) -> (r: String)
    ensures
        r@ == or_default(cfg.binary, RUNC_INSTALL_PATH@),
{
    configured_or(&cfg.binary, RUNC_INSTALL_PATH)
}

/// The CNI plugins tarball with its SHA-512 file, unpacked into the
/// configured directory, by default `/opt/cni/bin`.
pub fn cni_plan(cfg: &CniConfig) -> (r: InstallPlan)
    ensures
        artifact_at(
            r.artifact,
            CNI_URL_BASE@,
            cfg.version@,
            "cni-plugins-linux-amd64-"@ + cfg.version@ + ".tgz"@,
            "cni-plugins-linux-amd64-"@ + cfg.version@ + ".tgz"@ + ".sha512"@,
        ),
        r.install_dir@ == or_default(cfg.install_dir, CNI_INSTALL_DIR@),
        r.destination@ == r.install_dir@,
{
    let mut file = "cni-plugins-linux-amd64-".to_string();
    file.append(cfg.version.as_str());
    file.append(".tgz");
    let mut check = file.clone();
    check.append(".sha512");
    let dir = configured_or(&cfg.install_dir, CNI_INSTALL_DIR);
    let destination = dir.clone();
    InstallPlan {
        artifact: artifact(CNI_URL_BASE, cfg.version.as_str(), file, check),
        install_dir: dir,
        destination,
    }
}

/// The containerd tarball with its SHA-256 file. The file name spells the
/// release without its leading `v`; the tarball holds a `bin/` tree and is
/// unpacked under the configured prefix, by default `/usr/local`.
pub fn containerd_plan(cfg: &ContainerdConfig) -> (r: InstallPlan)
    ensures
        artifact_at(
            r.artifact,
            CONTAINERD_URL_BASE@,
            cfg.version@,
            "containerd-"@ + strip_v(cfg.version@) + "-linux-amd64.tar.gz"@,
            "containerd-"@ + strip_v(cfg.version@) + "-linux-amd64.tar.gz"@ + ".sha256sum"@,
        ),
        r.install_dir@ == or_default(cfg.install_dir, CONTAINERD_INSTALL_DIR@),
        r.destination@ == r.install_dir@,
{
    let bare = crate::version::strip_leading_v(cfg.version.as_str());
    let mut file = "containerd-".to_string();
    file.append(bare.as_str());
    file.append("-linux-amd64.tar.gz");
    let mut check = file.clone();
    check.append(".sha256sum");
    let dir = configured_or(&cfg.install_dir, CONTAINERD_INSTALL_DIR);
    let destination = dir.clone();
    InstallPlan {
        artifact: artifact(CONTAINERD_URL_BASE, cfg.version.as_str(), file, check),
        install_dir: dir,
        destination,
    }
}

/// The Cilium CLI tarball with its SHA-256 file; the `cilium` binary it
/// holds goes to `<install_dir>/cilium`, by default `/usr/local/bin/cilium`.
pub fn cilium_plan(cfg: &CiliumConfig) -> (r: InstallPlan)
    ensures
        artifact_at(
            r.artifact,
            CILIUM_URL_BASE@,
            cfg.version@,
            "cilium-linux-amd64.tar.gz"@,
            "cilium-linux-amd64.tar.gz"@ + ".sha256sum"@,
        ),
        r.install_dir@ == or_default(cfg.install_dir, CILIUM_INSTALL_DIR@),
        r.destination@ == join_path(r.install_dir@, "cilium"@),
{
    let file = "cilium-linux-amd64.tar.gz".to_string();
    let mut check = file.clone();
    check.append(".sha256sum");
    let dir = configured_or(&cfg.install_dir, CILIUM_INSTALL_DIR);
    let destination = join_dir(dir.as_str(), "cilium");
    InstallPlan {
        artifact: artifact(CILIUM_URL_BASE, cfg.version.as_str(), file, check),
        install_dir: dir,
        destination,
    }
}

/// `<K8S_URL_BASE>/<version>/bin/linux/amd64`, where the Kubernetes
/// binaries of a release are published.
pub open spec fn k8s_binary_base(version: Seq<char>) -> Seq<char> {
    K8S_URL_BASE@ + seq!['/'] + version + "/bin/linux/amd64"@
}

/// The plan installs the Kubernetes binary `name` of `version` into `dir`:
/// `<base>/<name>` checked against `<base>/<name>.sha256`.
pub open spec fn k8s_binary_planned(
    p: InstallPlan,
    version: Seq<char>,
    name: Seq<char>,
    dir: Seq<char>,
) -> bool {
    &&& p.artifact.file_name@ == name
    &&& p.artifact.url@ == k8s_binary_base(version) + seq!['/'] + name
    &&& p.artifact.check_file_name@ == name + ".sha256"@
    &&& p.artifact.check_url@ == k8s_binary_base(version) + seq!['/'] + name + ".sha256"@
    &&& p.install_dir@ == dir
    &&& p.destination@ == join_path(dir, name)
}

fn k8s_binary(base: &str, name: &str, dir: &str) -> (r: InstallPlan)
    ensures
        r.artifact.file_name@ == name@,
        r.artifact.url@ == base@ + seq!['/'] + name@,
        r.artifact.check_file_name@ == name@ + ".sha256"@,
        r.artifact.check_url@ == base@ + seq!['/'] + name@ + ".sha256"@,
        r.install_dir@ == dir@,
        r.destination@ == join_path(dir@, name@),
{
    proof {
        reveal_strlit("/");
        assert("/"@ =~= seq!['/']);
    }
    let mut url = base.to_string();
    url.append("/");
    url.append(name);
    let mut check_url = url.clone();
    check_url.append(".sha256");
    let mut check = name.to_string();
    check.append(".sha256");
    InstallPlan {
        artifact: ReleaseArtifact {
            file_name: name.to_string(),
            url,
            check_file_name: check,
            check_url,
        },
        install_dir: dir.to_string(),
        destination: join_dir(dir, name),
    }
}

/// `kubelet`, `kubeadm` and `kubectl`, in that order, each with its
/// `.sha256` file: `kubelet` goes to the kubelet directory (by default
/// `/usr/bin`), the other two to the install directory (by default
/// `/usr/local/bin`).
pub fn kubernetes_plan(cfg: &KubernetesConfig) -> (r: Vec<InstallPlan>)
    ensures
        r@.len() == 3,
        k8s_binary_planned(
            r@[0],
            cfg.version@,
            "kubelet"@,
            or_default(cfg.kubelet_install_dir, KUBELET_INSTALL_DIR@),
        ),
        k8s_binary_planned(
            r@[1],
            cfg.version@,
            "kubeadm"@,
            or_default(cfg.install_dir, K8S_INSTALL_DIR@),
        ),
        k8s_binary_planned(
            r@[2],
            cfg.version@,
            "kubectl"@,
            or_default(cfg.install_dir, K8S_INSTALL_DIR@),
        ),
{
    proof {
        reveal_strlit("/");
        assert("/"@ =~= seq!['/']);
    }
    let install_dir = configured_or(&cfg.install_dir, K8S_INSTALL_DIR);
    let kubelet_dir = configured_or(&cfg.kubelet_install_dir, KUBELET_INSTALL_DIR);
    let mut base = K8S_URL_BASE.to_string();
    base.append("/");
    base.append(cfg.version.as_str());
    base.append("/bin/linux/amd64");
    assert(base@ == k8s_binary_base(cfg.version@));
    let mut r: Vec<InstallPlan> = Vec::new();
    r.push(k8s_binary(base.as_str(), "kubelet", kubelet_dir.as_str()));
    r.push(k8s_binary(base.as_str(), "kubeadm", install_dir.as_str()));
    r.push(k8s_binary(base.as_str(), "kubectl", install_dir.as_str()));
    r
}

/// The sysctl drop-in that persists IPv4 forwarding, or `None` when the
/// `[network]` section turns forwarding off; forwarding is on unless set
/// to `false`, and the drop-in defaults to `/etc/sysctl.d/99-cisak.conf`.
pub fn ipv4_forward_conf_path(cfg: &NetworkConfig) -> (r: Option<String>)
    ensures
        cfg.ipv4_forward == Some(false) ==> r is None,
        cfg.ipv4_forward != Some(false) ==> (r matches Some(p) && p@ == or_default(
            cfg.sysctl_conf_path,
            SYSCTL_CONF_PATH@,
        )),
{
    let enabled = match cfg.ipv4_forward {
        Some(b) => b,
        None => true,
    };
    if !enabled {
        None
    } else {
        Some(configured_or(&cfg.sysctl_conf_path, SYSCTL_CONF_PATH))
    }
}

/// Whether `sysctl -n net.ipv4.ip_forward` reported forwarding on: the
/// query succeeded and printed `1`, white space aside.
pub fn ip_forward_enabled(query_succeeded: bool, output: &str) -> (r: bool)
    ensures
        r == (query_succeeded && trim(output@) == seq!['1']),
{
    if !query_succeeded {
        return false;
    }
    let t = trim_str(output);
    let cs = crate::text::chars_of(t.as_str());
    if cs.len() == 1 && cs[0] == '1' {
        assert(t@ =~= seq!['1']);
        true
    } else {
        false
    }
}

/// The `sha256sum` check file for a Kubernetes binary, whose published
/// `.sha256` file holds only the bare digest: its name and its one line,
/// `<digest>  <binary>`.
pub fn k8s_check_file(digest_file: &str, binary_name: &str) -> (r: (String, String))
    ensures
        r.0@ == binary_name@ + ".sha256check"@,
        r.1@ == trim(digest_file@) + "  "@ + binary_name@ + "\n"@,
{
    let mut name = binary_name.to_string();
    name.append(".sha256check");
    let mut line = trim_str(digest_file);
    line.append("  ");
    line.append(binary_name);
    line.append("\n");
    (name, line)
}

/// An optional section of `config.toml`, each naming one install step.
#[derive(Clone, Copy, PartialEq, Eq, Debug)]
pub enum Section {
    Cni,
    Containerd,
    Kubernetes,
    Cilium,
    Network,
}

/// One step of `install`.
#[derive(Clone, Copy, PartialEq, Eq, Debug)]
pub enum InstallStep {
    /// Install runc, which every configuration names.
    Runc,
    /// Carry out the step of a section that the configuration has.
    Install(Section),
    /// Report that a section is absent and its step is skipped.
    Skip(Section),
    /// Pre-pull the Kubernetes control-plane images.
    PullImages,
}

/// `Install(s)` where the configuration has the section, `Skip(s)` where not.
pub open spec fn section_step(present: bool, s: Section) -> InstallStep {
    if present {
        InstallStep::Install(s)
    } else {
        InstallStep::Skip(s)
    }
}

/// The steps of `install`, in order: runc; the CNI plugins, containerd,
/// Kubernetes, the Cilium CLI and IPv4 forwarding, each carried out where
/// its section is present and skipped where not; then the image pre-pull.
pub open spec fn planned_steps(cfg: Config) -> Seq<InstallStep> {
    seq![
        InstallStep::Runc,
        section_step(cfg.cni is Some, Section::Cni),
        section_step(cfg.containerd is Some, Section::Containerd),
        section_step(cfg.kubernetes is Some, Section::Kubernetes),
        section_step(cfg.cilium is Some, Section::Cilium),
        section_step(cfg.network is Some, Section::Network),
        InstallStep::PullImages,
    ]
}

fn step_for(present: bool, s: Section) -> (r: InstallStep)
    ensures
        r == section_step(present, s),
{
    if present {
        InstallStep::Install(s)
    } else {
        InstallStep::Skip(s)
    }
}

/// The steps that `install` carries out for `cfg`, in order.
pub fn install_steps(cfg: &Config) -> (r: Vec<InstallStep>)
    ensures
        r@ == planned_steps(*cfg),
{
    let mut r: Vec<InstallStep> = Vec::new();
    r.push(InstallStep::Runc);
    r.push(step_for(cfg.cni.is_some(), Section::Cni));
    r.push(step_for(cfg.containerd.is_some(), Section::Containerd));
    r.push(step_for(cfg.kubernetes.is_some(), Section::Kubernetes));
    r.push(step_for(cfg.cilium.is_some(), Section::Cilium));
    r.push(step_for(cfg.network.is_some(), Section::Network));
    r.push(InstallStep::PullImages);
    assert(r@ =~= planned_steps(*cfg));
    r
}

/// Whether the configuration has the section `s`.
pub open spec fn has_section(cfg: Config, s: Section) -> bool {
    match s {
        Section::Cni => cfg.cni is Some,
        Section::Containerd => cfg.containerd is Some,
        Section::Kubernetes => cfg.kubernetes is Some,
        Section::Cilium => cfg.cilium is Some,
        Section::Network => cfg.network is Some,
    }
}

/// `install` installs runc first and pre-pulls the images last, and for
/// every section carries out its step exactly when the configuration has
/// that section, and reports it skipped exactly when it does not, whatever
/// the other sections are.
pub proof fn lemma_install_steps_follow_sections(cfg: Config)
    ensures
        planned_steps(cfg).len() == 7,
        planned_steps(cfg)[0] == InstallStep::Runc,
        planned_steps(cfg).last() == InstallStep::PullImages,
        forall|s: Section|
            planned_steps(cfg).contains(InstallStep::Install(s)) <==> #[trigger] has_section(
                cfg,
                s,
            ),
        forall|s: Section|
            planned_steps(cfg).contains(InstallStep::Skip(s)) <==> !#[trigger] has_section(cfg, s),
{
    let steps = planned_steps(cfg);
    assert forall|s: Section|
        steps.contains(InstallStep::Install(s)) <==> #[trigger] has_section(cfg, s) by {
        let idx: int = match s {
            Section::Cni => 1,
            Section::Containerd => 2,
            Section::Kubernetes => 3,
            Section::Cilium => 4,
            Section::Network => 5,
        };
        assert(steps[idx] == section_step(has_section(cfg, s), s));
        if has_section(cfg, s) {
            assert(steps[idx] == InstallStep::Install(s));
        } else {
            assert forall|k: int| 0 <= k < steps.len() implies steps[k] != InstallStep::Install(s) by {
            }
        }
    }
    assert forall|s: Section|
        steps.contains(InstallStep::Skip(s)) <==> !#[trigger] has_section(cfg, s) by {
        let idx: int = match s {
            Section::Cni => 1,
            Section::Containerd => 2,
            Section::Kubernetes => 3,
            Section::Cilium => 4,
            Section::Network => 5,
        };
        assert(steps[idx] == section_step(has_section(cfg, s), s));
        if !has_section(cfg, s) {
            assert(steps[idx] == InstallStep::Skip(s));
        } else {
            assert forall|k: int| 0 <= k < steps.len() implies steps[k] != InstallStep::Skip(s) by {
            }
        }
    }
}

/// A configured location wins over the default; the default holds only
/// where nothing is configured.
pub proof fn lemma_configured_value_wins(value: String, default: Seq<char>)
    ensures
        or_default(Some(value), default) == value@,
        or_default(None, default) == default,
{
}

/// Every release download is published under `<base>/<version>/` and is
/// fetched by its own file name: the URL ends with `/` and that name.
pub proof fn lemma_artifact_urls_name_their_files(
    a: ReleaseArtifact,
    base: Seq<char>,
    version: Seq<char>,
    file: Seq<char>,
    check: Seq<char>,
)
    requires
        artifact_at(a, base, version, file, check),
    ensures
        a.url@.take((base.len() + version.len() + 2) as int) == base + seq!['/'] + version + seq!['/'],
        a.url@.skip(a.url@.len() - a.file_name@.len() - 1) == seq!['/'] + a.file_name@,
        a.check_url@.take((base.len() + version.len() + 2) as int) == base + seq!['/'] + version + seq![
            '/',
        ],
        a.check_url@.skip(a.check_url@.len() - a.check_file_name@.len() - 1) == seq!['/']
            + a.check_file_name@,
{
    assert(a.url@.take((base.len() + version.len() + 2) as int) =~= base + seq!['/'] + version + seq!['/']);
    assert(a.url@.skip(a.url@.len() - a.file_name@.len() - 1) =~= seq!['/'] + a.file_name@);
    assert(a.check_url@.take((base.len() + version.len() + 2) as int) =~= base + seq!['/'] + version
        + seq!['/']);
    assert(a.check_url@.skip(a.check_url@.len() - a.check_file_name@.len() - 1) =~= seq!['/']
        + a.check_file_name@);
}

/// A Kubernetes binary is checked against the `.sha256` file published
/// beside it, is fetched under its own name, and is installed under that
/// name in its directory.
pub proof fn lemma_k8s_binary_checked_beside_itself(
    p: InstallPlan,
    version: Seq<char>,
    name: Seq<char>,
    dir: Seq<char>,
)
    requires
        k8s_binary_planned(p, version, name, dir),
    ensures
        p.artifact.check_url@ == p.artifact.url@ + ".sha256"@,
        p.artifact.check_file_name@ == p.artifact.file_name@ + ".sha256"@,
        p.artifact.url@.skip(p.artifact.url@.len() - name.len() - 1) == seq!['/'] + name,
        p.destination@.skip(p.destination@.len() - name.len()) == name,
{
    assert(p.artifact.url@.skip(p.artifact.url@.len() - name.len() - 1) =~= seq!['/'] + name);
    assert(join_path(dir, name).skip(join_path(dir, name).len() - name.len()) =~= name);
}

} // verus!
