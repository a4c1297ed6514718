use vstd::prelude::*;
use vstd::string::*;
use vstd::utf8::{decode_utf8, valid_utf8};
use crate::config::Config;
use crate::install::{planned_steps, InstallStep, Section};
use crate::text::{trim, trim_str};

verus! {

broadcast use vstd::string::group_string_axioms;

#[verifier::external_type_specification]
#[verifier::external_body]
pub struct ExJsonValue(serde_json::Value);

/// Whether `text` is a well-formed JSON document, as `serde_json` reads it.
pub uninterp spec fn json_parses(text: Seq<char>) -> bool;

/// The member `key` of the JSON document `text` when that member is a JSON
/// string, as `serde_json::Value::get` finds it; `None` when the document is
/// not an object, has no such member, or the member is not a string.
pub uninterp spec fn json_string_member(text: Seq<char>, key: Seq<char>) -> Option<Seq<char>>;

/// A JSON document parsed by `serde_json`, together with the text it was
/// parsed from; only `parse_json` makes one.
pub struct JsonDocument {
    value: serde_json::Value,
    source: Ghost<Seq<char>>,
}

impl View for JsonDocument {
    type V = Seq<char>;

    /// The text the document was parsed from.
    closed spec fn view(&self) -> Seq<char> {
        self.source@
    }
}

/// `String::from_utf8`: the bytes as text when they are valid UTF-8, and
/// `None` otherwise. Its contract restates the std documentation: success
/// exactly on valid UTF-8, and the text is the characters those bytes encode.
#[verifier::external_body]
fn utf8_text(bytes: Vec<u8>) -> (r: Option<String>)
    ensures
        r is Some <==> valid_utf8(bytes@),
        r matches Some(s) ==> s@ == decode_utf8(bytes@),
{
    String::from_utf8(bytes).ok()
}

/// `serde_json::from_str::<serde_json::Value>`: succeeds exactly on the
/// texts that `json_parses` names, and keeps the text with the document.
#[verifier::external_body]
fn parse_json(text: &str) -> (r: Option<JsonDocument>)
    ensures
        r is Some <==> json_parses(text@),
        r matches Some(d) ==> d@ == text@,
{
    match serde_json::from_str::<serde_json::Value>(text) {
        Ok(value) => Some(JsonDocument { value, source: Ghost(text@) }),
        Err(_) => None,
    }
}

/// `serde_json::Value::get` with a string key, keeping the member only when
/// it is a JSON string: the result is `json_string_member` of the text the
/// document was parsed from.
#[verifier::external_body]
fn string_member(doc: &JsonDocument, key: &str) -> (r: Option<String>)
    ensures
        r is Some <==> json_string_member(doc@, key@) is Some,
        r matches Some(s) ==> json_string_member(doc@, key@) == Some(s@),
{
    match doc.value.get(key) {
        Some(serde_json::Value::String(s)) => Some(s.clone()),
        _ => None,
    }
}

/// Why the latest release could not be read from a server's answer.
#[derive(Clone, Copy, PartialEq, Eq, Debug)]
pub enum ReleaseError {
    /// The request itself failed.
    RequestFailed,
    /// The answer is not UTF-8 text.
    NotUtf8,
    /// The answer is not a JSON document.
    NotJson,
    /// The JSON document has no string member `tag_name`.
    NoTagName,
}

/// The GitHub API endpoint for the latest release of `owner/repo`.
pub fn github_release_api_url(owner: &str, repo: &str) -> (r: String)
    ensures
        r@ == "https://api.github.com/repos/"@ + owner@ + seq!['/'] + repo@
            + "/releases/latest"@,
{
    proof {
        reveal_strlit("/");
        assert("/"@ =~= seq!['/']);
    }
    let mut r = "https://api.github.com/repos/".to_string();
    r.append(owner);
    r.append("/");
    r.append(repo);
    r.append("/releases/latest");
    r
}

/// Where the current stable Kubernetes release is published.
pub const K8S_STABLE_URL: &'static str = "https://dl.k8s.io/release/stable.txt";

/// The release tag that a GitHub "latest release" answer names: the request
/// must have succeeded, and its body must be UTF-8 JSON with a string
/// member `tag_name`.
pub fn latest_release_tag(request_succeeded: bool, body: Vec<u8>) -> (r: Result<String, ReleaseError>)
    ensures
        !request_succeeded ==> r == Err::<String, ReleaseError>(ReleaseError::RequestFailed),
        request_succeeded && !valid_utf8(body@) ==> r == Err::<String, ReleaseError>(
            ReleaseError::NotUtf8,
        ),
        request_succeeded && valid_utf8(body@) && !json_parses(decode_utf8(body@)) ==> r == Err::<
            String,
            ReleaseError,
        >(ReleaseError::NotJson),
        request_succeeded && valid_utf8(body@) && json_parses(decode_utf8(body@)) ==> match json_string_member(
            decode_utf8(body@),
            "tag_name"@,
        ) {
            Some(tag) => r matches Ok(s) && s@ == tag,
            None => r == Err::<String, ReleaseError>(ReleaseError::NoTagName),
        },
{
    if !request_succeeded {
        return Err(ReleaseError::RequestFailed);
    }
    let text = match utf8_text(body) {
        Some(t) => t,
        None => return Err(ReleaseError::NotUtf8),
    };
    let doc = match parse_json(text.as_str()) {
        Some(d) => d,
        None => return Err(ReleaseError::NotJson),
    };
    tag_from_member(string_member(&doc, "tag_name"))
}

/// The release tag from the `tag_name` member of a release document: the
/// member's text, or `NoTagName` where the document has no such string.
pub fn tag_from_member(member: Option<String>) -> (r: Result<String, ReleaseError>)
    ensures
        member matches Some(t) ==> r matches Ok(s) && s@ == t@,
        member is None ==> r == Err::<String, ReleaseError>(ReleaseError::NoTagName),
{
    match member {
        Some(tag) => Ok(tag),
        None => Err(ReleaseError::NoTagName),
    }
}

/// The stable Kubernetes release from the answer of `dl.k8s.io`: the body
/// as text, without surrounding white space.
pub fn stable_k8s_version(request_succeeded: bool, body: Vec<u8>) -> (r: Result<String, ReleaseError>)
    ensures
        !request_succeeded ==> r == Err::<String, ReleaseError>(ReleaseError::RequestFailed),
        request_succeeded && !valid_utf8(body@) ==> r == Err::<String, ReleaseError>(
            ReleaseError::NotUtf8,
        ),
        request_succeeded && valid_utf8(body@) ==> (r matches Ok(v) && v@ == trim(
            decode_utf8(body@),
        )),
{
    if !request_succeeded {
        return Err(ReleaseError::RequestFailed);
    }
    match utf8_text(body) {
        Some(t) => Ok(trim_str(t.as_str())),
        None => Err(ReleaseError::NotUtf8),
    }
}

/// Where the newest release of a component is looked up.
#[derive(Clone, Copy, PartialEq, Eq, Debug)]
pub enum ReleaseSource {
    /// The latest release of a GitHub repository.
    GitHub { owner: &'static str, repo: &'static str },
    /// The stable Kubernetes release.
    KubernetesStable,
}

/// The abstract form of a `ReleaseSource`.
pub enum SourceView {
    GitHub(Seq<char>, Seq<char>),
    KubernetesStable,
}

impl View for ReleaseSource {
    type V = SourceView;

    open spec fn view(&self) -> SourceView {
        match *self {
            ReleaseSource::GitHub { owner, repo } => SourceView::GitHub(owner@, repo@),
            ReleaseSource::KubernetesStable => SourceView::KubernetesStable,
        }
    }
}

/// One component whose installed release is compared with the newest one.
pub struct VersionCheck {
    /// The name shown to the user.
    pub name: &'static str,
    /// The release that the configuration names.
    pub current: String,
    pub source: ReleaseSource,
}

impl View for VersionCheck {
    type V = (Seq<char>, Seq<char>, SourceView);

    open spec fn view(&self) -> (Seq<char>, Seq<char>, SourceView) {
        (self.name@, self.current@, self.source@)
    }
}

/// The check of `name` at `current` against the GitHub repository `owner/repo`.
pub open spec fn github_check(name: Seq<char>, current: Seq<char>, owner: Seq<char>, repo: Seq<char>) -> Seq<
    (Seq<char>, Seq<char>, SourceView),
> {
    seq![(name, current, SourceView::GitHub(owner, repo))]
}

/// The components that `outdated` checks, in order: runc always, then the
/// CNI plugins, containerd, Kubernetes and the Cilium CLI where the
/// configuration has their section.
pub open spec fn planned_checks(cfg: Config) -> Seq<(Seq<char>, Seq<char>, SourceView)> {
    github_check("runc"@, cfg.runtime.version@, "opencontainers"@, "runc"@) + match cfg.cni {
        Some(c) => github_check("CNI plugins"@, c.version@, "containernetworking"@, "plugins"@),
        None => Seq::empty(),
    } + match cfg.containerd {
        Some(c) => github_check("containerd"@, c.version@, "containerd"@, "containerd"@),
        None => Seq::empty(),
    } + match cfg.kubernetes {
        Some(c) => seq![("Kubernetes"@, c.version@, SourceView::KubernetesStable)],
        None => Seq::empty(),
    } + match cfg.cilium {
        Some(c) => github_check("Cilium CLI"@, c.version@, "cilium"@, "cilium-cli"@),
        None => Seq::empty(),
    }
}

/// The components whose releases `outdated` compares with the newest ones.
pub fn outdated_checks(cfg: &Config) -> (r: Vec<VersionCheck>)
    ensures
        r@.map_values(|c: VersionCheck| c@) == planned_checks(*cfg),
{
    let mut r: Vec<VersionCheck> = Vec::new();
    r.push(
        VersionCheck {
            name: "runc",
            current: cfg.runtime.version.clone(),
            source: ReleaseSource::GitHub { owner: "opencontainers", repo: "runc" },
        },
    );
    if let Some(c) = &cfg.cni {
        r.push(
            VersionCheck {
                name: "CNI plugins",
                current: c.version.clone(),
                source: ReleaseSource::GitHub { owner: "containernetworking", repo: "plugins" },
            },
        );
    }
    if let Some(c) = &cfg.containerd {
        r.push(
            VersionCheck {
                name: "containerd",
                current: c.version.clone(),
                source: ReleaseSource::GitHub { owner: "containerd", repo: "containerd" },
            },
        );
    }
    if let Some(c) = &cfg.kubernetes {
        r.push(
            VersionCheck {
                name: "Kubernetes",
                current: c.version.clone(),
                source: ReleaseSource::KubernetesStable,
            },
        );
    }
    if let Some(c) = &cfg.cilium {
        r.push(
            VersionCheck {
                name: "Cilium CLI",
                current: c.version.clone(),
                source: ReleaseSource::GitHub { owner: "cilium", repo: "cilium-cli" },
            },
        );
    }
    assert(r@.map_values(|c: VersionCheck| c@) =~= planned_checks(*cfg));
    r
}

/// The name under which `outdated` reports the component of a section, for
/// the sections that install a versioned component.
pub open spec fn component_name(s: Section) -> Seq<char> {
    match s {
        Section::Cni => "CNI plugins"@,
        Section::Containerd => "containerd"@,
        Section::Kubernetes => "Kubernetes"@,
        Section::Cilium => "Cilium CLI"@,
        Section::Network => Seq::empty(),
    }
}

/// The names of the components that `outdated` checks for `cfg`.
pub open spec fn checked_names(cfg: Config) -> Seq<Seq<char>> {
    planned_checks(cfg).map_values(|c: (Seq<char>, Seq<char>, SourceView)| c.0)
}

/// `outdated` checks exactly the components that `install` installs: runc
/// always, and the CNI plugins, containerd, Kubernetes and the Cilium CLI
/// exactly where `install` carries out their section's step.
pub proof fn lemma_outdated_checks_what_install_installs(cfg: Config)
    ensures
        planned_steps(cfg).contains(InstallStep::Runc),
        checked_names(cfg).contains("runc"@),
        forall|s: Section|
            s != Section::Network ==> (planned_steps(cfg).contains(InstallStep::Install(s))
                <==> checked_names(cfg).contains(#[trigger] component_name(s))),
{
    reveal_strlit("runc");
    reveal_strlit("CNI plugins");
    reveal_strlit("containerd");
    reveal_strlit("Kubernetes");
    reveal_strlit("Cilium CLI");
    let steps = planned_steps(cfg);
    let names = checked_names(cfg);
    // The five names differ: by length, or else by their first character.
    assert("runc"@.len() == 4 && "CNI plugins"@.len() == 11 && "containerd"@.len() == 10);
    assert("Kubernetes"@.len() == 10 && "Cilium CLI"@.len() == 10);
    assert("containerd"@[0] == 'c' && "Kubernetes"@[0] == 'K' && "Cilium CLI"@[0] == 'C');
    assert(steps[0] == InstallStep::Runc);
    assert(names[0] == "runc"@);
    let n_cni = if cfg.cni is Some { 1int } else { 0int };
    let n_ctd = if cfg.containerd is Some { 1int } else { 0int };
    let n_k8s = if cfg.kubernetes is Some { 1int } else { 0int };
    let n_cl = if cfg.cilium is Some { 1int } else { 0int };
    assert(names.len() == 1 + n_cni + n_ctd + n_k8s + n_cl);
    // Where each name sits in the list of checks.
    assert(cfg.cni is Some ==> names[1] == "CNI plugins"@);
    assert(cfg.containerd is Some ==> names[1 + n_cni] == "containerd"@);
    assert(cfg.kubernetes is Some ==> names[1 + n_cni + n_ctd] == "Kubernetes"@);
    assert(cfg.cilium is Some ==> names[1 + n_cni + n_ctd + n_k8s] == "Cilium CLI"@);
    // Every entry of the list is one of these names, and only where present.
    assert forall|i: int| 0 <= i < names.len() implies {
        ||| names[i] == "runc"@
        ||| (cfg.cni is Some && names[i] == "CNI plugins"@)
        ||| (cfg.containerd is Some && names[i] == "containerd"@)
        ||| (cfg.kubernetes is Some && names[i] == "Kubernetes"@)
        ||| (cfg.cilium is Some && names[i] == "Cilium CLI"@)
    } by {
        if i == 0 {
        } else if i < 1 + n_cni {
        } else if i < 1 + n_cni + n_ctd {
        } else if i < 1 + n_cni + n_ctd + n_k8s {
        } else {
        }
    }
    assert forall|s: Section|
        s != Section::Network implies (steps.contains(InstallStep::Install(s))
            <==> names.contains(#[trigger] component_name(s))) by {
        let present = match s {
            Section::Cni => cfg.cni is Some,
            Section::Containerd => cfg.containerd is Some,
            Section::Kubernetes => cfg.kubernetes is Some,
            Section::Cilium => cfg.cilium is Some,
            Section::Network => cfg.network is Some,
        };
        let idx = match s {
            Section::Cni => 1int,
            Section::Containerd => 2int,
            Section::Kubernetes => 3int,
            Section::Cilium => 4int,
            Section::Network => 5int,
        };
        assert(steps[idx] == crate::install::section_step(present, s));
        if present {
            assert(steps.contains(InstallStep::Install(s)));
            let j = match s {
                Section::Cni => 1int,
                Section::Containerd => 1 + n_cni,
                Section::Kubernetes => 1 + n_cni + n_ctd,
                _ => 1 + n_cni + n_ctd + n_k8s,
            };
            assert(names[j] == component_name(s));
            assert(names.contains(component_name(s)));
        } else {
            assert forall|k: int| 0 <= k < steps.len() implies steps[k] != InstallStep::Install(s) by {
            }
            assert forall|k: int| 0 <= k < names.len() implies names[k] != component_name(s) by {
                if names[k] == component_name(s) {
                    assert(names[k].len() == component_name(s).len());
                    assert(names[k][0] == component_name(s)[0]);
                }
            }
        }
    }
}

/// Each check of `outdated` carries the release of its own section and
/// looks up the newest release where that component is published: runc
/// comes first with the runtime's release, and a check named after the CNI
/// plugins, containerd, Kubernetes or the Cilium CLI exists only with that
/// section and carries that section's release.
pub proof fn lemma_outdated_checks_carry_own_release(cfg: Config)
    ensures
        planned_checks(cfg).len() > 0,
        planned_checks(cfg)[0] == ("runc"@, cfg.runtime.version@, SourceView::GitHub(
            "opencontainers"@,
            "runc"@,
        )),
        forall|i: int|
            #![trigger planned_checks(cfg)[i]]
            0 <= i < planned_checks(cfg).len() ==> {
                let c = planned_checks(cfg)[i];
                &&& c.0 == "runc"@ ==> c.1 == cfg.runtime.version@ && c.2 == SourceView::GitHub(
                    "opencontainers"@,
                    "runc"@,
                )
                &&& c.0 == "CNI plugins"@ ==> (cfg.cni matches Some(x) && c.1 == x.version@ && c.2
                    == SourceView::GitHub("containernetworking"@, "plugins"@))
                &&& c.0 == "containerd"@ ==> (cfg.containerd matches Some(x) && c.1 == x.version@
                    && c.2 == SourceView::GitHub("containerd"@, "containerd"@))
                &&& c.0 == "Kubernetes"@ ==> (cfg.kubernetes matches Some(x) && c.1 == x.version@
                    && c.2 == SourceView::KubernetesStable)
                &&& c.0 == "Cilium CLI"@ ==> (cfg.cilium matches Some(x) && c.1 == x.version@
                    && c.2 == SourceView::GitHub("cilium"@, "cilium-cli"@))
            },
{
    reveal_strlit("runc");
    reveal_strlit("CNI plugins");
    reveal_strlit("containerd");
    reveal_strlit("Kubernetes");
    reveal_strlit("Cilium CLI");
    assert("runc"@.len() == 4 && "CNI plugins"@.len() == 11 && "containerd"@.len() == 10);
    assert("Kubernetes"@.len() == 10 && "Cilium CLI"@.len() == 10);
    assert("containerd"@[0] == 'c' && "Kubernetes"@[0] == 'K' && "Cilium CLI"@[0] == 'C');
    let pc = planned_checks(cfg);
    let runc = ("runc"@, cfg.runtime.version@, SourceView::GitHub("opencontainers"@, "runc"@));
    let n_cni = if cfg.cni is Some { 1int } else { 0int };
    let n_ctd = if cfg.containerd is Some { 1int } else { 0int };
    let n_k8s = if cfg.kubernetes is Some { 1int } else { 0int };
    let n_cl = if cfg.cilium is Some { 1int } else { 0int };
    assert(pc.len() == 1 + n_cni + n_ctd + n_k8s + n_cl);
    assert(pc[0] == runc);
    assert forall|i: int| 0 <= i < pc.len() implies {
        ||| pc[i] == runc
        ||| (cfg.cni matches Some(x) && pc[i] == ("CNI plugins"@, x.version@, SourceView::GitHub(
            "containernetworking"@,
            "plugins"@,
        )))
        ||| (cfg.containerd matches Some(x) && pc[i] == ("containerd"@, x.version@, SourceView::GitHub(
            "containerd"@,
            "containerd"@,
        )))
        ||| (cfg.kubernetes matches Some(x) && pc[i] == ("Kubernetes"@, x.version@,
            SourceView::KubernetesStable))
        ||| (cfg.cilium matches Some(x) && pc[i] == ("Cilium CLI"@, x.version@, SourceView::GitHub(
            "cilium"@,
            "cilium-cli"@,
        )))
    } by {
        if i == 0 {
        } else if i < 1 + n_cni {
        } else if i < 1 + n_cni + n_ctd {
        } else if i < 1 + n_cni + n_ctd + n_k8s {
        } else {
        }
    }
    assert forall|i: int|
        #![trigger pc[i]]
        0 <= i < pc.len() implies {
            let c = pc[i];
            &&& c.0 == "runc"@ ==> c.1 == cfg.runtime.version@ && c.2 == SourceView::GitHub(
                "opencontainers"@,
                "runc"@,
            )
            &&& c.0 == "CNI plugins"@ ==> (cfg.cni matches Some(x) && c.1 == x.version@ && c.2
                == SourceView::GitHub("containernetworking"@, "plugins"@))
            &&& c.0 == "containerd"@ ==> (cfg.containerd matches Some(x) && c.1 == x.version@
                && c.2 == SourceView::GitHub("containerd"@, "containerd"@))
            &&& c.0 == "Kubernetes"@ ==> (cfg.kubernetes matches Some(x) && c.1 == x.version@
                && c.2 == SourceView::KubernetesStable)
            &&& c.0 == "Cilium CLI"@ ==> (cfg.cilium matches Some(x) && c.1 == x.version@ && c.2
                == SourceView::GitHub("cilium"@, "cilium-cli"@))
        } by {
    }
}

} // verus!
