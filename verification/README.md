# cisak

`cisak` ("Container Installation – Swiss Army Knife") installs runc, the CNI
plugins, containerd, the Kubernetes binaries and the Cilium CLI, and reports
which of them have newer releases.

- `src/` is the verified library:
  - `config` — the `config.toml` model, the defaults, `build_config`;
  - `install` — download URLs, checksum files and install locations of every
    component, the order of the install steps, the IPv4-forwarding decisions;
  - `version` — the numeric comparison of release versions, with its laws;
  - `release` — reading the newest release from GitHub and `dl.k8s.io`
    answers, and the list of components that `outdated` checks;
  - `text` — trimming, `[y/N]` answers, command-line rendering, path joining.
- `app/` is the command-line program around it: argument parsing, processes,
  files, the network and the terminal.
- `tests/` runs the library on concrete inputs.
