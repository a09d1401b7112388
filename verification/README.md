# portless

Stable, named `https://<name>.localhost` URLs for local development
servers: a reverse proxy routes each hostname to the port a dev server
listens on.

The crate is written in Verus. `src/` is the verified library: hostname and
TLD validation, the routing table and wildcard resolution, the route
registry, the `/etc/hosts` managed block, environment and `portless.json`
configuration, project, framework, package-manager and monorepo detection,
the decisions of each CLI command, child-process command lines and
environments, the proxy's request planning and error pages, dashboard
responses, CA trust plans, service definitions, error reports and more.
Public functions state what they return in their `ensures`. Where the
machine or chance decides the result (the kernel's OS name, an opaque
`std::io::Error`, certificates signed with fresh random keys), the
contract says what holds of every outcome, or nothing, and the doc comment
says so. Laws
that relate several functions are public proof functions (`lemma_*`).

Calls into other crates sit behind small trusted wrappers whose
contracts are written over plain values: SHA-256, base64, PEM decoding,
HTTP reason phrases, YAML and JSON reading (`package.json`,
`tailscale status --json`), the clock, the kernel name,
the `dashmap` map that holds the routing table, and rcgen's key
generation and signing of the certificate profiles decided here.

`app/` is the program around the library: argument parsing, files,
processes, sockets, the hyper/rustls servers, certificate files and
metrics. It performs the I/O and hands plain values to the
library.

`tests/` exercises the library on concrete inputs.
