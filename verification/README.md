# Starling

Starling brings the services of a project up on a developer's machine, gives each a
named URL, and keeps them built and running while files change. One daemon for each
machine owns the shared proxy and hands out ports, so that several projects never
collide.

The crate has two parts.

- `src/` is a library of decisions. Every item in it is verified with Verus: what is
  built and in which order, what a changed file leads to, which port a service gets,
  what a request to the daemon or to the object store does, what is logged and shown.
- `app/` is the program around it: the command line, sockets, processes, file watchers,
  the cluster and the Docker daemon. It performs what the library decides and hands the
  outcomes back.

## The library

| Module | What it decides |
| --- | --- |
| `api` | the store of declarative objects, merge patches, schemas, the types of the web view |
| `daemon` | instances, port leases, routes, log rings and commands of the shared daemon |
| `proxy`, `proxy_handle`, `http`, `http_laws` | routes, port reservations, request heads and pages of the proxy |
| `engine` | builds, images, live updates, serve commands, file watches, reloads, controllers |
| `health`, `probe` | whether a route and a resource work |
| `server`, `frontend` | replies of the HTTP API, resources as they are shown |
| `cli` | what each command asks for and prints |
| `ci`, `build_history`, `cluster`, `k8s`, `netmodes` | the run that comes up once, the history of builds, the cluster, manifests, sharing |
| `certs`, `x509` | the local certificate authority, and the certificates that it signs |
| `manifest` | the resources of a project |
| `json`, `trees`, `text`, `paths`, `path_order`, `table` | JSON and YAML values, texts, paths and small maps |

Contracts are stated over mathematical models: a text is a sequence of characters, the
object store a sorted sequence of objects with its events, the daemon a record of its
instances, leases and routes. Laws that span functions stand beside them as public
proof functions, such as that no two instances hold the same port
(`daemon::laws::reserve_exclusive`), that a created object is found as it was given
(`api::store`), that resources are built after what they depend on
(`engine::order::start_respects_deps`), and that a request which goes in circles is
answered as a loop (`http_laws::hops_count_passes`).

## What is taken on trust

The library calls `serde`, `serde_json`, `serde_yaml`, `kube`, `rcgen`, `regex`, `dirs`,
`uuid` and `chrono` through small wrappers, each with a doc comment that says what is claimed of the
call.
What these crates compute is named, not described; what depends on the clock, on chance
or on the environment is left open.

## Tests

`tests/` runs the library from outside, with the real crates linked.
