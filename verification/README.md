# backend_kvm

A backend that runs a container as a KVM guest through libvirt. What it decides is written in Verus
and proved against its contracts; what it does to the host is ordinary Rust around that.

- `src/` is the verified library.
  - `config_generator`: the domain document of a guest: CPUs, what it boots, its root disk, its
    network interface. `disk::provision` creates the logical volume of a guest step by step.
  - `guest`: creating, starting, stopping and storing a guest; `guest::teardown` ends it.
  - `cgroups`: where the cgroup of a guest is and which limits it enforces.
  - `irq`: CPU lists, isolated CPUs, and the interrupts that `irq::affinity` moves and puts back.
  - `frontend`, `actions`: the container and its image; files to write and commands to run.
  - `json`, `decimal`, `text`: JSON documents, decimal numbers and texts.
- `app/` carries out on a host what the library decides.
- `tests/` runs the library.

A step that touches the host is an action that the library asks for. The answer goes back to the
library, which says what follows. Proof functions named `law_*` state what holds of whole runs.
