# Rugix Ctrl

Rugix Ctrl manages the life of an embedded Linux device: it installs system updates and
applications, keeps or resets the state of the device, sets it up on its first boot, and
decides what is booted next.

What has to happen is decided by a library that is verified with
[Verus](https://github.com/verus-lang/verus). The program around it only does what the
library asks for and reports back what came of it.

## Layout

- `src/` is the library. Every executable function has a contract, and the promises that
  span several functions stand beside them as proof functions named `law_*`.
  - `operations/` holds the operations of the device, foremost the installation of bundles.
  - `apps/` holds the generations of applications and the transitions between them.
  - `init/` holds the early boot: first-boot setup, state, overlay and the hand-over.
  - `system/` holds slots, boot groups, boot flows and the drivers of the data partition.
  - `components/` holds the components that have to fit together.
  - `cli/`, `daemon`, `http_source` and `simulation` hold the decisions of the commands, of
    the daemon, of downloads over HTTP and of simulated delta updates.
  - `text`, `path`, `order`, `digest`, `time` and `script` are what all of these rest on.
- `tests/` runs the library.
- `app/` is the program: arguments, files, processes, devices and the network.

## How procedures are written

A procedure that works on the device, such as the installation of an update, is a state
machine. It begins with a first action. After each action it is told what came of it, and
answers with the next one. The contracts say for every phase and every outcome which action
follows, so that properties such as "a failed preflight changes nothing" hold whatever the
device does.

## What is trusted

Calls into other crates stand behind small functions whose contracts are not proved: digests
(`si-crypto-hashes`, `hex`), tar archives (`tar`), maps (`hashbrown`, `indexmap`), random
machine ids (`uuid`) and timestamps (`jiff`). Each says in its comment what it
claims of the function that it calls.
