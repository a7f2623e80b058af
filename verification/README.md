# custos

A USB authorization daemon and the tool that controls it. The daemon decides about every USB
device by a policy, writes the decision to sysfs, and follows devices as they come and go. The tool
asks the daemon for its status, overrides decisions, and previews, validates and generates policies.

- `src/` is the library. It holds everything that decides: matching devices against rules, checking
  policies, reading sysfs attributes and descriptors, numbering devices, overrides, reloading with
  rollback, framing and answering requests, and the reports. It is verified with Verus: each
  function's contract states what it returns over plain mathematical values, and the functions
  named `law_...` state what holds of the library as a whole.
- `app/` is the program around it: arguments, files, sockets, signals and the log.
- `tests/` runs the library on concrete values, with sysfs held in memory.

The library does no input or output. Work that needs some is handed out in steps: a step says what
has to be done, and is resumed with what came of it.
