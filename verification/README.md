# AIVisor

A sandbox runtime for AI agents on Linux: namespaces, cgroups, Landlock, seccomp and BPF programs
around one command, with a broker for what may leave the sandbox.

- `src/` is the library. It decides everything and touches nothing: what a policy means, which steps
  a launch takes and in which order, what goes into the kernel's maps, which requests the broker
  forwards. It is verified with Verus: contracts say what each function returns, and public proof
  functions state what holds across calls. What is believed and not proved is what a few functions
  of other crates and of std return (UUIDs, YAML, SHA-256, device numbers, byte order, quoting); each
  stands behind an item of its own that says what is claimed of it.
- `tests/` runs the library on concrete values.
- `app/` performs the steps: the command line, the daemon, the proxy's sockets, the system calls and
  the calls into libbpf.

Where the library needs the operating system it hands out a plan (`runtime::plan`) or a state machine
(`runtime::launcher`, `bpf::loader`, `broker::head`, `escape`): the program does one step, reports
what became of it, and asks for the next.
