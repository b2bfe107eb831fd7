# chiri

The ChiRi CPU scheduling daemon for Android, with its decision logic
written in Verus and proved against its contracts.

- `src/` is the verified library: SoC detection and core layout, the
  configuration checks, the special-tuning and blacklist lists, the
  governor, fast-lock, GPU, core_ctl and tweak guards (as snapshot /
  write-plan / restore state machines), the cgroup layout and thread
  placement rules, and the scheduler loop's decisions (mode takeover,
  screen on/off, reload, resume, start-up).
- `app/` is the daemon around it: sysfs and procfs I/O, the watchers, the
  threads and event loop, the YAML parsing, and the floating-point parts
  (the CLG load governor, thermal filtering and load-based rebalancing).
- `tests/` runs the library on concrete values.
