# attack-shark-r1

Linux driver and battery daemon for the Attack Shark R1 mouse, with its
protocol logic verified in Verus.

- `src/` is the verified library: the battery report and the feature
  reports that set the polling rate, sleep timers and DPI profile
  (`driver`, `dpi`, `protocol`), the INI configuration file (`config`,
  `scan`, `seconds`, `text`, with the proofs in `roundtrip` that a saved
  configuration reads back and in `reading` that a configuration that reads
  is valid and that a later line for a setting wins), the `/dev/uhid` events of the virtual battery (`uhid`), the
  daemon's decisions (`daemon`) and the errors with their messages (`error`).
- `app/` is the program around it: USB transfers through `rusb`, the
  `device-driver` register interface, `/dev/uhid` file I/O and its reply
  thread, configuration file I/O, and the daemon loop.
- `tests/` exercises the library on concrete values.

Sleep delays are held in milliseconds: a delay below 30 s is rounded down
to whole milliseconds and one from 30 s on is rounded up, so that a delay
lies within 0.5 s to 30 s exactly when its milliseconds lie within 500 to
30000.
