# E-Waste

A command-line tool for Windows that reports the disks of a machine, states what
an overwrite of each would do, and asks an operator to confirm one. Its
decisions stand in a library that is verified with Verus.

## Layout

- `src/` is the verified library.
  - `text`: string operations over characters, and what is taken from std.
  - `inventory`: disks, partitions and BitLocker volumes as Windows reports them.
  - `eligibility`: which disk may be a target, and which one a request names.
  - `plan`: what an overwrite would do, and the confirmation that binds it to a
    disk.
  - `paths`: which physical disks host a path.
  - `preflight`, `usage`, `protection`: findings on a disk, and how they combine.
  - `powershell`: the commands that are run and what their output means.
  - `args`: the command line.
  - `raw_write`: the chunked overwrite and the sampled read-back.
  - `volume_lock`: the protocol with the process that holds volume locks.
  - `session`: what an operator is asked, and what the answers lead to.
  - `report`: the lines of the report.
- `tests/` runs the library.
- `app/` is the program around it: PowerShell, pipes, files and the terminal.

Functions named `law_...` state what holds of the library as a whole.
