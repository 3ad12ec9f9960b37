# disko

Builds the shell script that partitions and formats disks, and creates ZFS
pools and datasets, from a declarative description of the disk layout (the
JSON form of a disko configuration).

- `src/` is the library, verified with Verus: the layout types, reading a
  device path (`DevicePath::try_from`), and the script of each part of a
  layout (`create` on each type), each stated exactly over spec functions in
  `src/create.rs`. Disks, then pools, come in ascending order of their names.
  `src/laws.rs` holds properties that span functions.
- `app/` reads a JSON file, converts it to the library's types and prints the
  script.
- `tests/` runs the library on concrete layouts.
