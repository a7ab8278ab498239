# magisk

The command line tool of Magisk, with its decisions verified in Verus.

- `src/` decides what the tool does. It performs no I/O: a session hands out one
  request at a time and goes by the reply, and the contracts say exactly which
  request comes next after which reply. The `*laws` modules prove what holds of
  whole runs: that a root file system which was made writable to mount `/sbin`
  is read-only again at the end, that the mirror of the root is detached, that
  cloning a directory reaches the whole tree and changes nothing but what is
  inside its destination, that a failed vital request is
  what makes a command return -1, and others.
- `app/` performs the requests on a Linux system and parses the command line.
  What the daemon, the database and SELinux contribute comes in through its
  `Platform` trait.
- `tests/` runs sessions against scripted hosts.
