# dev_tools

The verified core of a Windows developer-environment manager (MySQL,
PostgreSQL, Java, Node.js, Python, JetBrains IDEs): reading what tools and
services print, choosing and de-duplicating detected instances, building
the SQL, scripts and arguments for password resets and clean-ups, the
decisions of the reset, change and download loops, the digests downloaded
files are checked with, version lists and mirror settings.

- `src/` — the library, written in Verus; every function carries a contract
  and the laws of the library are stated as proof functions beside the code
  they speak of.
- `tests/` — ordinary Rust tests run against the compiled library.
- `app/` — the application around it: processes, services, the network and
  the file system, and the loops that carry out the steps the library decides.
