# httpsys

The logic of an async HTTP server on the Windows `http.sys` API, of a latency
tester and of a benchmark against `axum`, written in Verus.

* `src/` is the library. Every function states what it returns or changes, and
  Verus proves it. Public proof functions named `law_*` state what holds across
  functions.
* `tests/` runs the library on concrete values.
* `app/` is the program: command line, kernel calls, sockets, files, charts and
  floating-point statistics. The kernel side (`app/kernel/`) is built on Windows
  only.

The library trusts the contracts it gives to `crossbeam-queue`, `bytes`, `rand`,
`reqwest`'s `Url` and a few functions of the standard library. Each of them is
declared next to the code that uses it, with what is claimed of it.
