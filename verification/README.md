# gleam_repl

An interactive session for Gleam, verified with Verus.

`src/` is the library. It decides and computes everything that does not need the
outside: which lines are run, what source is compiled for them, what becomes of the
session when a compilation succeeds or fails, what is said to the Erlang shell, and how
its output is cut at the tokens that are waited for. Every function there carries a
contract. The laws that span several functions are the public `law_` proof functions.

`app/` is the program around it: the terminal, the files, the compiler and the Erlang
process. `app/gleam.rs` needs `gleam_core`, the compiler's library, which the build of
the command line tool has to supply.

`tests/` runs the library on concrete values.

What the proofs take on trust is in `src/text.rs` (`str::trim`, `String::push`) and in
`src/setup.rs` (a match with the `regex` crate).
