# contain

Runs a command inside a namespace of its own on Redox: some schemes are passed through to it,
others are served to it through a filter, and the rest it cannot see.

The library in `src/` is verified with Verus. It decides; it makes no system call.

- `config`, `error`: the description of a container, and what can go wrong.
- `text`, `lists`: the order of names and paths, which scheme a path lies in, sorting and
  thinning out lists.
- `ns_ffi`: the calls of the namespace interface, as values, and how their results are read.
- `setup`: the calls that set up a container, one at a time, each from the replies so far.
- `contain_thread`: a container that is running.
- `handler`: what the thread does that serves the sandboxed schemes.
- `runner`: validating a configuration; running a command plainly or contained.
- `laws`: what holds of all this together.

`app/` performs the calls that the library asks for and hands back what came of them.
