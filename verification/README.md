# gitcore

A git client's core, verified with Verus: the parsers of git's output, the three-way
merge and the conflict "magic wand", the safe update (stash, fetch, integrate, restore),
branches, stashes, staging down to single lines, the history graph, and the terminal
views' state machines.

## How it talks to git

No function of the library runs a program or touches a file. An operation is a function
of the replies it has had so far:

```text
op(args, replies) -> Step::Ask(request) | Step::Done(result)
```

The caller carries out the request (a git command, a file read, ...), appends the reply
and calls again. Each operation's contract says, for every sequence of replies, which
request comes next or how the operation ends. The views work the same way one level up:
a key or a result goes in, the next state and the next piece of work come out.

## Layout

- `src/` — the library (Verus). `repo.rs` holds the request/reply protocol; one module
  per area of git (`status`, `log`, `topology`, `update`, `stash`, `branch`, `changes`,
  `hunk`, `diff3`, `resolve`, ...); `ui/` holds the terminal views and the main screen.
  Laws (properties across calls or over all inputs) are the `law_*` proof functions.
- `tests/` — tests of the library, including scripted runs of whole operations.
- `app/` — the command-line front end: it carries out the requests with `std::process`
  and `std::fs`, and drives the views from standard input. Streaming requests (fetch,
  push, clone) have their stderr read as it comes, their progress lines shown, and `esc`
  typed meanwhile cancels them.
