# Tengin

A small JavaScript engine, and a harness that runs conformance tests with it.
The library under `src/` is written in Verus: every function states what it
does, and the statements are proved. `app/` is the command line program around
it.

## How the engine works

- Source text goes to `source::parse`, which hands it to `oxc_parser`, reads the
  syntax tree that comes back as JSON (`json`) and lowers it to the tree of
  `ast` (`lowering` says what the result is, `lower` computes it). `lexer`,
  `grammar` and `parser` are a second, hand-written front end for a smaller
  language.
- `Engine` is a machine with a stack of frames. A host starts a `Task`, calls
  `run` with a number of steps, and gets a `Progress`: the task is done, there
  are steps left to take, or the engine asks the host for something (a
  `Request`: arithmetic on doubles, the text of a double, a host function). The host
  answers, and the machine goes on.
- Values live in a heap of cells (`heap`), strings and property keys are
  interned (`atoms`), numbers are the bits of a double. `gc` marks what is
  reachable and sweeps the rest.
- `harness` decides which conformance tests to run and how to judge them,
  `frontmatter` reads their metadata, `runner` adds up the results.

## Where to look

| What | Where |
| --- | --- |
| the state of the machine, and what a step does | `engine`, `machine` |
| expressions, statements, patterns, calls | `expr`, `stmt`, `bind`, `binding`, `call` |
| conversions and operators | `conv`, `convert`, `ops`, `show` |
| properties | `object`, `object_write`, `own`, `keys`, `listing`, `access` |
| scopes | `env`, `scope`, `names` |
| promises, jobs and timers | `promise`, `jobs` |
| numbers and their texts | `number`, `numtext`, `rounding` |
| integers of any size | `bigint`, `bigbits`, `big` |
| regular expressions | `regexp` |
| the host's side | `host` |
| laws that span several functions | `laws`, `combining`, and `law_*` beside what they are about |

The functions that the proofs take on trust are the wrappers around `oxc_parser`
and `regex` (`source`, `regexp`) and a few functions of the standard library
(`atoms`, `text`, `lexer`, `parser`). Each says what it claims.
