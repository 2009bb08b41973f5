# mybox

The logic of a local-first task board, written in Verus and proved against its
contracts: spaces with notes and groups, undo and redo, what is kept on the
device and what an account keeps, who is signed in, and how the two are brought
into step.

- `src/` is the library. Every function states in `ensures` what it returns or
  changes, over views in which texts are sequences of characters. What depends
  on the clock, the browser or the network is a parameter. Work that waits for
  an answer is a state machine: it hands out an action, and the answer is its
  next input. Public proof functions state what holds across calls.
- `tests/` runs the library on concrete values.
- `app/` is the program in the browser: the pages, the canvas and its
  floating-point geometry, storage, requests, and the records that are
  serialised.
- `extras/web/` holds the scripts that the page loads before the program: the
  database of the browser and the lock around the renewal of a session. Both
  put their functions on `globalThis`.

## Modules

| module | what it is about |
| --- | --- |
| `lists`, `text`, `json` | sequences of views, texts and numbers, the outermost layer of a JSON text |
| `model`, `workspace` | notes, groups, boards, spaces; the canonical form of a workspace |
| `identity`, `adoption` | principals and ids; how a guest's work comes into an account |
| `desk`, `edits`, `frames`, `calendar`, `controls` | editing a board |
| `spaces`, `persist`, `projection`, `storage`, `records`, `outbox` | the shelf of spaces and how it is kept |
| `account`, `auth`, `session`, `opening` | who is signed in, and opening an account |
| `metadata`, `drain`, `manifest`, `reconcile`, `pull`, `events`, `arrivals`, `ledger`, `schedule`, `status` | syncing with the server |
| `tabs`, `siblings` | what other tabs of the browser did |

What is believed and not proved stands in `text` (`String::push`,
`str::to_lowercase`) and in `json` (one call of `serde_json::from_str`).
