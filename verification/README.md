# fishtank

A terminal UI for inspecting and controlling bare-metal **BMCs** (baseboard
management controllers) in parallel, over IPMI and Redfish, with its logic
verified in [Verus](https://github.com/verus-lang/verus).

## Layout

- `src/` is the library. Every decision of the program is a function in it, with
  a contract that Verus proves:
  - `text`: string operations on sequences of characters.
  - `inventory`: machines, defaults and where the inventory is looked for.
  - `bmc`: the poll types, the IPMI output parsers and probes, the Redfish
    documents and requests, date-times, the order of event logs, and the demo
    backend.
  - `app/machine_list`: the list as a state machine. `model` says what each key
    and each result does, `laws` what holds of all of them, `render` what it
    looks like.
  - `app/machine_detail`, `app/root`: the tabbed detail page, and the root that
    swaps between the two.
  - `ratata`: input events, keyboard mode, render loop and console hand-over.
- `app/` is the program around it: processes, HTTPS, the terminal, and the tasks
  that feed the state machines and carry out what they ask for.
- `tests/` runs the library on concrete values.

What the library takes on trust is marked `Trusted:` where it stands: two
functions of the standard library and the accessors of a parsed JSON document.
