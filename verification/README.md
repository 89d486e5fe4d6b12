# rusty_suite

The verified core of a set of small command-line tools, written in Verus.

- `src/` is the library; every function in it carries a contract that Verus
  proves.
  - `text`: white space, tokens, lines, decimal numbers, string building.
  - `vm`: a stack machine over `f32` bit patterns; additions and subtractions
    are handed to the caller, everything else (stack, memory, jumps, stops) is
    decided and proved here.
  - `assembler`: the text format of machine programs.
  - `primes`: counting primes below a limit.
  - `log_search`: counting log lines that mention a word.
  - `store`: a tiny content-addressed version store (`init`, `commit`).
  - `chat`, `messages`, `monitor`: the decisions behind the chat client and
    server, the telemetry and shopping-list servers, and the system monitor.
- `tests/` runs the library on concrete inputs.
- `app/` holds the programs themselves: file, network and database work,
  windows, and the computations on floats. The first argument names the tool.
