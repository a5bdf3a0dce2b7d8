# session_demos

Small session-typed programs (a greeter, an adder, a coin exchange, a
calculator, an ATM and three queues) whose decisions are verified with Verus.

- `src/` — the verified library: one module per program, holding the state of
  its processes and the decision each one takes on a message, with contracts
  and the laws that tie the operations together (for instance, that the ATM
  answers at most `MAX_RETRY` wrong pins with a retry, or that each queue
  gives values back in its own order).
- `tests/` — tests on concrete values, including the runs the programs print.
- `app/` — the programs themselves: ferrite sessions over tokio that carry the
  messages and ask the library what to do.  The floating-point calculator
  lives there entirely.
