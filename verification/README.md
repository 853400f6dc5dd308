# termina_backend

A terminal backend for text user interfaces, verified with Verus. It decides what is
written to a VT terminal, and in which order, to claim it, to draw cells on it, to
move and shape its cursor, and to give it back.

* `src/` is the verified library. Every decision is a function from plain values to a
  `Plan` of actions, with a contract that says piece by piece what is written.
  * `style`, `escape`, `output`: colours and modifiers, escape sequences, and the text
    that they make. The text of an escape sequence comes from the `termina` crate.
  * `modifiers`, `frame`: the output that changes modifiers and that draws a frame.
  * `report`, `terminfo`, `plan`, `backend`: the terminal's answers, its description
    (read with `termini`), and the backend itself.
  * `screen`, `session`: a model of the terminal, and what holds of the frames and of a
    whole session on it. A frame shows every cell at its place and in its style; a
    session leaves the private modes as it found them.
* `app/` runs the plans on the terminal of the process and hands its answers back.
* `tests/` holds tests with the exact text of what is sent.
