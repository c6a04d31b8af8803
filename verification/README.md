# parrot_can

A verified core for CAN nodes that defend themselves against identifier
spoofing with the Parrot algorithm, and for the virtual CAN bus they share.

- `src/` — the library, verified with Verus:
  - `can_frame`: frames in register layout; packing payload bytes into the data registers and reading them back.
  - `parse`: the hexadecimal, comma-separated identifier lists that configure a node.
  - `communication`: a node's identifiers, frame preparation, and the handling of received frames and transmission errors.
  - `parrot`: the defense state, and the engagement that answers a spoofed frame with D messages.
  - `exchange`, `device`: the application-facing manager and the local device manager.
  - `node`: interrupt lines, the node's role, and when an attacking node sends.
  - `bus`: the wired-AND rounds of the virtual bus.
- `app/` — the virtual bus server (TCP, tokio) and the firmware glue of a node (registers, interrupts, semihosting output).
- `tests/` — tests of the library.
