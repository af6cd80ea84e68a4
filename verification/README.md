# sensor-board

Firmware of a sensor board with an STM32WB55: a USB console with DFU entry, a
Thread radio on the second core (CPU2), and a range probe.

- `src/` is the logic, verified with Verus. Every conversation with the
  hardware (flash, watchdog, CPU2 bring-up, joining, `ot` commands, range probe,
  USB transfers) is a state machine that says what to do next and takes what
  came of it. The lines that the board prints are stated character by character,
  including where they are cut; the outcome of a CPU2 system command and the
  ready event go into them as the mailbox driver spells them, and what the
  OpenThread CLI prints is passed on as it comes.
- `app/` runs those machines on the board: registers, USB, timers, tasks. The
  CPU2 mailbox driver and its message numbers belong to the coprocessor firmware
  and are linked in; `app/mailbox.rs` declares what the driver has to export.
- `tests/` runs the library on concrete values.

The library calls `heapless` for its fixed-capacity strings and vectors; what is
believed of those calls stands in `src/text.rs` and `src/bounded.rs`.
