# flasher

Firmware for the tulip dualnand: a board that reads and writes the NAND of a
console over USB.

* `src/` is the logic, verified with Verus: the byte queue and the length-delimited
  frames on the serial port, the register and block transfers of the NAND
  controller, the operations on the NAND, the transfers of block ranges, and the
  events of the task trace. Nothing in it touches hardware.
* `tests/` runs the logic on concrete values.
* `app/` is the firmware around it: USB, PIO, DMA, interrupts and the tasks. It
  performs what the library asks for and reports back.

Operations are sequences. Each has an `action` that says what is to be done next
and an `advance` that takes the outcome, so the library decides and the firmware
acts.

The NAND controller takes and gives the least significant bit of each byte first,
while the state machines shift the most significant bit first; the `byteswap`
module turns one order into the other.
