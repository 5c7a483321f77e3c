# ssd1306

Driver for SSD1306 OLED displays, written in Verus.

Every driver operation is computed as a program of steps (command batches, display data,
and the driver state that follows them). Each such program is stated exactly by a spec
function and proved for the code that builds it; a verified loop then hands the steps to a
`DisplayInterface`, stopping at the first transfer that fails. The `DisplayInterface` trait
has a spec function, `sent`, for the transfers an interface has been handed, each with the
interface's answer, and its two methods each state that they add their one transfer and
answer to it. The contract of each operation says, over `sent`, which command batches and
data blocks reached the interface, in order, and that an operation stops at the first
transfer answered with an error and returns that error. What the interface answers is its
own: the contracts say what follows from each answer. An implementation in plain Rust keeps
the trait's default, an empty record, which cannot meet the methods' contracts; for such an
interface the proofs say nothing about what it received.

- `src/` is the verified library: commands and their encoding, display sizes and rotations,
  the basic, buffered graphics, graphics and terminal modes, display properties and the
  builders.
- `app/` is a demo program for a Raspberry Pi and the glue to the embedded-hal ecosystem:
  adapters from `display_interface` transports and the I2C and SPI buses, the hardware reset,
  embedded-graphics drawing targets and a `core::fmt::Write` sink for the terminal mode.
- `tests/` runs the library against an interface that records every transfer.
