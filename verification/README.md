# aart_core

Verified core of a two-motor sensorless BLDC slot-car controller, and the
STM32G474 firmware around it.

- `src/` - the library, written in Verus: six-step commutation and
  zero-cross detection (`commutator`), the ADC-interrupt step and PWM timer
  arithmetic (`drive`), the 1 kHz control loop (`control`), the electronic
  differential and axle-balance feedforward (`diff_ctrl`, `axle_balance`,
  `drive_layout`), fault and drag-brake supervision (`fault`, `brake`),
  the UART line protocol (`protocol`), persisted parameters (`params`),
  and the tick extender and cyclic scheduler (`tick`, `scheduler`).
  Fractions of one (duties, steer, slip, gains) are fixed-point millionths
  (`units`).
- `tests/` - host tests of the library.
- `app/` - the firmware: peripheral setup, the bridge and sense drivers,
  the UART channel, flash storage, the ADC interrupt and the main loop.
  It reads the hardware, calls the library, and carries out what it
  returns.
