# servo_link

Verified core of a micro:bit servo controller. Target positions arrive on the
UART as COBS-framed CBOR messages and drive twelve servos through a PCA9685
PWM controller.

- `src/contracts.rs`: the messages and the configuration.
- `src/frame.rs`: reassembly of COBS frames from the byte stream.
- `src/servo.rs`: channel selection, the servo update rule and the control cycle.
- `app/`: the firmware around the library (peripherals, tasks, CBOR decoding,
  pulse-length arithmetic in floating point).
