# icm20948

A bus-agnostic driver for the ICM-20948 inertial measurement unit, verified
with Verus.

The verified library (`src/`) never touches a bus. Each operation of the
device (power, interrupt, full-scale ranges, low-pass filters, sample rates,
sample reads) is compiled into a bus script; the driver core walks the script
one bus action at a time, and the caller performs each action on its
peripheral and reports back what came of it.

- `registers`: the register map and the address bytes that go on the wire.
- `settings`: the device settings and their bit layout in the configuration
  registers, with the read-modify-write updates the driver applies.
- `sensor`: the driver's record of the device, sample decoding, and the
  sample-rate dividers.
- `spi`, `i2c`: the driver core for each transport, its scripts, and the
  laws that relate whole operations to the record they leave behind.

`app/` holds the embedded-hal driver that runs the core's scripts on an SPI
bus with a chip-select pin or on an I2C bus, and turns raw samples into
physical units.
