//! Bus-agnostic driver core for the ICM-20948 inertial measurement unit.
//!
//! The driver does not own a bus.  Every operation of the device (switching
//! sensors on and off, choosing full-scale ranges, low-pass filters and sample
//! rates, reading samples) is compiled into a short bus script that the
//! driver core then walks one bus action at a time: the caller performs the
//! action on its SPI or I2C peripheral and reports back what happened.
//! Both transports are offered, in the modules `spi` and `i2c`.

pub mod registers;
pub mod settings;
pub mod sensor;
pub mod error;
pub mod spi;
pub mod i2c;
