//! Configuration model, driver decisions and readiness protocol for
//! TUN/TAP virtual network interfaces.

pub mod addr;
pub mod error;
pub mod coerce;
pub mod builder;
pub mod async_fd;
pub mod netsh;
pub mod text;
pub mod driver;
