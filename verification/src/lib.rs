//! Driver for SSD1327 grayscale OLED controllers on a write-only I2C bus.
//!
//! The driver turns commands into the frames of the controller's protocol
//! ([`command`]), keeps the pixels in a packed buffer laid out as the
//! controller's display RAM is ([`framebuffer`]), and sends both over a bus
//! that the platform supplies ([`bus`]). [`driver`] ties the three together:
//! it initialises the controller and flushes the buffer to it.
//!
//! Pixel writes change the buffer only. Nothing reaches the display before
//! the next flush.

pub mod bus;
pub mod command;
pub mod driver;
pub mod framebuffer;

pub use bus::I2CWrite;
pub use command::Commands;
pub use driver::SSD1327I2C;
pub use framebuffer::{buffer_size, Framebuffer, GrayPixel};
