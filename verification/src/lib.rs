//! Display logic for TM1638 LED driver boards: seven-segment glyph tables,
//! the encoding of text and numbers into the chip's display memory, and the
//! command and signal sequences that the two drivers (SPI and bit-banged GPIO)
//! put on the wire.
pub mod spi;
pub mod spi_laws;
pub mod gpio;
pub mod gpio_laws;
pub mod patterns;
