# tm1638

Verified display logic for TM1638 LED driver boards (eight seven-segment
digits).

- `src/spi.rs`: the SPI-attached driver — glyph table (`Segment`), the
  encoding of text and of numbers into the chip's 16-byte display memory, the
  frames and commands to send, and the driver value `TM1638SPI`.
- `src/spi_laws.rs`: properties of those encoders (a number reads as its
  right-aligned decimal text, exactly one decimal point, case-insensitive
  lookup, distinct hex glyphs, digit addresses).
- `src/gpio.rs`: the bit-banged driver — its glyph table and the exact line
  sequences (clock, data, strobe, pauses) for every operation.
- `src/gpio_laws.rs`: what the chip latches from those sequences (every byte,
  least significant bit first, inside one strobe frame) and that both drivers
  address the same display bytes.
- `app/`: the firmware around the library: the asynchronous SPI transport,
  the pin-driving loop of the bit-banged driver, and `main`.
