//! Verified logic of the MSeq PCB test bench: the MIDI byte filter and CRC32 comparison of
//! the receive, send and THRU tests, the SPI command encoding and the check sequences of the
//! FRAM and NOR flash tests, the OLED digit rendering, the switch debouncer, the BPM beat
//! counter, the logger's level handling and the host tester's port selection and reports.
pub mod crc32;
pub mod random;
pub mod midi;
pub mod timing;
pub mod receive;
pub mod text;
pub mod display;
pub mod spi_bus;
pub mod switch;
pub mod bpm;
pub mod rtt_logger;
pub mod nor;
pub mod fram;
pub mod send;
pub mod report;
pub mod ports;
pub mod config;
pub mod host;
pub mod mode;
