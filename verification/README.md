# mseq_tb

Test bench for the MSeq PCB (STM32F413): firmware tests for MIDI receive/send, the OLED display,
the BPM clock, the SPI NOR flash and FRAM, and the master/slave switch, plus host programs that
drive a USB-MIDI adapter.

- `src/` is the verified library, checked with Verus. It holds the test logic as plain
  functions and state machines:
  - the MIDI byte filter and CRC32 comparison (`midi`, `receive`, `crc32`)
  - the SPI command encoding and the NOR flash and FRAM check sequences (`spi_bus`, `nor`, `fram`)
  - digit rendering (`display`), the switch debouncer (`switch`), the beat counter (`bpm`)
  - log level handling (`rtt_logger`), port selection and report lines (`ports`, `report`, `text`)
  - the host conductor (`host`)

  Each state machine takes the result of the last bus transfer or UART read and returns the
  next transfer or a verdict.
- `app/` is the unverified shell. It holds the board entry point and peripheral setup, the
  logger's RTT output, the midir connections, and the command line. It runs the state
  machines against the real hardware and logs what they report.
- `tests/` runs the library against simulated devices (a W25Q16JV and an MB85RS256B, good and
  faulty) and against known CRC32 and formatting values.
