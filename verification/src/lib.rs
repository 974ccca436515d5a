//! Drivers for the backup media found on Game Boy Advance cartridges.
//!
//! Three kinds of backup memory exist: SRAM, EEPROM and flash. Each is reached through a
//! different wire protocol, yet all three are offered here as bounded byte ranges that are read
//! and written through cursors.
//!
//! The drivers never touch the machine themselves. Every device handle owns a value that stands
//! for the hardware it drives, and each such capability is described by a trait together with a
//! mathematical model of the chip behind it. The contracts of the drivers are stated over those
//! models. For each chip there is also a simulator that keeps to its model, for use where there
//! is no cartridge.
//!
//! # Example
//! To write and read save data using SRAM, use something like the following:
//! ```
//! use gba_save::range::{Bound, Index};
//! use gba_save::sram::{SimulatedSram, Sram};
//!
//! let mut sram = Sram::new(SimulatedSram::new());
//! let end = Index::new(16).unwrap();
//! let mut writer = sram.writer(Bound::Unbounded, Bound::Excluded(end));
//!
//! // Write some data.
//! assert_eq!(writer.write(b"hello, world!"), Ok(13));
//!
//! // Write some more data.
//! assert_eq!(writer.write(b"123"), Ok(3));
//!
//! // Read the data back.
//! let mut reader = sram.reader(Bound::Unbounded, Bound::Excluded(end));
//! let mut buffer = [0; 16];
//! assert_eq!(reader.read(&mut buffer), 16);
//! // Both things that were written will be read back.
//! assert_eq!(&buffer, b"hello, world!123");
//! ```

pub mod contents;
pub mod eeprom;
pub mod flash;
pub mod mmio;
pub mod range;
pub mod sram;

