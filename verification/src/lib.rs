//! Logic of the dualnand flasher firmware: the framed USB protocol, the NAND
//! controller sequences that it drives and the task tracing beside them.
//!
//! Nothing here touches hardware. Byte queues, codecs and sequences are plain
//! data with contracts; the firmware binary performs the transfers that they
//! ask for and hands the outcomes back.
pub mod bytes;
pub mod stream;
pub mod trace;
pub mod spiex;
pub mod command;
pub mod usb;
pub mod xbox;
pub mod tasks;
pub mod ranges;
