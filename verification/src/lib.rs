//! Core of a media-access-control driver for a wired Ethernet peripheral:
//! descriptor rings shared with a DMA engine, the zero-copy token protocol
//! built on them, and the station-management interface to the PHY.

mod barrier;
pub mod descriptor;
pub mod device;
pub mod laws;
pub mod model;
pub mod packet;
pub mod phy;
pub mod queue;
pub mod ring;
pub mod rx;
pub mod smi;
pub mod tx;
pub mod waker;

pub use device::{Ethernet, RxToken, TxToken};
pub use phy::{GenericSMI, PHY};
pub use queue::PacketQueue;
pub use smi::StationManagement;
