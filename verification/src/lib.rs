//! Verified logic of virtual machine devices.
//!
//! An emulated network adapter makes up most of the library. The guest establishes a hardware
//! channel through the adapter's registers ([`device`], [`regs`], [`smc`]), creates queues over
//! that channel ([`hwc`], [`dma`], [`channel`]), configures its vports ([`bnic`], with the
//! properties in [`nic_laws`]), and then exchanges packets ([`datapath`], [`rss`],
//! [`completion`]). Beside it stand the DHCP server of a user-mode network ([`dhcp`]), a
//! one-line description of network frames ([`describe`]), an SR-IOV capability ([`sriov`]), and a
//! serial port over sockets ([`serial`]).
//!
//! The library decides and computes. Guest memory, queues, sockets and tasks belong to its caller:
//! where one of them is needed, a value says what is to be done, and the outcome is handed back.
//! What is taken on trust of other crates is in [`table`] and [`wire`].
//!
//! What a guest can rely on is proved beside the code and in modules of its own: [`device_laws`]
//! for the registers, [`control_laws`] and [`channel_laws`] for the hardware channel,
//! [`steering_laws`] for the vports and their queues, [`transmit_laws`] and [`receive_laws`] for the
//! packets, and [`describe_laws`] for the descriptions of frames.

pub mod bnic;
pub mod bytes;
pub mod channel;
pub mod channel_laws;
pub mod completion;
pub mod control_laws;
pub mod datapath;
pub mod describe;
pub mod describe_laws;
pub mod device;
pub mod device_laws;
pub mod dhcp;
pub mod dma;
pub mod hwc;
pub mod nic_laws;
pub mod range;
pub mod receive_laws;
pub mod regs;
pub mod rss;
pub mod save_restore;
pub mod serial;
pub mod smc;
pub mod sriov;
pub mod steering_laws;
pub mod table;
pub mod text;
pub mod transmit_laws;
pub mod wire;
