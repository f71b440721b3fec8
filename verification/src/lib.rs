//! Typed model of the BlueZ object tree: identifiers of adapters, devices, services,
//! characteristics and descriptors, the records decoded from the daemon's property
//! bags, and the events read from its messages.
//!
//! Nothing here talks to the bus. A caller fetches node names, property bags and
//! messages from the daemon and hands them over as plain values; every function states
//! in its contract what it makes of them.

pub mod adapter;
pub mod bleuuid;
pub mod characteristic;
pub mod descriptor;
pub mod device;
pub mod discovery;
pub mod error;
pub mod events;
pub mod filter;
pub mod flags;
pub mod macaddress;
pub mod path;
pub mod property;
pub mod service;
pub mod text;
pub mod transport;
pub mod walker;

pub use self::adapter::AdapterId;
pub use self::bleuuid::Uuid;
pub use self::characteristic::{CharacteristicId, CharacteristicInfo};
pub use self::descriptor::{DescriptorId, DescriptorInfo};
pub use self::device::{DeviceId, DeviceInfo};
pub use self::error::BluetoothError;
pub use self::events::{AdapterEvent, BluetoothEvent, CharacteristicEvent, DeviceEvent};
pub use self::filter::DiscoveryFilter;
pub use self::flags::{Capability, CharacteristicFlags};
pub use self::macaddress::{MacAddress, ParseMacAddressError};
pub use self::service::{ServiceId, ServiceInfo};
pub use self::transport::Transport;
