//! An MQTT 5 packet codec and client session engine whose behaviour is
//! stated in contracts and proved with Verus.

pub mod buffer;
pub mod error;
pub mod codec;
pub mod varint;
pub mod packet_type;
pub mod qos;
pub mod fixed_header;
pub mod property;
pub mod properties;
pub mod reason_code;
pub mod packet;
pub mod packet_id;
pub mod length;
pub mod data_size;
pub mod client;
