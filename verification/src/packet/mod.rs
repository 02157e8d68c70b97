//! The MQTT 5 control packets.
pub mod ack_properties;
pub mod ack;
pub mod disconnect_properties;
pub mod subscribe_properties;
pub mod unsubscribe_properties;
pub mod auth_properties;
pub mod connack_properties;
pub mod will_properties;
pub mod publish_properties;
pub mod connect_properties;
pub mod disconnect;
pub mod ping;
pub mod connect_flags;
pub mod publish;
pub mod suback;
pub mod unsuback;
pub mod subscription_options;
pub mod subscribe;
pub mod unsubscribe;
pub mod control;
pub mod will;
pub mod connect;
pub mod auth;
pub mod connack;
