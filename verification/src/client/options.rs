//! The options a session is opened with.
use bytes::Bytes;

use vstd::prelude::*;

use crate::packet::will::Will;

verus! {

#[derive(Debug, Clone)]
pub struct ConnectOptions {
    /// Whether the user acknowledges publications and subscriptions by hand
    /// (else the session answers them on its own).
    pub manual_ack: bool,
    pub clean_start: bool,
    /// 3.1.2.11.2
    pub session_expiry_interval: Option<u32>,
    /// 3.1.2.11.4: the largest packet, in bytes, that the server accepts (set by CONNACK).
    pub server_max_size: u32,
    /// The largest packet, in bytes, that the client accepts (sent in CONNECT).
    pub client_max_size: u32,
    /// 3.1.2.11.3: how many QoS 1 and 2 publications the client handles at once.
    pub client_receive_max: u16,
    /// 3.2.2.3.3: how many QoS 1 and 2 publications the server handles at
    /// once for the client, which bounds the packet identifiers in use (from CONNACK).
    pub server_receive_max: u16,
    /// 3.1.2.11.5: the highest topic alias the client accepts from the server.
    pub inbound_topic_alias_max: u16,
    /// The highest topic alias the server accepts from the client (from CONNACK).
    pub outbound_topic_alias_max: u16,
    /// In seconds: the server's from CONNACK, else the one sent in CONNECT.
    pub keep_alive: u16,
    pub will: Option<Will>,
    pub client_id: String,
    pub username: Option<String>,
    pub password: Option<String>,
    pub request_response_information: Option<u8>,
    pub request_problem_information: Option<u8>,
    pub user_property: Vec<(String, String)>,
    pub authentication_method: Option<String>,
    pub authentication_data: Option<Bytes>,
}

impl Default for ConnectOptions {
    fn default() -> (r: Self)
        ensures
            !r.manual_ack,
            r.clean_start,
            r.session_expiry_interval == Some(0u32),
            r.client_receive_max == u16::MAX,
            r.server_receive_max == u16::MAX,
            r.inbound_topic_alias_max == 0,
            r.outbound_topic_alias_max == 0,
            r.keep_alive == 69,
            r.will is None,
            r.client_id@ == "UniqueClientId"@,
            r.username is None,
            r.password is None,
            r.server_max_size == u32::MAX,
            r.client_max_size == u32::MAX,
            r.request_response_information is None,
            r.request_problem_information is None,
            r.user_property@.len() == 0,
            r.authentication_method is None,
            r.authentication_data is None,
    {
        ConnectOptions {
            inbound_topic_alias_max: 0,
            outbound_topic_alias_max: 0,
            manual_ack: false,
            clean_start: true,
            session_expiry_interval: Some(0),
            client_receive_max: u16::MAX,
            server_receive_max: u16::MAX,
            keep_alive: 69,
            will: None,
            client_id: String::from_str("UniqueClientId"),
            username: None,
            password: None,
            server_max_size: u32::MAX,
            client_max_size: u32::MAX,
            request_response_information: None,
            request_problem_information: None,
            user_property: Vec::new(),
            authentication_method: None,
            authentication_data: None,
        }
    }
}

} // verus!
