//! Settings of an MQTT client connection.
use vstd::prelude::*;
use crate::text::push_str;

verus! {

/// Builder for an MQTT client: client id, broker host and port, keep-alive
/// interval (in seconds) and the capacity of the request channel.
#[derive(Debug)]
pub struct MqttClientBuilder {
    pub client_id: String,
    pub host: String,
    pub port: u16,
    pub keep_alive_secs: u64,
    pub channel_capacity: usize,
}

impl Default for MqttClientBuilder {
    /// Client id `topik-client`, `localhost:1883`, keep-alive 30 s, channel
    /// capacity 10.
    fn default() -> (b: Self)
        ensures
            b.client_id@ == "topik-client"@,
            b.host@ == "localhost"@,
            b.port == 1883,
            b.keep_alive_secs == 30,
            b.channel_capacity == 10,
    {
        let mut client_id = String::new();
        push_str(&mut client_id, "topik-client");
        let mut host = String::new();
        push_str(&mut host, "localhost");
        MqttClientBuilder { client_id, host, port: 1883, keep_alive_secs: 30, channel_capacity: 10 }
    }
}

impl MqttClientBuilder {
    /// Sets the client id.
    pub fn client_id(self, id: String) -> (b: Self)
        ensures
            b.client_id@ == id@,
            b.host == self.host,
            b.port == self.port,
            b.keep_alive_secs == self.keep_alive_secs,
            b.channel_capacity == self.channel_capacity,
    {
        let mut b = self;
        b.client_id = id;
        b
    }

    /// Sets the broker host and port.
    pub fn url(self, host: String, port: u16) -> (b: Self)
        ensures
            b.client_id == self.client_id,
            b.host@ == host@,
            b.port == port,
            b.keep_alive_secs == self.keep_alive_secs,
            b.channel_capacity == self.channel_capacity,
    {
        let mut b = self;
        b.host = host;
        b.port = port;
        b
    }

    /// Sets the keep-alive interval, in seconds.
    pub fn keep_alive(self, secs: u64) -> (b: Self)
        ensures
            b.client_id == self.client_id,
            b.host == self.host,
            b.port == self.port,
            b.keep_alive_secs == secs,
            b.channel_capacity == self.channel_capacity,
    {
        let mut b = self;
        b.keep_alive_secs = secs;
        b
    }

    /// Sets the capacity of the request channel.
    pub fn channel_capacity(self, capacity: usize) -> (b: Self)
        ensures
            b.client_id == self.client_id,
            b.host == self.host,
            b.port == self.port,
            b.keep_alive_secs == self.keep_alive_secs,
            b.channel_capacity == capacity,
    {
        let mut b = self;
        b.channel_capacity = capacity;
        b
    }
}

} // verus!
