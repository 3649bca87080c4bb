//! Process configuration as plain data.  Loading it from a configuration
//! file is the surrounding application's concern; the library only defines
//! the shape the application fills in.

use vstd::prelude::*;

verus! {

/// Where to reach the inverter device.
#[derive(Debug, Clone)]
pub struct InverterSettings {
    pub path: String,
}

/// Names under which the device is announced for discovery.
#[derive(Debug, Clone)]
pub struct MqttDiscovery {
    pub prefix: String,
    pub node_name: String,
    pub device_name: String,
    pub device_id: String,
}

/// How to reach and speak to the message broker.
#[derive(Debug, Clone)]
pub struct MqttSettings {
    pub host: String,
    pub port: u16,
    pub username: String,
    pub password: String,
    pub client_id: String,
    pub topic: String,
    pub discovery: MqttDiscovery,
}

/// The whole process configuration.
#[derive(Debug, Clone)]
pub struct Settings {
    pub debug: bool,
    pub low_priority_delay: i16,
    pub inverter: InverterSettings,
    pub mqtt: MqttSettings,
}

} // verus!
