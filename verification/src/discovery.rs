//! The device descriptor announced alongside every discovered sensor.  The
//! surrounding application serialises it and publishes it to the broker; the
//! library pins down what the descriptor holds.

use vstd::prelude::*;
use crate::settings::MqttSettings;

verus! {

/// The name of this system, as announced to the broker.
pub const SYSTEM_NAME: &'static str = "MPQTT";

/// The version of this system, as announced to the broker.
pub const SYSTEM_VERSION: &'static str = "0.1.0";

/// The device block of a sensor discovery message.
#[derive(Debug, Clone)]
pub struct SensorDiscoveryDevice {
    pub name: String,
    pub identifiers: [String; 1],
    pub model: String,
    pub manufacturer: String,
    pub sw_version: String,
}

/// Build the device block from the configuration: the configured device name
/// and id, with this system's name as model and manufacturer and its version
/// as software version.
pub fn get_device_hassio(cfg: &MqttSettings) -> (r: SensorDiscoveryDevice)
    ensures
        r.name@ == cfg.discovery.device_name@,
        r.identifiers@[0]@ == cfg.discovery.device_id@,
        r.model@ == SYSTEM_NAME@,
        r.manufacturer@ == SYSTEM_NAME@,
        r.sw_version@ == SYSTEM_VERSION@,
{
    SensorDiscoveryDevice {
        name: cfg.discovery.device_name.clone(),
        identifiers: [cfg.discovery.device_id.clone()],
        model: String::from_str(SYSTEM_NAME),
        manufacturer: String::from_str(SYSTEM_NAME),
        sw_version: String::from_str(SYSTEM_VERSION),
    }
}

} // verus!
