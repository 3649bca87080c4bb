use mpqtt::discovery::get_device_hassio;
use mpqtt::error::Error;
use mpqtt::settings::{InverterSettings, MqttDiscovery, MqttSettings, Settings};

fn sample_mqtt_settings() -> MqttSettings {
    MqttSettings {
        host: "broker.local".to_string(),
        port: 1883,
        username: "user".to_string(),
        password: "correct horse".to_string(),
        client_id: "mpqtt".to_string(),
        topic: "mpqtt/inverter".to_string(),
        discovery: MqttDiscovery {
            prefix: "homeassistant".to_string(),
            node_name: "inverter_1".to_string(),
            device_name: "Garage Inverter".to_string(),
            device_id: "inverter-serial-001".to_string(),
        },
    }
}

#[test]
fn test_settings_hold_their_fields() {
    let settings = Settings {
        debug: true,
        low_priority_delay: 30,
        inverter: InverterSettings { path: "/dev/hidraw0".to_string() },
        mqtt: sample_mqtt_settings(),
    };
    assert!(settings.debug);
    assert_eq!(settings.low_priority_delay, 30);
    assert_eq!(settings.inverter.path, "/dev/hidraw0");
    assert_eq!(settings.mqtt.port, 1883);
    assert_eq!(settings.mqtt.discovery.node_name, "inverter_1");
}

#[test]
fn test_get_device_hassio() {
    let cfg = sample_mqtt_settings();
    let device = get_device_hassio(&cfg);
    assert_eq!(device.name, "Garage Inverter");
    assert_eq!(device.identifiers[0], "inverter-serial-001");
    assert_eq!(device.model, "MPQTT");
    assert_eq!(device.manufacturer, "MPQTT");
    assert_eq!(device.sw_version, "0.1.0");
}

#[test]
fn test_error_messages() {
    assert_eq!(Error::InvalidResponseFormat.message(), "InvalidResponseFormat");
    assert_eq!(Error::InvalidResponseCheckSum.message(), "InvalidResponseCheckSum");
    assert_eq!(Error::InvalidResponsePayload.message(), "InvalidResponsePayload");
    assert_eq!(Error::Utf8.message(), "Utf8");
    assert_eq!(Error::Io.message(), "Io");
    assert_eq!(Error::ParseInt.message(), "ParseInt");
}

#[test]
fn test_error_equality() {
    assert_eq!(Error::Io, Error::Io);
    assert_ne!(Error::Io, Error::ParseInt);
    assert_ne!(Error::InvalidResponseFormat, Error::InvalidResponseCheckSum);
}
