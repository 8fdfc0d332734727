//! The startup discovery descriptors and the broker packet framing.

use ambw_mqtt::discovery::discovery_descriptors;
use ambw_mqtt::packet::{connect_packet, publish_packet};

#[test]
fn nineteen_retained_descriptors() {
    let d = discovery_descriptors();
    assert_eq!(d.len(), 19);
    for s in &d {
        assert!(s.retained);
        assert!(s.topic.ends_with(b"/config"));
        assert!(s.topic.starts_with(b"homeassistant/sensor/ambientWeather/"));
    }
}

#[test]
fn temperature_descriptor_payload() {
    let d = discovery_descriptors();
    assert_eq!(
        d[0].topic,
        b"homeassistant/sensor/ambientWeather/temperature/config".to_vec()
    );
    let expected = "{\"name\":\"Outside Temperature\",\"unique_id\":\"ambw_mqtt_outside_temp\",\"device_class\":\"temperature\",\"device\":{\"identifiers\":\"ambw_mqtt\",\"manufacturer\":\"Ambient Weather\",\"model\":\"WS-2902\",\"name\":\"MQTT Weather Station\",\"via_device\":\"ambient_weather_mqtt\"},\"state_topic\":\"homeassistant/sensor/ambientWeather/temperature/state\",\"unit_of_measurement\":\"\u{b0}F\",\"state_class\":\"measurement\"}";
    assert_eq!(d[0].payload, expected.as_bytes().to_vec());
}

#[test]
fn wind_dir_descriptor_has_no_device_class() {
    let d = discovery_descriptors();
    let wind_dir = d
        .iter()
        .find(|s| s.topic == b"homeassistant/sensor/ambientWeather/windDir/config".to_vec())
        .unwrap();
    let text = String::from_utf8(wind_dir.payload.clone()).unwrap();
    assert!(!text.contains("device_class"));
    assert!(text.contains("\"name\":\"Wind Dir\""));
    assert!(text.contains("\"unit_of_measurement\":\"\u{b0}\""));
}

#[test]
fn connect_packet_bytes() {
    let pkt = connect_packet(b"c", b"u", b"p", 60);
    let expected: Vec<u8> = vec![
        0x10, 19, // fixed header, remaining length
        0, 4, b'M', b'Q', b'T', b'T', 4, 0xc2, 0, 60, // variable header
        0, 1, b'c', 0, 1, b'u', 0, 1, b'p', // client id, username, password
    ];
    assert_eq!(pkt, expected);
}

#[test]
fn publish_packet_bytes() {
    let pkt = publish_packet(b"a/b", b"hi", false);
    let expected: Vec<u8> = vec![0x30, 7, 0, 3, b'a', b'/', b'b', b'h', b'i'];
    assert_eq!(pkt, expected);
    let retained = publish_packet(b"a/b", b"hi", true);
    assert_eq!(retained[0], 0x31);
}

#[test]
fn publish_packet_long_remaining_length() {
    let payload = vec![b'x'; 200];
    let pkt = publish_packet(b"t", &payload, false);
    // body = 2 + 1 + 200 = 203; 203 = 0x4b + continuation, then 1.
    assert_eq!(pkt[0], 0x30);
    assert_eq!(pkt[1], 0xcb);
    assert_eq!(pkt[2], 0x01);
    assert_eq!(pkt.len(), 3 + 203);
}
