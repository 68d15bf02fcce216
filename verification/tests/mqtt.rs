use netsurvey::mqtt::{
    compose_summary, decode_remaining_length, get_remaining_length_bytes, locate_publish,
    message_type_label, packet_info_at, parse_mqtt_packet_summary, summarize_packet, PublishFrame,
};

#[test]
fn remaining_length_of_one_to_three_bytes() {
    assert_eq!(decode_remaining_length(&[0x00]), Some(0));
    assert_eq!(decode_remaining_length(&[0x7F]), Some(127));
    assert_eq!(decode_remaining_length(&[0x80, 0x01]), Some(128));
    assert_eq!(decode_remaining_length(&[0xFF, 0x7F]), Some(16383));
    assert_eq!(decode_remaining_length(&[0x80, 0x80, 0x01]), Some(16384));
    assert_eq!(decode_remaining_length(&[0xFF, 0xFF, 0x7F]), Some(2097151));
    // bytes after the last length byte do not count
    assert_eq!(decode_remaining_length(&[0x05, 0xFF, 0xFF]), Some(5));
}

#[test]
fn remaining_length_of_four_bytes_is_refused() {
    assert_eq!(decode_remaining_length(&[0x80, 0x80, 0x80, 0x01]), None);
    assert_eq!(decode_remaining_length(&[0xFF, 0xFF, 0xFF, 0x7F]), None);
}

#[test]
fn remaining_length_that_never_ends_is_refused() {
    assert_eq!(decode_remaining_length(&[]), None);
    assert_eq!(decode_remaining_length(&[0x80]), None);
    assert_eq!(decode_remaining_length(&[0x80, 0x80]), None);
    assert_eq!(decode_remaining_length(&[0x80, 0x80, 0x80]), None);
}

#[test]
fn remaining_length_bytes_are_counted() {
    assert_eq!(get_remaining_length_bytes(&[0x00]), Some(1));
    assert_eq!(get_remaining_length_bytes(&[0x80, 0x01, 0x55]), Some(2));
    assert_eq!(get_remaining_length_bytes(&[0x80, 0x80, 0x80, 0x01]), Some(4));
    assert_eq!(get_remaining_length_bytes(&[0x80, 0x80, 0x80, 0x80, 0x80, 0x00]), Some(6));
    assert_eq!(get_remaining_length_bytes(&[]), None);
    assert_eq!(get_remaining_length_bytes(&[0x80, 0xFF]), None);
}

#[test]
fn message_types_have_names() {
    let names = [
        "UNKNOWN", "CONNECT", "CONNACK", "PUBLISH", "PUBACK", "PUBREC", "PUBREL", "PUBCOMP",
        "SUBSCRIBE", "SUBACK", "UNSUBSCRIBE", "UNSUBACK", "PINGREQ", "PINGRESP", "DISCONNECT",
        "UNKNOWN",
    ];
    for (kind, name) in names.iter().enumerate() {
        assert_eq!(message_type_label(kind as u8), *name);
        assert_eq!(summarize_packet(&[(kind as u8) << 4, 0]), Some(format!("MQTT {}", name)));
    }
    assert_eq!(message_type_label(200), "UNKNOWN");
}

#[test]
fn summary_is_composed_of_its_parts() {
    assert_eq!(compose_summary("PINGREQ", None, None), "MQTT PINGREQ");
    assert_eq!(compose_summary("PUBLISH", Some("a/b"), None), "MQTT PUBLISH, Topic: a/b");
    assert_eq!(
        compose_summary("PUBLISH", Some("a/b"), Some("on")),
        "MQTT PUBLISH, Topic: a/b, Payload: on"
    );
    assert_eq!(compose_summary("X", None, Some("p")), "MQTT X, Payload: p");
}

#[test]
fn publication_is_located() {
    let packet = [0x30, 0x0A, 0x00, 0x03, b'a', b'/', b'b', b'h', b'e', b'l', b'l', b'o'];
    assert_eq!(
        locate_publish(&packet),
        Some(PublishFrame { topic_start: 4, topic_end: 7, payload_start: 7 })
    );
    // quality of service 1: a packet identifier follows the topic
    let packet = [0x32, 0x09, 0x00, 0x03, b'a', b'/', b'b', 0x00, 0x01, b'h', b'i'];
    assert_eq!(
        locate_publish(&packet),
        Some(PublishFrame { topic_start: 4, topic_end: 7, payload_start: 9 })
    );
    // no room for the identifier: it is not passed over
    let packet = [0x32, 0x06, 0x00, 0x03, b'a', b'/', b'b', 0x00];
    assert_eq!(
        locate_publish(&packet),
        Some(PublishFrame { topic_start: 4, topic_end: 7, payload_start: 7 })
    );
    // a length of two bytes moves everything by one
    let packet = [0x30, 0x80, 0x01, 0x00, 0x01, b't', b'p'];
    assert_eq!(
        locate_publish(&packet),
        Some(PublishFrame { topic_start: 5, topic_end: 6, payload_start: 6 })
    );
}

#[test]
fn publication_that_is_cut_short_has_no_layout() {
    assert_eq!(locate_publish(&[]), None);
    assert_eq!(locate_publish(&[0x30]), None);
    assert_eq!(locate_publish(&[0x30, 0x05, 0x00]), None);
    assert_eq!(locate_publish(&[0x30, 0x05, 0x00, 0x04, b'a', b'b', b'c']), None);
    assert_eq!(locate_publish(&[0x30, 0x80, 0x80, 0x80, 0x01, 0x00, 0x00]), None);
    assert_eq!(locate_publish(&[0x30, 0x80, 0x80, 0x80]), None);
    assert_eq!(locate_publish(&[0x30, 0x00, 0xFF, 0xFF, b'a']), None);
}

#[test]
fn publication_is_summarised_with_topic_and_payload() {
    let packet = [0x30, 0x0A, 0x00, 0x03, b'a', b'/', b'b', b'h', b'e', b'l', b'l', b'o'];
    assert_eq!(
        summarize_packet(&packet),
        Some("MQTT PUBLISH, Topic: a/b, Payload: hello".to_string())
    );
    let packet = [0x32, 0x09, 0x00, 0x03, b'a', b'/', b'b', 0x00, 0x01, b'h', b'i'];
    assert_eq!(
        summarize_packet(&packet),
        Some("MQTT PUBLISH, Topic: a/b, Payload: hi".to_string())
    );
    let packet = [0x30, 0x05, 0x00, 0x03, b'a', b'/', b'b'];
    assert_eq!(summarize_packet(&packet), Some("MQTT PUBLISH, Topic: a/b".to_string()));
    let packet = [0x30, 0x02, 0x00, 0x00];
    assert_eq!(summarize_packet(&packet), Some("MQTT PUBLISH, Topic: ".to_string()));
}

#[test]
fn short_publication_is_summarised_by_type_alone() {
    assert_eq!(summarize_packet(&[0x30]), Some("MQTT PUBLISH".to_string()));
    assert_eq!(summarize_packet(&[0x30, 0x00]), Some("MQTT PUBLISH".to_string()));
    assert_eq!(summarize_packet(&[0x30, 0x01, 0x00]), Some("MQTT PUBLISH".to_string()));
}

#[test]
fn packet_without_summary() {
    assert_eq!(summarize_packet(&[]), None);
    assert_eq!(summarize_packet(&[0x30, 0x05, 0x00, 0x04, b'a', b'b', b'c']), None);
    assert_eq!(summarize_packet(&[0x30, 0x80, 0x80, 0x80, 0x01, 0x00, 0x00]), None);
}

#[test]
fn ill_formed_text_is_replaced() {
    let packet = [0x30, 0x06, 0x00, 0x02, 0xFF, b'a', 0xC3, 0x28];
    assert_eq!(
        summarize_packet(&packet),
        Some("MQTT PUBLISH, Topic: \u{FFFD}a, Payload: \u{FFFD}(".to_string())
    );
    let packet = [0x30, 0x06, 0x00, 0x02, 0xC3, 0xA9, 0xE6, 0x97, 0xA5];
    assert_eq!(
        summarize_packet(&packet),
        Some("MQTT PUBLISH, Topic: é, Payload: 日".to_string())
    );
}

#[test]
fn packet_account_has_fixed_fields() {
    let packet = [0x30, 0x0A, 0x00, 0x03, b'a', b'/', b'b', b'h', b'e', b'l', b'l', b'o'];
    let info = packet_info_at(&packet, "2024-01-02T03:04:05+00:00".to_string()).unwrap();
    assert_eq!(info.timestamp, "2024-01-02T03:04:05+00:00");
    assert_eq!(info.source_ip, "N/A");
    assert_eq!(info.dest_ip, "N/A");
    assert_eq!(info.protocol, "MQTT");
    assert_eq!(info.size, 12);
    assert_eq!(info.summary, "MQTT PUBLISH, Topic: a/b, Payload: hello");
    assert_eq!(packet_info_at(&[], "t".to_string()), None);
}

#[test]
fn packet_account_is_stamped_by_the_clock() {
    let info = parse_mqtt_packet_summary(&[0xC0, 0x00]).unwrap();
    assert_eq!(info.summary, "MQTT PINGREQ");
    assert_eq!(info.size, 2);
    assert_eq!(info.protocol, "MQTT");
    // an RFC 3339 stamp: date, `T`, time
    assert!(info.timestamp.len() >= 20);
    assert_eq!(info.timestamp.as_bytes()[4], b'-');
    assert_eq!(info.timestamp.as_bytes()[10], b'T');
    assert_eq!(parse_mqtt_packet_summary(&[]), None);
}
