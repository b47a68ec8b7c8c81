use plant_monitor::communications::{ConnectionErr, QosLevel};
use plant_monitor::config::{Config, MqttConfig, SamplingConfig};
use plant_monitor::influx::Sample;
use plant_monitor::text::{is_plain_text, push_decimal, push_signed_decimal, str_byte_len};
use plant_monitor::types::{DataPoint, Mapping, Reading, Sensor};
use plant_monitor::util::Event;

#[test]
fn mapping_to_string() {
    let key = "plant";
    let value = "parsley";
    let m = Mapping { key, value };
    let ref_string = "plant=parsley,plant=parsley".to_owned();
    let mut string = String::new();
    m.append_to_string(&mut string, false);
    m.append_to_string(&mut string, true);
    assert_eq!(string, ref_string);
}

#[test]
fn datapoint_to_vec() {
    let ref_line =
        "myMeasurement,tag1=value1,tag2=value2 fieldKey=fieldValue 1556813561098000000".to_owned();
    let tags = [Mapping { key: "tag1", value: "value1" }, Mapping { key: "tag2", value: "value2" }];
    let fields = [Mapping { key: "fieldKey", value: "fieldValue".to_owned() }];
    let dp = DataPoint {
        measurement: "myMeasurement",
        tag_set: &tags[..],
        field_set: &fields[..],
        time_stamp: Some(1556813561098000000),
    };

    let line_bytes: Vec<u8> = dp.into();
    let line = String::from_utf8(line_bytes).unwrap();

    assert_eq!(ref_line, line)
}

#[test]
fn owned_mapping_to_string() {
    let m: Mapping<'_, String> = ("plant", "basil".to_owned()).into();
    let mut string = String::from("x");
    m.append_to_string(&mut string, true);
    assert_eq!(string, "x,plant=basil");
    m.append_to_string(&mut string, false);
    assert_eq!(string, "x,plant=basilplant=basil");
}

#[test]
fn mapping_required_chars() {
    let m = Mapping { key: "plant", value: "parsley" };
    assert_eq!(m.get_required_chars(), 13);
    let owned = Mapping { key: "ort", value: "münchen".to_owned() };
    assert_eq!(owned.get_required_chars(), 3 + 8 + 1);
    let empty = Mapping { key: "", value: "" };
    assert_eq!(empty.get_required_chars(), 1);
}

#[test]
fn required_chars_is_the_length_of_the_line() {
    let tags = [Mapping { key: "tag1", value: "value1" }, Mapping { key: "ort", value: "münchen" }];
    let fields = [
        Mapping { key: "fieldKey", value: "fieldValue".to_owned() },
        Mapping { key: "wetter", value: "☀".to_owned() },
    ];
    let dp = DataPoint {
        measurement: "myMeasurement",
        tag_set: &tags[..],
        field_set: &fields[..],
        time_stamp: Some(1556813561098000000),
    };
    let required = dp.required_chars();
    let bytes: Vec<u8> = dp.into();
    assert_eq!(required, Some(bytes.len()));
    assert_eq!(
        String::from_utf8(bytes).unwrap(),
        "myMeasurement,tag1=value1,ort=münchen fieldKey=fieldValue,wetter=☀ 1556813561098000000"
    );
}

#[test]
fn data_point_without_sections() {
    let fields: [Mapping<'_, String>; 0] = [];
    let dp = DataPoint { measurement: "m", tag_set: &[], field_set: &fields, time_stamp: None };
    assert_eq!(dp.required_chars(), Some(1));
    let bytes: Vec<u8> = dp.into();
    assert_eq!(bytes, b"m".to_vec());
    let stamped =
        DataPoint { measurement: "m", tag_set: &[], field_set: &fields, time_stamp: Some(40) };
    assert_eq!(stamped.required_chars(), Some(4));
    let bytes: Vec<u8> = stamped.into();
    assert_eq!(bytes, b"m 40".to_vec());
}

#[test]
fn data_point_and_sample_agree() {
    let tags = [Mapping { key: "a", value: "b" }];
    let fields = [
        Mapping { key: "k", value: "1".to_owned() },
        Mapping { key: "l", value: "2".to_owned() },
    ];
    let dp =
        DataPoint { measurement: "m", tag_set: &tags, field_set: &fields, time_stamp: Some(9) };
    let bytes: Vec<u8> = dp.into();
    let sample_tags = [("a", "b").into()];
    let sample_fields = [("k", "1").into(), ("l", "2").into()];
    let sample: Sample<'_, &str> = Sample {
        measurement: "m",
        tags: &sample_tags,
        fields: &sample_fields,
        time_stamp: Some(9),
    };
    assert_eq!(bytes, sample.to_string().into_bytes());
    assert_eq!(sample.to_string(), "m,a=b k=1,l=2 9");
}

#[test]
fn decimal_numerals() {
    let mut s = String::from("t=");
    push_decimal(&mut s, 0);
    assert_eq!(s, "t=0");
    push_decimal(&mut s, 1465839830100400200);
    assert_eq!(s, "t=01465839830100400200");
    let mut t = String::new();
    push_decimal(&mut t, u64::MAX);
    assert_eq!(t, "18446744073709551615");
    let mut u = String::new();
    push_decimal(&mut u, 100);
    assert_eq!(u, "100");
}

#[test]
fn signed_decimal_numerals() {
    let mut s = String::from("v=");
    push_signed_decimal(&mut s, -1);
    assert_eq!(s, "v=-1");
    let mut t = String::new();
    push_signed_decimal(&mut t, i64::MIN);
    assert_eq!(t, "-9223372036854775808");
    let mut u = String::new();
    push_signed_decimal(&mut u, 1234567890);
    assert_eq!(u, "1234567890");
    let mut w = String::new();
    push_signed_decimal(&mut w, -10);
    assert_eq!(w, "-10");
}

#[test]
fn byte_lengths_and_separators() {
    assert_eq!(str_byte_len(""), 0);
    assert_eq!(str_byte_len("abc"), 3);
    assert_eq!(str_byte_len("☀"), 3);
    assert!(is_plain_text("us-midwest"));
    assert!(is_plain_text(""));
    assert!(!is_plain_text("a b"));
    assert!(!is_plain_text("a,b"));
    assert!(!is_plain_text("a=b"));
    assert!(is_plain_text("a\u{a0}b"));
}

#[test]
fn qos_levels() {
    assert_eq!(QosLevel::from_level(0), QosLevel::AtMostOnce);
    assert_eq!(QosLevel::from_level(1), QosLevel::AtLeastOnce);
    assert_eq!(QosLevel::from_level(2), QosLevel::ExactlyOnce);
    assert_eq!(ConnectionErr::SendError, ConnectionErr::SendError);
    assert_eq!(Event::Tick, Event::Tick);
}

#[test]
fn settings_give_tags_and_qos() {
    let config = Config {
        mqtt: MqttConfig {
            server: "tcp://server:1883".to_owned(),
            client_id: "client_0".to_owned(),
            publish_topic: "telegraf/topic/here".to_owned(),
            subscribe_topic: "receive/topic/here".to_owned(),
            qos: 0,
        },
        sampling: SamplingConfig {
            sample_period_seconds: 60,
            measurement_name: "atmospheric".to_owned(),
            tags: vec![("source".to_owned(), "pzero".to_owned()), ("room".to_owned(), "1".to_owned())],
        },
    };
    assert_eq!(config.mqtt.qos_level(), Some(QosLevel::AtMostOnce));
    let tags = config.sampling.tag_list();
    assert_eq!(tags.len(), 2);
    assert_eq!(tags[0].key, "source");
    assert_eq!(tags[0].value, "pzero");
    assert_eq!(tags[1].key, "room");
    assert_eq!(tags[1].value, "1");
    let fields = [("temperature", 21u64).into()];
    let sample = Sample {
        measurement: config.sampling.measurement_name.as_str(),
        tags: &tags,
        fields: &fields,
        time_stamp: None,
    };
    assert_eq!(sample.to_string(), "atmospheric,source=pzero,room=1 temperature=21");
    let mut other = config.mqtt.clone();
    other.qos = 2;
    assert_eq!(other.qos_level(), Some(QosLevel::ExactlyOnce));
    other.qos = 1;
    assert_eq!(other.qos_level(), Some(QosLevel::AtLeastOnce));
    other.qos = 3;
    assert_eq!(other.qos_level(), None);
}

struct Thermometer {
    fields: [Mapping<'static, i64>; 2],
}

impl Sensor for Thermometer {
    type ReadingType = i64;

    fn get_reading<'a>(&'a mut self) -> Reading<'a, 'static, i64> {
        self.fields[0].value += 1;
        Reading { fields: &self.fields }
    }
}

#[test]
fn sensor_hands_out_its_fields() {
    let mut sensor =
        Thermometer { fields: [("temperature", 20).into(), ("offset", -3).into()] };
    let first = sensor.get_reading();
    assert_eq!(first.fields.len(), 2);
    assert_eq!(first.fields[0].key, "temperature");
    assert_eq!(first.fields[0].value, 21);
    assert_eq!(first.fields[1].key, "offset");
    assert_eq!(first.fields[1].value, -3);
    let second = sensor.get_reading();
    assert_eq!(second.fields[0].value, 22);
}
