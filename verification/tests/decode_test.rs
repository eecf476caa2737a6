use wiener_linien_ogd::decode::{
    decode_message, decode_monitor_response, decode_traffic_info_list_response,
};
use wiener_linien_ogd::error::DecodeError;
use wiener_linien_ogd::json::{parse_json, Json};
use wiener_linien_ogd::models::{BuildRequestUrl, ExtTrafficInfoEnum, MonitorRequest, TrafficInfoEnum};
use wiener_linien_ogd::response::{message_code_from, MessageCode};
use wiener_linien_ogd::timestamp::parse_timestamp;

fn parse_message(body: &str) -> Result<wiener_linien_ogd::response::Message, DecodeError> {
    let tree: Json = parse_json(body)?;
    decode_message(&tree)
}

#[test]
fn timestamp_parse_exact_fields() {
    let t = parse_timestamp("2024-01-15T12:34:56.789+01:00").unwrap();
    assert_eq!(t.year, 2024);
    assert_eq!(t.month, 1);
    assert_eq!(t.day, 15);
    assert_eq!(t.hour, 12);
    assert_eq!(t.minute, 34);
    assert_eq!(t.second, 56);
    assert_eq!(t.nanos, 789_000_000);
    assert!(!t.offset_negative);
    assert_eq!(t.offset_hours, 1);
    assert_eq!(t.offset_minutes, 0);
    assert_eq!(t.offset_seconds(), 3600);
}

#[test]
fn timestamp_parse_without_fraction_and_negative_offset() {
    let t = parse_timestamp("1999-12-31T23:59:59-05:30").unwrap();
    assert_eq!(t.year, 1999);
    assert_eq!(t.nanos, 0);
    assert!(t.offset_negative);
    assert_eq!(t.offset_hours, 5);
    assert_eq!(t.offset_minutes, 30);
    assert_eq!(t.offset_seconds(), -(5 * 3600 + 30 * 60));
}

#[test]
fn timestamp_rejects_deviating_patterns() {
    assert!(parse_timestamp("2024-01-15 12:34:56+01:00").is_err());
    assert!(parse_timestamp("2024-01-15T12:34:56").is_err());
    assert!(parse_timestamp("2024-13-15T12:34:56+01:00").is_err());
    assert!(parse_timestamp("2024-01-15T12:34:56+0100").is_err());
    assert!(parse_timestamp("not a timestamp").is_err());
    assert_eq!(
        parse_timestamp("2024-01-15T12:34:56.+01:00").unwrap_err(),
        DecodeError::MalformedTimestamp
    );
}

#[test]
fn timestamp_rejects_calendar_impossible_days() {
    assert!(parse_timestamp("2024-02-31T00:00:00+01:00").is_err());
    assert!(parse_timestamp("2023-02-29T00:00:00+01:00").is_err());
    assert!(parse_timestamp("2024-04-31T00:00:00+01:00").is_err());
    assert!(parse_timestamp("1900-02-29T00:00:00+01:00").is_err());
    assert!(parse_timestamp("2024-02-29T00:00:00+01:00").is_ok());
    assert!(parse_timestamp("2000-02-29T00:00:00+01:00").is_ok());
    assert!(parse_timestamp("2024-01-31T00:00:00+01:00").is_ok());
}

#[test]
fn message_codes_cover_the_closed_set() {
    assert_eq!(message_code_from(1).unwrap(), MessageCode::OK);
    assert_eq!(message_code_from(311).unwrap(), MessageCode::DbOffline);
    assert_eq!(message_code_from(312).unwrap(), MessageCode::StopDoesNotExist);
    assert_eq!(message_code_from(316).unwrap(), MessageCode::RequestLimitExceeded);
    assert_eq!(message_code_from(320).unwrap(), MessageCode::GetParamInvalid);
    assert_eq!(message_code_from(321).unwrap(), MessageCode::GetParamMissing);
    assert_eq!(message_code_from(322).unwrap(), MessageCode::NoDataFound);
    assert_eq!(message_code_from(322).unwrap().code(), 322);
    assert_eq!(message_code_from(2).unwrap_err(), DecodeError::UnknownMessageCode);
    assert_eq!(message_code_from(0).unwrap_err(), DecodeError::UnknownMessageCode);
    assert_eq!(message_code_from(-1).unwrap_err(), DecodeError::UnknownMessageCode);
}

#[test]
fn unknown_status_code_fails_decode() {
    let body = r#"{"value": "x", "messageCode": 999, "serverTime": "2024-01-15T12:34:56.000+01:00"}"#;
    assert_eq!(parse_message(body).unwrap_err(), DecodeError::UnknownMessageCode);
}

#[test]
fn malformed_server_time_fails_decode() {
    let body = r#"{"value": "x", "messageCode": 1, "serverTime": "2024-01-15"}"#;
    assert_eq!(parse_message(body).unwrap_err(), DecodeError::MalformedTimestamp);
}

#[test]
fn good_message_decodes_completely() {
    let body = r#"{"value": "OK", "messageCode": 316, "serverTime": "2024-01-15T12:34:56.5+01:00"}"#;
    let m = parse_message(body).unwrap();
    assert_eq!(m.value, "OK");
    assert_eq!(m.message_code, MessageCode::RequestLimitExceeded);
    assert_eq!(m.server_time.nanos, 500_000_000);
}

#[test]
fn malformed_json_fails_decode() {
    assert_eq!(
        decode_monitor_response("{\"data\": ").unwrap_err(),
        DecodeError::MalformedJson
    );
    assert_eq!(decode_monitor_response("").unwrap_err(), DecodeError::MalformedJson);
}

#[test]
fn missing_required_field_fails_decode() {
    let body = r#"{"messageCode": 1, "serverTime": "2024-01-15T12:34:56.000+01:00"}"#;
    assert_eq!(parse_message(body).unwrap_err(), DecodeError::MissingField);
}

#[test]
fn mistyped_field_fails_decode() {
    let body = r#"{"value": 42, "messageCode": 1, "serverTime": "2024-01-15T12:34:56.000+01:00"}"#;
    assert_eq!(parse_message(body).unwrap_err(), DecodeError::TypeMismatch);
}

#[test]
fn string_escapes_are_decoded() {
    let body = r#"{"value": "A line\nbreak \"quoted\" \u0041", "messageCode": 1, "serverTime": "2024-01-15T12:34:56.000+01:00"}"#;
    let m = parse_message(body).unwrap();
    assert_eq!(m.value, "A line\nbreak \"quoted\" A");
}

#[test]
fn empty_section_differs_from_absent_section() {
    let absent = r#"{
        "data": {},
        "message": {"value": "OK", "messageCode": 1, "serverTime": "2024-01-15T12:34:56.000+01:00"}
    }"#;
    let empty = r#"{
        "data": {"trafficInfos": []},
        "message": {"value": "OK", "messageCode": 1, "serverTime": "2024-01-15T12:34:56.000+01:00"}
    }"#;
    let r_absent = decode_traffic_info_list_response(absent).unwrap();
    let r_empty = decode_traffic_info_list_response(empty).unwrap();
    assert!(r_absent.data.traffic_infos.is_none());
    assert_eq!(r_empty.data.traffic_infos.unwrap().len(), 0);
}

#[test]
fn coordinates_keep_their_wire_text() {
    let body = r#"{
        "data": {"monitors": [{
            "locationStop": {
                "type": "Feature",
                "geometry": {"type": "Point", "coordinates": [16.372134, -48, 7]},
                "properties": {
                    "name": "n", "title": "t", "municipality": "m",
                    "municipalityId": 1, "type": "stop", "coordName": "WGS84",
                    "attributes": {"rbl": 5}
                }
            },
            "lines": []
        }]},
        "message": {"value": "OK", "messageCode": 1, "serverTime": "2024-01-15T12:34:56.000+01:00"}
    }"#;
    let r = decode_monitor_response(body).unwrap();
    let geom = &r.data.monitors[0].location_stop.geometry;
    assert_eq!(geom.coordinates, vec!["16.372134", "-48", "7"]);
    assert!(r.data.monitors[0].ref_traffic_info_names.is_none());
}

#[test]
fn query_round_trip_recovers_pairs() {
    let mut request = MonitorRequest::new();
    request.stop_id.push(123);
    request.stop_id.push(456);
    request.diva = Some(999);
    request
        .activate_traffic_info
        .push(ExtTrafficInfoEnum::Information);
    request
        .activate_traffic_info
        .push(ExtTrafficInfoEnum::TrafficInfo(TrafficInfoEnum::StoerungKurz));
    request.a_area = true;
    let url = request.build_request_url();
    let query = url.strip_prefix("/monitor?").unwrap();
    let pairs: Vec<(&str, &str)> = query
        .split('&')
        .map(|frag| frag.split_once('=').unwrap())
        .collect();
    assert_eq!(
        pairs,
        vec![
            ("stopId", "123"),
            ("stopId", "456"),
            ("diva", "999"),
            ("activateTrafficInfo", "information"),
            ("activateTrafficInfo", "stoerungkurz"),
            ("aArea", "1"),
        ]
    );
}

#[test]
fn all_tokens_are_distinct() {
    let tokens = vec![
        TrafficInfoEnum::StoerungLang.token(),
        TrafficInfoEnum::StoerungKurz.token(),
        TrafficInfoEnum::AufzugsInfo.token(),
        TrafficInfoEnum::FahrtreppenInfo.token(),
        ExtTrafficInfoEnum::Information.token(),
    ];
    for i in 0..tokens.len() {
        for j in 0..tokens.len() {
            if i != j {
                assert_ne!(tokens[i], tokens[j]);
            }
        }
    }
}

#[test]
fn default_requests_are_empty() {
    let m = MonitorRequest::default();
    assert_eq!(m, MonitorRequest::new());
    let t = wiener_linien_ogd::models::TrafficInfoListRequest::default();
    assert_eq!(t, wiener_linien_ogd::models::TrafficInfoListRequest::new());
    assert_eq!(m.build_request_url(), "/monitor?");
    assert_eq!(t.build_request_url(), "/trafficInfoList?");
}

#[test]
fn departure_times_decode_with_optional_realtime() {
    let body = r#"{
        "timePlanned": "2024-01-15T12:34:00.000+01:00",
        "countdown": 3
    }"#;
    let tree = parse_json(body).unwrap();
    let dt = wiener_linien_ogd::decode::decode_departure_time(&tree).unwrap();
    assert!(dt.time_real.is_none());
    assert_eq!(dt.countdown, 3);
    assert_eq!(dt.time_planned.minute, 34);
}
