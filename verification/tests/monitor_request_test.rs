use wiener_linien_ogd::decode::decode_monitor_response;
use wiener_linien_ogd::models::{BuildRequestUrl, ExtTrafficInfoEnum, MonitorRequest, TrafficInfoEnum};

#[test]
fn monitor_request_test_test_build_request_url_empty() {
    let request = MonitorRequest::new();
    assert_eq!("/monitor?", request.build_request_url());
}

#[test]
fn test_build_request_url_with_stop_id() {
    let mut request = MonitorRequest::new();
    request.stop_id.push(123);
    assert_eq!("/monitor?stopId=123", request.build_request_url());
}

#[test]
fn test_build_request_url_with_multiple_stop_ids() {
    let mut request = MonitorRequest::new();
    request.stop_id.push(123);
    request.stop_id.push(456);
    assert_eq!(
        "/monitor?stopId=123&stopId=456",
        request.build_request_url()
    );
}

#[test]
fn test_build_request_url_with_diva() {
    let mut request = MonitorRequest::new();
    request.diva = Some(999);
    assert_eq!("/monitor?diva=999", request.build_request_url());
}

#[test]
fn test_build_request_url_with_traffic_info() {
    let mut request = MonitorRequest::new();
    request
        .activate_traffic_info
        .push(ExtTrafficInfoEnum::TrafficInfo(
            TrafficInfoEnum::FahrtreppenInfo,
        ));
    assert_eq!(
        "/monitor?activateTrafficInfo=fahrtreppeninfo",
        request.build_request_url()
    );
}

#[test]
fn test_build_request_url_with_multiple_traffic_info() {
    let mut request = MonitorRequest::new();
    request
        .activate_traffic_info
        .push(ExtTrafficInfoEnum::TrafficInfo(
            TrafficInfoEnum::FahrtreppenInfo,
        ));
    request
        .activate_traffic_info
        .push(ExtTrafficInfoEnum::TrafficInfo(
            TrafficInfoEnum::AufzugsInfo,
        ));
    assert_eq!(
        "/monitor?activateTrafficInfo=fahrtreppeninfo&activateTrafficInfo=aufzugsinfo",
        request.build_request_url()
    );
}

#[test]
fn test_build_request_url_with_a_area() {
    let mut request = MonitorRequest::new();
    request.a_area = true;
    assert_eq!("/monitor?aArea=1", request.build_request_url());
}

#[test]
fn test_build_request_url_with_all_parameters() {
    let mut request = MonitorRequest::new();
    request.stop_id.push(123);
    request.stop_id.push(456);
    request.diva = Some(999);
    request
        .activate_traffic_info
        .push(ExtTrafficInfoEnum::TrafficInfo(
            TrafficInfoEnum::FahrtreppenInfo,
        ));
    request
        .activate_traffic_info
        .push(ExtTrafficInfoEnum::TrafficInfo(
            TrafficInfoEnum::AufzugsInfo,
        ));
    request.a_area = true;
    assert_eq!("/monitor?stopId=123&stopId=456&diva=999&activateTrafficInfo=fahrtreppeninfo&activateTrafficInfo=aufzugsinfo&aArea=1", request.build_request_url());
}

fn get_mock_data() -> String {
    let monitor = r#"{
        "locationStop": {
            "type": "Feature",
            "geometry": {"type": "Point", "coordinates": [16.37, 48.21]},
            "properties": {
                "name": "60201095",
                "title": "Karlsplatz",
                "municipality": "Wien",
                "municipalityId": 90001,
                "type": "stop",
                "coordName": "WGS84",
                "attributes": {"rbl": 1095}
            }
        },
        "lines": [
            {
                "name": "U1",
                "towards": "Leopoldau",
                "direction": "H",
                "richtungsId": "1",
                "barrierFree": true,
                "realtimeSupported": true,
                "trafficjam": false,
                "departures": {
                    "departure": [
                        {
                            "departureTime": {
                                "timePlanned": "2024-01-15T12:34:00.000+01:00",
                                "timeReal": "2024-01-15T12:34:30.000+01:00",
                                "countdown": 3
                            },
                            "vehicle": {
                                "name": "U1",
                                "towards": "Leopoldau",
                                "direction": "H",
                                "richtungsId": "1",
                                "barrierFree": true,
                                "realtimeSupported": true,
                                "trafficjam": false,
                                "type": "ptMetro"
                            }
                        }
                    ]
                },
                "type": "ptMetro",
                "lineId": 301
            }
        ],
        "refTrafficInfoNames": ["ti_1"]
    }"#;
    format!(
        r#"{{
            "data": {{"monitors": [{m}, {m}]}},
            "message": {{
                "value": "OK",
                "messageCode": 1,
                "serverTime": "2024-01-15T12:34:56.000+01:00"
            }}
        }}"#,
        m = monitor
    )
}

#[test]
fn test_parse_monitor_response() {
    let buffer = get_mock_data();
    let response = decode_monitor_response(&buffer).unwrap();
    assert_eq!(response.data.monitors.len(), 2);
}
