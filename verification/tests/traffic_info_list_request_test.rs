use wiener_linien_ogd::decode::decode_traffic_info_list_response;
use wiener_linien_ogd::models::{BuildRequestUrl, TrafficInfoEnum, TrafficInfoListRequest};

#[test]
fn traffic_info_list_request_test_test_build_request_url_empty() {
    let request = TrafficInfoListRequest::new();
    assert_eq!("/trafficInfoList?", request.build_request_url());
}

#[test]
fn test_build_request_url_with_related_line() {
    let mut request = TrafficInfoListRequest::new();
    request.related_line.push(String::from("A1"));
    assert_eq!(
        "/trafficInfoList?relatedLine=A1",
        request.build_request_url()
    );
}

#[test]
fn test_build_request_url_with_multiple_related_lines() {
    let mut request = TrafficInfoListRequest::new();
    request.related_line.push(String::from("A1"));
    request.related_line.push(String::from("A2"));
    assert_eq!(
        "/trafficInfoList?relatedLine=A1&relatedLine=A2",
        request.build_request_url()
    );
}

#[test]
fn test_build_request_url_with_related_stop() {
    let mut request = TrafficInfoListRequest::new();
    request.related_stop.push(1);
    assert_eq!(
        "/trafficInfoList?relatedStop=1",
        request.build_request_url()
    );
}

#[test]
fn test_build_request_url_with_multiple_related_stops() {
    let mut request = TrafficInfoListRequest::new();
    request.related_stop.push(1);
    request.related_stop.push(2);
    assert_eq!(
        "/trafficInfoList?relatedStop=1&relatedStop=2",
        request.build_request_url()
    );
}

#[test]
fn test_build_request_url_with_name() {
    let mut request = TrafficInfoListRequest::new();
    request.name.push(TrafficInfoEnum::StoerungLang);
    assert_eq!(
        "/trafficInfoList?name=stoerunglang",
        request.build_request_url()
    );
}

#[test]
fn test_build_request_url_with_multiple_names() {
    let mut request = TrafficInfoListRequest::new();
    request.name.push(TrafficInfoEnum::StoerungLang);
    request.name.push(TrafficInfoEnum::AufzugsInfo);
    assert_eq!(
        "/trafficInfoList?name=stoerunglang&name=aufzugsinfo",
        request.build_request_url()
    );
}

#[test]
fn test_build_request_url_with_related_line_stop_and_name() {
    let mut request = TrafficInfoListRequest::new();
    request.related_line.push(String::from("A1"));
    request.related_stop.push(1);
    request.name.push(TrafficInfoEnum::StoerungLang);
    assert_eq!(
        "/trafficInfoList?relatedLine=A1&relatedStop=1&name=stoerunglang",
        request.build_request_url()
    );
}

#[test]
fn test_build_request_url_with_multiple_related_lines_stops_and_names() {
    let mut request = TrafficInfoListRequest::new();
    request.related_line.push(String::from("A1"));
    request.related_line.push(String::from("A2"));
    request.related_stop.push(1);
    request.related_stop.push(2);
    request.name.push(TrafficInfoEnum::StoerungLang);
    request.name.push(TrafficInfoEnum::AufzugsInfo);
    assert_eq!(
        "/trafficInfoList?relatedLine=A1&relatedLine=A2&relatedStop=1&relatedStop=2&name=stoerunglang&name=aufzugsinfo",
        request.build_request_url()
    );
}

fn get_mock_data() -> String {
    let mut infos = String::new();
    for i in 0..17 {
        if i > 0 {
            infos.push_str(",");
        }
        infos.push_str(&format!(
            r#"{{
                "refTrafficInfoCategoryId": 1,
                "name": "stoerung_{}",
                "priority": "high",
                "title": "Disruption",
                "description": "Service interrupted",
                "time": {{
                    "start": "2024-01-15T08:00:00.000+01:00",
                    "end": "2024-01-15T18:00:00.000+01:00"
                }},
                "attributes": {{
                    "status": "active",
                    "relatedLines": ["U4"],
                    "relatedStops": [1095]
                }},
                "relatedLines": ["U4"]
            }}"#,
            i
        ));
    }
    format!(
        r#"{{
            "data": {{
                "trafficInfos": [{infos}],
                "trafficInfoCategories": [
                    {{
                        "id": 1,
                        "refTrafficInfoCategoryGroupId": 1,
                        "name": "stoerunglang",
                        "trafficInfoNameList": "stoerung_0",
                        "title": "Langfristige Stoerungen"
                    }},
                    {{
                        "id": 2,
                        "refTrafficInfoCategoryGroupId": 1,
                        "name": "stoerungkurz",
                        "trafficInfoNameList": "",
                        "title": "Kurzfristige Stoerungen"
                    }}
                ],
                "trafficInfoCategoryGroups": [
                    {{"id": 1, "name": "Stoerungen"}}
                ]
            }},
            "message": {{
                "value": "OK",
                "messageCode": 1,
                "serverTime": "2024-01-15T12:34:56.000+01:00"
            }}
        }}"#,
        infos = infos
    )
}

#[test]
fn test_parse_traffic_info_list_response() {
    let buffer = get_mock_data();
    let response = decode_traffic_info_list_response(&buffer).unwrap();
    assert_eq!(response.data.traffic_infos.unwrap().len(), 17);
    assert_eq!(response.data.traffic_info_categories.unwrap().len(), 2);
    assert_eq!(response.data.traffic_info_category_groups.unwrap().len(), 1);
}
