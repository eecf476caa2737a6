//! The response data model: typed structures mirroring the service's JSON
//! schema, their spec-level views, and the closed status-code set.
use vstd::prelude::*;

use crate::error::DecodeError;
use crate::timestamp::Timestamp;

verus! {

/// The closed set of service status codes; any other numeric code is a
/// decode failure, not a value of this type.
#[derive(Debug, Clone, Copy, PartialEq, Eq, Structural, Hash)]
pub enum MessageCode {
    OK,
    DbOffline,
    StopDoesNotExist,
    RequestLimitExceeded,
    GetParamInvalid,
    GetParamMissing,
    NoDataFound,
}

impl MessageCode {
    /// The numeric wire value of this code.
    pub open spec fn spec_code(self) -> int {
        match self {
            MessageCode::OK => 1,
            MessageCode::DbOffline => 311,
            MessageCode::StopDoesNotExist => 312,
            MessageCode::RequestLimitExceeded => 316,
            MessageCode::GetParamInvalid => 320,
            MessageCode::GetParamMissing => 321,
            MessageCode::NoDataFound => 322,
        }
    }

    /// The numeric wire value of this code.
    pub fn code(&self) -> (r: u32)
        ensures
            r as int == self.spec_code(),
    {
        match self {
            MessageCode::OK => 1,
            MessageCode::DbOffline => 311,
            MessageCode::StopDoesNotExist => 312,
            MessageCode::RequestLimitExceeded => 316,
            MessageCode::GetParamInvalid => 320,
            MessageCode::GetParamMissing => 321,
            MessageCode::NoDataFound => 322,
        }
    }
}

/// The status code for a numeric wire value, if it is in the closed set.
pub open spec fn code_from(n: int) -> Option<MessageCode> {
    if n == 1 {
        Some(MessageCode::OK)
    } else if n == 311 {
        Some(MessageCode::DbOffline)
    } else if n == 312 {
        Some(MessageCode::StopDoesNotExist)
    } else if n == 316 {
        Some(MessageCode::RequestLimitExceeded)
    } else if n == 320 {
        Some(MessageCode::GetParamInvalid)
    } else if n == 321 {
        Some(MessageCode::GetParamMissing)
    } else if n == 322 {
        Some(MessageCode::NoDataFound)
    } else {
        None
    }
}

/// Map a numeric wire value into the closed code set; every value outside
/// the set is an unknown-message-code failure, never silently accepted.
pub fn message_code_from(n: i64) -> (r: Result<MessageCode, DecodeError>)
    ensures
        r == match code_from(n as int) {
            Some(c) => Ok::<MessageCode, DecodeError>(c),
            None => Err::<MessageCode, DecodeError>(DecodeError::UnknownMessageCode),
        },
{
    if n == 1 {
        Ok(MessageCode::OK)
    } else if n == 311 {
        Ok(MessageCode::DbOffline)
    } else if n == 312 {
        Ok(MessageCode::StopDoesNotExist)
    } else if n == 316 {
        Ok(MessageCode::RequestLimitExceeded)
    } else if n == 320 {
        Ok(MessageCode::GetParamInvalid)
    } else if n == 321 {
        Ok(MessageCode::GetParamMissing)
    } else if n == 322 {
        Ok(MessageCode::NoDataFound)
    } else {
        Err(DecodeError::UnknownMessageCode)
    }
}

/// The service message: free text, a closed status code, and the server's
/// timestamp.
#[derive(Debug, Clone, PartialEq)]
pub struct Message {
    pub value: String,
    pub message_code: MessageCode,
    pub server_time: Timestamp,
}

/// Spec view of `Message`.
pub struct MessageV {
    pub value: Seq<char>,
    pub message_code: MessageCode,
    pub server_time: Timestamp,
}

impl View for Message {
    type V = MessageV;

    open spec fn view(&self) -> MessageV {
        MessageV {
            value: self.value@,
            message_code: self.message_code,
            server_time: self.server_time,
        }
    }
}

/// A bare response envelope holding only the message.
#[derive(Debug, Clone, PartialEq)]
pub struct Response {
    pub message: Message,
}

/// Spec view of `Response`.
pub struct ResponseV {
    pub message: MessageV,
}

impl View for Response {
    type V = ResponseV;

    open spec fn view(&self) -> ResponseV {
        ResponseV { message: self.message@ }
    }
}

/// A stop's geometry: a type tag and the coordinate list. Coordinates keep
/// their decimal wire text.
#[derive(Debug, Clone, PartialEq)]
pub struct Geometry {
    pub geometry_type: String,
    pub coordinates: Vec<String>,
}

/// Spec view of `Geometry`.
pub struct GeometryV {
    pub geometry_type: Seq<char>,
    pub coordinates: Seq<Seq<char>>,
}

impl View for Geometry {
    type V = GeometryV;

    open spec fn view(&self) -> GeometryV {
        GeometryV {
            geometry_type: self.geometry_type@,
            coordinates: self.coordinates@.map_values(|s: String| s@),
        }
    }
}

/// The attribute set of a stop: the station reference number.
#[derive(Debug, Clone, Copy, PartialEq, Eq, Structural, Hash)]
pub struct Attributes {
    pub rbl: i32,
}

/// A stop's properties.
#[derive(Debug, Clone, PartialEq)]
pub struct Properties {
    pub name: String,
    pub title: String,
    pub municipality: String,
    pub municipality_id: i32,
    pub stop_type: String,
    pub coord_name: String,
    pub attributes: Attributes,
}

/// Spec view of `Properties`.
pub struct PropertiesV {
    pub name: Seq<char>,
    pub title: Seq<char>,
    pub municipality: Seq<char>,
    pub municipality_id: i32,
    pub stop_type: Seq<char>,
    pub coord_name: Seq<char>,
    pub attributes: Attributes,
}

impl View for Properties {
    type V = PropertiesV;

    open spec fn view(&self) -> PropertiesV {
        PropertiesV {
            name: self.name@,
            title: self.title@,
            municipality: self.municipality@,
            municipality_id: self.municipality_id,
            stop_type: self.stop_type@,
            coord_name: self.coord_name@,
            attributes: self.attributes,
        }
    }
}

/// A stop: a type tag, geometry, and properties.
#[derive(Debug, Clone, PartialEq)]
pub struct LocationStop {
    pub location_type: String,
    pub geometry: Geometry,
    pub properties: Properties,
}

/// Spec view of `LocationStop`.
pub struct LocationStopV {
    pub location_type: Seq<char>,
    pub geometry: GeometryV,
    pub properties: PropertiesV,
}

impl View for LocationStop {
    type V = LocationStopV;

    open spec fn view(&self) -> LocationStopV {
        LocationStopV {
            location_type: self.location_type@,
            geometry: self.geometry@,
            properties: self.properties@,
        }
    }
}

/// A departure's times: the planned time, an optional realtime estimate,
/// and the countdown in minutes.
#[derive(Debug, Clone, Copy, PartialEq)]
pub struct DepartureTime {
    pub time_planned: Timestamp,
    pub time_real: Option<Timestamp>,
    pub countdown: i32,
}

/// A vehicle serving a departure.
#[derive(Debug, Clone, PartialEq)]
pub struct Vehicle {
    pub name: String,
    pub towards: String,
    pub direction: String,
    pub richtungs_id: String,
    pub barrier_free: bool,
    pub realtime_supported: bool,
    pub trafficjam: bool,
    pub vehicle_type: String,
}

/// Spec view of `Vehicle`.
pub struct VehicleV {
    pub name: Seq<char>,
    pub towards: Seq<char>,
    pub direction: Seq<char>,
    pub richtungs_id: Seq<char>,
    pub barrier_free: bool,
    pub realtime_supported: bool,
    pub trafficjam: bool,
    pub vehicle_type: Seq<char>,
}

impl View for Vehicle {
    type V = VehicleV;

    open spec fn view(&self) -> VehicleV {
        VehicleV {
            name: self.name@,
            towards: self.towards@,
            direction: self.direction@,
            richtungs_id: self.richtungs_id@,
            barrier_free: self.barrier_free,
            realtime_supported: self.realtime_supported,
            trafficjam: self.trafficjam,
            vehicle_type: self.vehicle_type@,
        }
    }
}

/// One departure: its times and an optional vehicle.
#[derive(Debug, Clone, PartialEq)]
pub struct Departure {
    pub departure_time: DepartureTime,
    pub vehicle: Option<Vehicle>,
}

/// Spec view of `Departure`.
pub struct DepartureV {
    pub departure_time: DepartureTime,
    pub vehicle: Option<VehicleV>,
}

impl View for Departure {
    type V = DepartureV;

    open spec fn view(&self) -> DepartureV {
        DepartureV {
            departure_time: self.departure_time,
            vehicle: match self.vehicle {
                Some(v) => Some(v@),
                None => None,
            },
        }
    }
}

/// The departure list of a line.
#[derive(Debug, Clone, PartialEq)]
pub struct Departures {
    pub departure: Vec<Departure>,
}

/// Spec view of `Departures`.
pub struct DeparturesV {
    pub departure: Seq<DepartureV>,
}

impl View for Departures {
    type V = DeparturesV;

    open spec fn view(&self) -> DeparturesV {
        DeparturesV { departure: self.departure@.map_values(|d: Departure| d@) }
    }
}

/// A line at a stop, with its departures.
#[derive(Debug, Clone, PartialEq)]
pub struct Line {
    pub name: String,
    pub towards: String,
    pub direction: String,
    pub richtungs_id: String,
    pub barrier_free: bool,
    pub realtime_supported: bool,
    pub trafficjam: bool,
    pub departures: Departures,
    pub line_type: String,
    pub line_id: Option<i32>,
}

/// Spec view of `Line`.
pub struct LineV {
    pub name: Seq<char>,
    pub towards: Seq<char>,
    pub direction: Seq<char>,
    pub richtungs_id: Seq<char>,
    pub barrier_free: bool,
    pub realtime_supported: bool,
    pub trafficjam: bool,
    pub departures: DeparturesV,
    pub line_type: Seq<char>,
    pub line_id: Option<i32>,
}

impl View for Line {
    type V = LineV;

    open spec fn view(&self) -> LineV {
        LineV {
            name: self.name@,
            towards: self.towards@,
            direction: self.direction@,
            richtungs_id: self.richtungs_id@,
            barrier_free: self.barrier_free,
            realtime_supported: self.realtime_supported,
            trafficjam: self.trafficjam,
            departures: self.departures@,
            line_type: self.line_type@,
            line_id: self.line_id,
        }
    }
}

/// One monitor entry: a stop, its lines, and optional referenced
/// traffic-info names.
#[derive(Debug, Clone, PartialEq)]
pub struct Monitor {
    pub location_stop: LocationStop,
    pub lines: Vec<Line>,
    pub ref_traffic_info_names: Option<Vec<String>>,
}

/// Spec view of `Monitor`.
pub struct MonitorV {
    pub location_stop: LocationStopV,
    pub lines: Seq<LineV>,
    pub ref_traffic_info_names: Option<Seq<Seq<char>>>,
}

impl View for Monitor {
    type V = MonitorV;

    open spec fn view(&self) -> MonitorV {
        MonitorV {
            location_stop: self.location_stop@,
            lines: self.lines@.map_values(|l: Line| l@),
            ref_traffic_info_names: match self.ref_traffic_info_names {
                Some(ns) => Some(ns@.map_values(|s: String| s@)),
                None => None,
            },
        }
    }
}

/// A traffic info's optional time window.
#[derive(Debug, Clone, Copy, PartialEq)]
pub struct Time {
    pub start: Option<Timestamp>,
    pub end: Option<Timestamp>,
    pub resume: Option<Timestamp>,
}

/// The optional attribute bag of a traffic info.
#[derive(Debug, Clone, PartialEq)]
pub struct AttributesTrafficInfo {
    pub status: Option<String>,
    pub station: Option<String>,
    pub location: Option<String>,
    pub reason: Option<String>,
    pub towards: Option<String>,
    pub related_lines: Option<Vec<String>>,
    pub related_stops: Option<Vec<u32>>,
}

/// Spec view of `AttributesTrafficInfo`.
pub struct AttributesTrafficInfoV {
    pub status: Option<Seq<char>>,
    pub station: Option<Seq<char>>,
    pub location: Option<Seq<char>>,
    pub reason: Option<Seq<char>>,
    pub towards: Option<Seq<char>>,
    pub related_lines: Option<Seq<Seq<char>>>,
    pub related_stops: Option<Seq<u32>>,
}

/// The view of an optional text field.
pub open spec fn view_opt_text(o: Option<String>) -> Option<Seq<char>> {
    match o {
        Some(s) => Some(s@),
        None => None,
    }
}

/// The view of an optional text-list field.
pub open spec fn view_opt_texts(o: Option<Vec<String>>) -> Option<Seq<Seq<char>>> {
    match o {
        Some(v) => Some(v@.map_values(|s: String| s@)),
        None => None,
    }
}

impl View for AttributesTrafficInfo {
    type V = AttributesTrafficInfoV;

    open spec fn view(&self) -> AttributesTrafficInfoV {
        AttributesTrafficInfoV {
            status: view_opt_text(self.status),
            station: view_opt_text(self.station),
            location: view_opt_text(self.location),
            reason: view_opt_text(self.reason),
            towards: view_opt_text(self.towards),
            related_lines: view_opt_texts(self.related_lines),
            related_stops: match self.related_stops {
                Some(v) => Some(v@),
                None => None,
            },
        }
    }
}

/// One traffic disruption or information entry.
#[derive(Debug, Clone, PartialEq)]
pub struct TrafficInfo {
    pub ref_traffic_info_category_id: i32,
    pub name: String,
    pub priority: Option<String>,
    pub owner: Option<String>,
    pub title: String,
    pub description: String,
    pub time: Option<Time>,
    pub attributes: Option<AttributesTrafficInfo>,
    pub related_lines: Option<Vec<String>>,
    pub related_stops: Option<Vec<i32>>,
}

/// Spec view of `TrafficInfo`.
pub struct TrafficInfoV {
    pub ref_traffic_info_category_id: i32,
    pub name: Seq<char>,
    pub priority: Option<Seq<char>>,
    pub owner: Option<Seq<char>>,
    pub title: Seq<char>,
    pub description: Seq<char>,
    pub time: Option<Time>,
    pub attributes: Option<AttributesTrafficInfoV>,
    pub related_lines: Option<Seq<Seq<char>>>,
    pub related_stops: Option<Seq<i32>>,
}

impl View for TrafficInfo {
    type V = TrafficInfoV;

    open spec fn view(&self) -> TrafficInfoV {
        TrafficInfoV {
            ref_traffic_info_category_id: self.ref_traffic_info_category_id,
            name: self.name@,
            priority: view_opt_text(self.priority),
            owner: view_opt_text(self.owner),
            title: self.title@,
            description: self.description@,
            time: self.time,
            attributes: match self.attributes {
                Some(a) => Some(a@),
                None => None,
            },
            related_lines: view_opt_texts(self.related_lines),
            related_stops: match self.related_stops {
                Some(v) => Some(v@),
                None => None,
            },
        }
    }
}

/// Static lookup metadata for a traffic-info category.
#[derive(Debug, Clone, PartialEq)]
pub struct TrafficInfoCategory {
    pub id: i32,
    pub ref_traffic_info_category_group_id: i32,
    pub name: String,
    pub traffic_info_name_list: String,
    pub title: String,
}

/// Spec view of `TrafficInfoCategory`.
pub struct TrafficInfoCategoryV {
    pub id: i32,
    pub ref_traffic_info_category_group_id: i32,
    pub name: Seq<char>,
    pub traffic_info_name_list: Seq<char>,
    pub title: Seq<char>,
}

impl View for TrafficInfoCategory {
    type V = TrafficInfoCategoryV;

    open spec fn view(&self) -> TrafficInfoCategoryV {
        TrafficInfoCategoryV {
            id: self.id,
            ref_traffic_info_category_group_id: self.ref_traffic_info_category_group_id,
            name: self.name@,
            traffic_info_name_list: self.traffic_info_name_list@,
            title: self.title@,
        }
    }
}

/// Static lookup metadata for a traffic-info category group.
#[derive(Debug, Clone, PartialEq)]
pub struct TrafficInfoCategoryGroup {
    pub id: i32,
    pub name: String,
}

/// Spec view of `TrafficInfoCategoryGroup`.
pub struct TrafficInfoCategoryGroupV {
    pub id: i32,
    pub name: Seq<char>,
}

impl View for TrafficInfoCategoryGroup {
    type V = TrafficInfoCategoryGroupV;

    open spec fn view(&self) -> TrafficInfoCategoryGroupV {
        TrafficInfoCategoryGroupV { id: self.id, name: self.name@ }
    }
}

/// The payload of a monitor response: the monitors and the optional
/// traffic-info sections; an absent section is distinct from an empty one.
#[derive(Debug, Clone, PartialEq)]
pub struct MonitorResponseData {
    pub monitors: Vec<Monitor>,
    pub traffic_infos: Option<Vec<TrafficInfo>>,
    pub traffic_info_categories: Option<Vec<TrafficInfoCategory>>,
    pub traffic_info_category_groups: Option<Vec<TrafficInfoCategoryGroup>>,
}

/// Spec view of `MonitorResponseData`.
pub struct MonitorResponseDataV {
    pub monitors: Seq<MonitorV>,
    pub traffic_infos: Option<Seq<TrafficInfoV>>,
    pub traffic_info_categories: Option<Seq<TrafficInfoCategoryV>>,
    pub traffic_info_category_groups: Option<Seq<TrafficInfoCategoryGroupV>>,
}

impl View for MonitorResponseData {
    type V = MonitorResponseDataV;

    open spec fn view(&self) -> MonitorResponseDataV {
        MonitorResponseDataV {
            monitors: self.monitors@.map_values(|m: Monitor| m@),
            traffic_infos: match self.traffic_infos {
                Some(v) => Some(v@.map_values(|t: TrafficInfo| t@)),
                None => None,
            },
            traffic_info_categories: match self.traffic_info_categories {
                Some(v) => Some(v@.map_values(|c: TrafficInfoCategory| c@)),
                None => None,
            },
            traffic_info_category_groups: match self.traffic_info_category_groups {
                Some(v) => Some(v@.map_values(|g: TrafficInfoCategoryGroup| g@)),
                None => None,
            },
        }
    }
}

/// A full monitor response: the message and the payload.
#[derive(Debug, Clone, PartialEq)]
pub struct MonitorResponse {
    pub message: Message,
    pub data: MonitorResponseData,
}

/// Spec view of `MonitorResponse`.
pub struct MonitorResponseV {
    pub message: MessageV,
    pub data: MonitorResponseDataV,
}

impl View for MonitorResponse {
    type V = MonitorResponseV;

    open spec fn view(&self) -> MonitorResponseV {
        MonitorResponseV { message: self.message@, data: self.data@ }
    }
}

/// The payload of a traffic-info-list response: the optional traffic-info
/// sections; an absent section is distinct from an empty one.
#[derive(Debug, Clone, PartialEq)]
pub struct TrafficInfoListResponseData {
    pub traffic_infos: Option<Vec<TrafficInfo>>,
    pub traffic_info_categories: Option<Vec<TrafficInfoCategory>>,
    pub traffic_info_category_groups: Option<Vec<TrafficInfoCategoryGroup>>,
}

/// Spec view of `TrafficInfoListResponseData`.
pub struct TrafficInfoListResponseDataV {
    pub traffic_infos: Option<Seq<TrafficInfoV>>,
    pub traffic_info_categories: Option<Seq<TrafficInfoCategoryV>>,
    pub traffic_info_category_groups: Option<Seq<TrafficInfoCategoryGroupV>>,
}

impl View for TrafficInfoListResponseData {
    type V = TrafficInfoListResponseDataV;

    open spec fn view(&self) -> TrafficInfoListResponseDataV {
        TrafficInfoListResponseDataV {
            traffic_infos: match self.traffic_infos {
                Some(v) => Some(v@.map_values(|t: TrafficInfo| t@)),
                None => None,
            },
            traffic_info_categories: match self.traffic_info_categories {
                Some(v) => Some(v@.map_values(|c: TrafficInfoCategory| c@)),
                None => None,
            },
            traffic_info_category_groups: match self.traffic_info_category_groups {
                Some(v) => Some(v@.map_values(|g: TrafficInfoCategoryGroup| g@)),
                None => None,
            },
        }
    }
}

/// A full traffic-info-list response: the message and the payload.
#[derive(Debug, Clone, PartialEq)]
pub struct TrafficInfoListResponse {
    pub message: Message,
    pub data: TrafficInfoListResponseData,
}

/// Spec view of `TrafficInfoListResponse`.
pub struct TrafficInfoListResponseV {
    pub message: MessageV,
    pub data: TrafficInfoListResponseDataV,
}

impl View for TrafficInfoListResponse {
    type V = TrafficInfoListResponseV;

    open spec fn view(&self) -> TrafficInfoListResponseV {
        TrafficInfoListResponseV { message: self.message@, data: self.data@ }
    }
}

} // verus!
