//! Request builders and the enum token tables: the two request value types,
//! the traffic-info token enums, and the query-string serialization with its
//! fixed field-emission order.
use vstd::prelude::*;
use vstd::string::*;

use crate::helpers::dec_str;
use crate::helpers::join_amp;
use crate::helpers::join_segments;
use crate::helpers::join_vec;
use crate::helpers::spec_join_vec;
use crate::helpers::views_of;
use crate::helpers::WireText;

verus! {

/// A traffic-info category; each variant has a fixed lowercase wire token.
#[derive(Debug, Clone, PartialEq, Eq, Structural)]
pub enum TrafficInfoEnum {
    StoerungLang,
    StoerungKurz,
    AufzugsInfo,
    FahrtreppenInfo,
}

impl TrafficInfoEnum {
    /// The fixed wire token of this category.
    pub open spec fn spec_token(self) -> Seq<char> {
        match self {
            TrafficInfoEnum::StoerungLang => "stoerunglang"@,
            TrafficInfoEnum::StoerungKurz => "stoerungkurz"@,
            TrafficInfoEnum::AufzugsInfo => "aufzugsinfo"@,
            TrafficInfoEnum::FahrtreppenInfo => "fahrtreppeninfo"@,
        }
    }

    /// Render the wire token.
    pub fn token(&self) -> (s: &'static str)
        ensures
            s@ == self.spec_token(),
    {
        match self {
            TrafficInfoEnum::StoerungLang => "stoerunglang",
            TrafficInfoEnum::StoerungKurz => "stoerungkurz",
            TrafficInfoEnum::AufzugsInfo => "aufzugsinfo",
            TrafficInfoEnum::FahrtreppenInfo => "fahrtreppeninfo",
        }
    }
}

impl WireText for TrafficInfoEnum {
    open spec fn wire_view(&self) -> Seq<char> {
        self.spec_token()
    }

    fn wire_text(&self) -> (s: String) {
        String::from_str(self.token())
    }
}

/// An activation flag: either a traffic-info category, whose token it
/// borrows, or the standalone `information` marker.
#[derive(Debug, Clone, PartialEq, Eq, Structural)]
pub enum ExtTrafficInfoEnum {
    TrafficInfo(TrafficInfoEnum),
    Information,
}

impl ExtTrafficInfoEnum {
    /// The fixed wire token of this flag.
    pub open spec fn spec_token(self) -> Seq<char> {
        match self {
            ExtTrafficInfoEnum::TrafficInfo(c) => c.spec_token(),
            ExtTrafficInfoEnum::Information => "information"@,
        }
    }

    /// Render the wire token.
    pub fn token(&self) -> (s: &'static str)
        ensures
            s@ == self.spec_token(),
    {
        match self {
            ExtTrafficInfoEnum::TrafficInfo(c) => c.token(),
            ExtTrafficInfoEnum::Information => "information",
        }
    }
}

impl WireText for ExtTrafficInfoEnum {
    open spec fn wire_view(&self) -> Seq<char> {
        self.spec_token()
    }

    fn wire_text(&self) -> (s: String) {
        String::from_str(self.token())
    }
}

/// A type whose values serialize to a request URL (path and query string).
pub trait BuildRequestUrl {
    /// The exact URL text this value serializes to.
    spec fn spec_request_url(&self) -> Seq<char>;

    /// Serialize to the URL text; pure, identical output for identical input.
    fn build_request_url(&self) -> (s: String)
        ensures
            s@ == self.spec_request_url(),
    ;
}

/// A stop/monitor query: stop ids, an optional facility id, traffic-info
/// activation flags, and the area flag.
#[derive(Debug, Clone, PartialEq)]
pub struct MonitorRequest {
    pub stop_id: Vec<u32>,
    pub diva: Option<u32>,
    pub activate_traffic_info: Vec<ExtTrafficInfoEnum>,
    pub a_area: bool,
}

/// The `stopId=` fragments of a monitor query, in input order.
pub open spec fn monitor_stop_fragments(r: MonitorRequest) -> Seq<Seq<char>> {
    spec_join_vec("stopId="@, r.stop_id@)
}

/// The `diva=` fragment of a monitor query: one if the facility id is set,
/// none otherwise.
pub open spec fn monitor_diva_fragments(r: MonitorRequest) -> Seq<Seq<char>> {
    match r.diva {
        Some(d) => seq!["diva="@ + dec_str(d as nat)],
        None => Seq::empty(),
    }
}

/// The `activateTrafficInfo=` fragments of a monitor query, in input order.
pub open spec fn monitor_traffic_info_fragments(r: MonitorRequest) -> Seq<Seq<char>> {
    spec_join_vec("activateTrafficInfo="@, r.activate_traffic_info@)
}

/// The `aArea=1` fragment: exactly one if the area flag is set, none otherwise.
pub open spec fn monitor_area_fragments(r: MonitorRequest) -> Seq<Seq<char>> {
    if r.a_area {
        seq!["aArea=1"@]
    } else {
        Seq::empty()
    }
}

/// All fragments of a monitor query, in the fixed field order:
/// stop ids, then facility id, then traffic-info flags, then area flag.
pub open spec fn monitor_fragments(r: MonitorRequest) -> Seq<Seq<char>> {
    monitor_stop_fragments(r) + monitor_diva_fragments(r) + monitor_traffic_info_fragments(r)
        + monitor_area_fragments(r)
}

impl MonitorRequest {
    /// An empty monitor query: no stops, no facility id, no flags, area off.
    pub fn new() -> (r: Self)
        ensures
            r.stop_id@ == Seq::<u32>::empty(),
            r.diva is None,
            r.activate_traffic_info@ == Seq::<ExtTrafficInfoEnum>::empty(),
            !r.a_area,
    {
        MonitorRequest {
            activate_traffic_info: Vec::new(),
            stop_id: Vec::new(),
            diva: None,
            a_area: false,
        }
    }
}

impl Default for MonitorRequest {
    /// Same value as `MonitorRequest::new`.
    fn default() -> (r: Self)
        ensures
            r.stop_id@ == Seq::<u32>::empty(),
            r.diva is None,
            r.activate_traffic_info@ == Seq::<ExtTrafficInfoEnum>::empty(),
            !r.a_area,
    {
        MonitorRequest::new()
    }
}

impl BuildRequestUrl for MonitorRequest {
    open spec fn spec_request_url(&self) -> Seq<char> {
        "/monitor?"@ + join_amp(monitor_fragments(*self))
    }

    fn build_request_url(&self) -> (s: String) {
        let mut url_segments: Vec<String> = Vec::new();
        if !(self.stop_id.len() == 0) {
            let mut stops = join_vec("stopId=", &self.stop_id);
            url_segments.append(&mut stops);
        }
        assert(views_of(url_segments@) =~= monitor_stop_fragments(*self));
        if self.diva.is_some() {
            let d: u32 = *self.diva.as_ref().unwrap();
            url_segments.push(String::from_str("diva=").concat(crate::helpers::u32_dec(d).as_str()));
        }
        assert(views_of(url_segments@) =~= monitor_stop_fragments(*self)
            + monitor_diva_fragments(*self));
        if !(self.activate_traffic_info.len() == 0) {
            let mut traffic_info = join_vec("activateTrafficInfo=", &self.activate_traffic_info);
            url_segments.append(&mut traffic_info);
        }
        assert(views_of(url_segments@) =~= monitor_stop_fragments(*self)
            + monitor_diva_fragments(*self) + monitor_traffic_info_fragments(*self));
        if self.a_area {
            url_segments.push(String::from_str("aArea=1"));
        }
        assert(views_of(url_segments@) =~= monitor_fragments(*self));
        let url = String::from_str("/monitor?").concat(join_segments(&url_segments).as_str());
        url
    }
}

/// A traffic-disruption-list query: line names, stop ids, and category names.
#[derive(Debug, Clone, PartialEq)]
pub struct TrafficInfoListRequest {
    pub related_line: Vec<String>,
    pub related_stop: Vec<u32>,
    pub name: Vec<TrafficInfoEnum>,
}

/// All fragments of a traffic-info-list query, in the fixed field order:
/// lines, then stops, then names.
pub open spec fn traffic_info_list_fragments(r: TrafficInfoListRequest) -> Seq<Seq<char>> {
    spec_join_vec("relatedLine="@, r.related_line@) + spec_join_vec("relatedStop="@, r.related_stop@)
        + spec_join_vec("name="@, r.name@)
}

impl TrafficInfoListRequest {
    /// An empty traffic-info-list query: no lines, no stops, no names.
    pub fn new() -> (r: Self)
        ensures
            r.related_line@ == Seq::<String>::empty(),
            r.related_stop@ == Seq::<u32>::empty(),
            r.name@ == Seq::<TrafficInfoEnum>::empty(),
    {
        TrafficInfoListRequest { related_line: Vec::new(), related_stop: Vec::new(), name: Vec::new() }
    }
}

impl Default for TrafficInfoListRequest {
    /// Same value as `TrafficInfoListRequest::new`.
    fn default() -> (r: Self)
        ensures
            r.related_line@ == Seq::<String>::empty(),
            r.related_stop@ == Seq::<u32>::empty(),
            r.name@ == Seq::<TrafficInfoEnum>::empty(),
    {
        TrafficInfoListRequest::new()
    }
}

impl BuildRequestUrl for TrafficInfoListRequest {
    open spec fn spec_request_url(&self) -> Seq<char> {
        "/trafficInfoList?"@ + join_amp(traffic_info_list_fragments(*self))
    }

    fn build_request_url(&self) -> (s: String) {
        let mut url_segments: Vec<String> = Vec::new();
        if !(self.related_line.len() == 0) {
            let mut lines = join_vec("relatedLine=", &self.related_line);
            url_segments.append(&mut lines);
        }
        assert(views_of(url_segments@) =~= spec_join_vec("relatedLine="@, self.related_line@));
        if !(self.related_stop.len() == 0) {
            let mut stops = join_vec("relatedStop=", &self.related_stop);
            url_segments.append(&mut stops);
        }
        assert(views_of(url_segments@) =~= spec_join_vec("relatedLine="@, self.related_line@)
            + spec_join_vec("relatedStop="@, self.related_stop@));
        if !(self.name.len() == 0) {
            let mut names = join_vec("name=", &self.name);
            url_segments.append(&mut names);
        }
        assert(views_of(url_segments@) =~= traffic_info_list_fragments(*self));
        let url = String::from_str("/trafficInfoList?").concat(join_segments(&url_segments).as_str());
        url
    }
}

} // verus!
