//! Statements of the query-serialization guarantees: empty queries, fragment
//! shape and count, fixed field-emission order, and the area flag.
use vstd::prelude::*;
use vstd::seq_lib::*;

use crate::decode::dec_message;
use crate::decode::dec_monitor_response;
use crate::decode::dec_traffic_info_list_response;
use crate::decode::req_field;
use crate::decode::req_i64;
use crate::decode::req_text;
use crate::helpers::dec_str;
use crate::json::JsonV;
use crate::response::code_from;
use crate::timestamp::ts_parse;
use crate::helpers::join_amp;
use crate::helpers::spec_join_vec;
use crate::helpers::WireText;
use crate::models::monitor_area_fragments;
use crate::models::monitor_diva_fragments;
use crate::models::monitor_fragments;
use crate::models::monitor_stop_fragments;
use crate::models::monitor_traffic_info_fragments;
use crate::models::traffic_info_list_fragments;
use crate::models::BuildRequestUrl;
use crate::models::ExtTrafficInfoEnum;
use crate::models::MonitorRequest;
use crate::models::TrafficInfoEnum;
use crate::models::TrafficInfoListRequest;

verus! {

/// An empty monitor request serializes to the bare path with trailing `?`
/// and no fragments.
pub proof fn lemma_empty_monitor_query(r: MonitorRequest)
    requires
        r.stop_id@.len() == 0,
        r.diva is None,
        r.activate_traffic_info@.len() == 0,
        !r.a_area,
    ensures
        r.spec_request_url() == "/monitor?"@,
{
    assert(monitor_fragments(r) =~= Seq::<Seq<char>>::empty());
    assert("/monitor?"@ + join_amp(monitor_fragments(r)) =~= "/monitor?"@);
}

/// An empty traffic-info-list request serializes to the bare path with
/// trailing `?` and no fragments.
pub proof fn lemma_empty_traffic_info_list_query(r: TrafficInfoListRequest)
    requires
        r.related_line@.len() == 0,
        r.related_stop@.len() == 0,
        r.name@.len() == 0,
    ensures
        r.spec_request_url() == "/trafficInfoList?"@,
{
    assert(traffic_info_list_fragments(r) =~= Seq::<Seq<char>>::empty());
    assert("/trafficInfoList?"@ + join_amp(traffic_info_list_fragments(r)) =~= "/trafficInfoList?"@);
}

/// The encoder yields one fragment per value, in input order, each the key
/// prefix followed by the value's canonical text; fragments are joined by
/// single `&` separators.
pub proof fn lemma_encoder_fragments<T: WireText>(prepend: Seq<char>, values: Seq<T>)
    ensures
        spec_join_vec(prepend, values).len() == values.len(),
        forall|i: int|
            0 <= i < values.len() ==> spec_join_vec(prepend, values)[i] == prepend
                + values[i].wire_view(),
        values.len() == 0 ==> join_amp(spec_join_vec(prepend, values)) == Seq::<char>::empty(),
{
    if values.len() == 0 {
        assert(spec_join_vec(prepend, values) =~= Seq::<Seq<char>>::empty());
    }
}

/// A non-empty fragment list joins as its head, a single `&`, and the join
/// of its tail; a single fragment joins as itself.
pub proof fn lemma_join_shape(fs: Seq<Seq<char>>)
    ensures
        fs.len() == 1 ==> join_amp(fs) == fs[0],
        fs.len() >= 2 ==> join_amp(fs) == fs[0] + seq!['&'] + join_amp(fs.drop_first()),
{
}

/// A monitor request emits its fields in the fixed order: stop ids, then
/// facility id, then traffic-info flags, then area flag, whatever order the
/// caller filled them in; the fragment count is the sum of the field counts.
pub proof fn lemma_monitor_field_order(r: MonitorRequest)
    ensures
        monitor_fragments(r) == monitor_stop_fragments(r) + monitor_diva_fragments(r)
            + monitor_traffic_info_fragments(r) + monitor_area_fragments(r),
        monitor_stop_fragments(r).len() == r.stop_id@.len(),
        monitor_diva_fragments(r).len() == (if r.diva is Some { 1int } else { 0int }),
        monitor_traffic_info_fragments(r).len() == r.activate_traffic_info@.len(),
        monitor_area_fragments(r).len() == (if r.a_area { 1int } else { 0int }),
        monitor_fragments(r).len() == r.stop_id@.len() + (if r.diva is Some { 1int } else { 0int })
            + r.activate_traffic_info@.len() + (if r.a_area { 1int } else { 0int }),
{
}

/// A traffic-info-list request emits its fields in the fixed order: lines,
/// then stops, then names, whatever order the caller filled them in.
pub proof fn lemma_traffic_info_list_field_order(r: TrafficInfoListRequest)
    ensures
        traffic_info_list_fragments(r) == spec_join_vec("relatedLine="@, r.related_line@)
            + spec_join_vec("relatedStop="@, r.related_stop@) + spec_join_vec("name="@, r.name@),
        traffic_info_list_fragments(r).len() == r.related_line@.len() + r.related_stop@.len()
            + r.name@.len(),
{
}

proof fn lemma_filter_none<A>(s: Seq<A>, pred: spec_fn(A) -> bool)
    requires
        forall|i: int| 0 <= i < s.len() ==> !pred(s[i]),
    ensures
        s.filter(pred).len() == 0,
    decreases s.len(),
{
    reveal(Seq::filter);
    if s.len() > 0 {
        lemma_filter_none(s.drop_last(), pred);
    }
}

proof fn lemma_filter_one<A>(x: A, pred: spec_fn(A) -> bool)
    requires
        pred(x),
    ensures
        seq![x].filter(pred).len() == 1,
{
    reveal_with_fuel(Seq::filter, 2);
    assert(seq![x].drop_last() =~= Seq::<A>::empty());
    assert(Seq::<A>::empty().filter(pred).len() == 0);
    assert(seq![x].last() == x);
}

/// With the area flag set, the monitor query holds exactly one `aArea=1`
/// fragment; with it clear, none at all.
pub proof fn lemma_area_flag(r: MonitorRequest)
    ensures
        r.a_area ==> monitor_fragments(r).filter(|f: Seq<char>| f == "aArea=1"@).len() == 1,
        !r.a_area ==> monitor_fragments(r).filter(|f: Seq<char>| f == "aArea=1"@).len() == 0,
{
    broadcast use Seq::filter_distributes_over_add;

    let pred = |f: Seq<char>| f == "aArea=1"@;
    reveal_strlit("aArea=1");
    reveal_strlit("stopId=");
    reveal_strlit("diva=");
    reveal_strlit("activateTrafficInfo=");
    let stops = monitor_stop_fragments(r);
    let diva = monitor_diva_fragments(r);
    let flags = monitor_traffic_info_fragments(r);
    let area = monitor_area_fragments(r);
    assert forall|i: int| 0 <= i < stops.len() implies !pred(stops[i]) by {
        assert(stops[i] == "stopId="@ + r.stop_id@[i].wire_view());
        assert(stops[i][1] == 't');
        assert("aArea=1"@[1] == 'A');
    }
    assert forall|i: int| 0 <= i < diva.len() implies !pred(diva[i]) by {
        match r.diva {
            Some(d) => {
                assert(diva[i] == "diva="@ + dec_str(d as nat));
                assert(diva[i][1] == 'i');
                assert("aArea=1"@[1] == 'A');
            },
            None => {},
        }
    }
    assert forall|i: int| 0 <= i < flags.len() implies !pred(flags[i]) by {
        assert(flags[i] == "activateTrafficInfo="@ + r.activate_traffic_info@[i].wire_view());
        assert(flags[i][1] == 'c');
        assert("aArea=1"@[1] == 'A');
    }
    lemma_filter_none(stops, pred);
    lemma_filter_none(diva, pred);
    lemma_filter_none(flags, pred);
    assert(monitor_fragments(r).filter(pred).len() == area.filter(pred).len());
    if r.a_area {
        lemma_filter_one("aArea=1"@, pred);
        assert(area =~= seq!["aArea=1"@]);
    } else {
        assert(area.filter(pred).len() == 0) by {
            lemma_filter_none(area, pred);
        }
    }
}

/// Whether `s` is free of `&` separators.
pub open spec fn amp_free(s: Seq<char>) -> bool {
    forall|i: int| 0 <= i < s.len() ==> s[i] != '&'
}

/// Whether `s` is free of `=` separators.
pub open spec fn eq_free(s: Seq<char>) -> bool {
    forall|i: int| 0 <= i < s.len() ==> s[i] != '='
}

/// Split a text on `&` separators; a text without one is a single piece.
pub open spec fn split_amp(s: Seq<char>) -> Seq<Seq<char>>
    decreases s.len(),
{
    if s.len() == 0 {
        seq![Seq::<char>::empty()]
    } else if s[0] == '&' {
        seq![Seq::<char>::empty()] + split_amp(s.drop_first())
    } else {
        let rest = split_amp(s.drop_first());
        seq![seq![s[0]] + rest[0]] + rest.drop_first()
    }
}

/// Split a fragment on its first `=`; a fragment without one keeps its
/// whole text as the key and an empty value.
pub open spec fn split_first_eq(f: Seq<char>) -> (Seq<char>, Seq<char>)
    decreases f.len(),
{
    if f.len() == 0 {
        (Seq::<char>::empty(), Seq::<char>::empty())
    } else if f[0] == '=' {
        (Seq::<char>::empty(), f.drop_first())
    } else {
        let rest = split_first_eq(f.drop_first());
        (seq![f[0]] + rest.0, rest.1)
    }
}

proof fn lemma_split_amp_nonempty(s: Seq<char>)
    ensures
        split_amp(s).len() >= 1,
    decreases s.len(),
{
    if s.len() > 0 {
        lemma_split_amp_nonempty(s.drop_first());
    }
}

proof fn lemma_split_amp_free(a: Seq<char>)
    requires
        amp_free(a),
    ensures
        split_amp(a) == seq![a],
    decreases a.len(),
{
    if a.len() == 0 {
        assert(split_amp(a) =~~= seq![a]);
    } else {
        assert(a[0] != '&');
        assert(amp_free(a.drop_first()));
        lemma_split_amp_free(a.drop_first());
        let rest = split_amp(a.drop_first());
        assert(rest[0] == a.drop_first());
        assert(seq![a[0]] + a.drop_first() =~= a);
        assert(rest.drop_first() =~= Seq::<Seq<char>>::empty());
        assert(split_amp(a) =~= seq![a]);
    }
}

proof fn lemma_split_amp_sep(a: Seq<char>, t: Seq<char>)
    requires
        amp_free(a),
    ensures
        split_amp(a + seq!['&'] + t) == seq![a] + split_amp(t),
    decreases a.len(),
{
    let s = a + seq!['&'] + t;
    if a.len() == 0 {
        assert(s[0] == '&');
        assert(s.drop_first() =~= t);
        assert(split_amp(s) =~~= seq![a] + split_amp(t));
    } else {
        assert(s[0] == a[0]);
        assert(a[0] != '&');
        assert(amp_free(a.drop_first()));
        lemma_split_amp_sep(a.drop_first(), t);
        assert(s.drop_first() =~= a.drop_first() + seq!['&'] + t);
        let rest = split_amp(s.drop_first());
        assert(rest == seq![a.drop_first()] + split_amp(t));
        lemma_split_amp_nonempty(t);
        assert(rest[0] == a.drop_first());
        assert(seq![s[0]] + rest[0] =~= a);
        assert(rest.drop_first() =~= split_amp(t));
        assert(split_amp(s) =~= seq![a] + split_amp(t));
    }
}

proof fn lemma_split_first_eq_sep(k: Seq<char>, v: Seq<char>)
    requires
        eq_free(k),
    ensures
        split_first_eq(k + seq!['='] + v) == (k, v),
    decreases k.len(),
{
    let f = k + seq!['='] + v;
    if k.len() == 0 {
        assert(f[0] == '=');
        assert(f.drop_first() =~= v);
        assert(split_first_eq(f).0 =~= k);
    } else {
        assert(f[0] == k[0]);
        assert(k[0] != '=');
        assert(eq_free(k.drop_first()));
        lemma_split_first_eq_sep(k.drop_first(), v);
        assert(f.drop_first() =~= k.drop_first() + seq!['='] + v);
        let rest = split_first_eq(f.drop_first());
        assert(rest.0 == k.drop_first() && rest.1 == v);
        assert(seq![f[0]] + rest.0 =~= k);
    }
}

/// The fragment a key/value pair serializes to.
pub open spec fn pair_fragment(p: (Seq<char>, Seq<char>)) -> Seq<char> {
    p.0 + seq!['='] + p.1
}

proof fn lemma_pair_fragment_amp_free(p: (Seq<char>, Seq<char>))
    requires
        amp_free(p.0),
        amp_free(p.1),
    ensures
        amp_free(pair_fragment(p)),
{
    let f = pair_fragment(p);
    assert forall|i: int| 0 <= i < f.len() implies f[i] != '&' by {
        if i < p.0.len() {
            assert(f[i] == p.0[i]);
        } else if i == p.0.len() {
            assert(f[i] == '=');
        } else {
            assert(f[i] == p.1[i - p.0.len() - 1]);
        }
    }
}

/// Round trip: serializing key/value pairs as `key=value` fragments joined
/// by `&`, then splitting on `&` and splitting each fragment on its first
/// `=`, recovers exactly the original pairs in their original order —
/// provided no key holds `&` or `=` and no value holds `&`.
pub proof fn lemma_query_round_trip(pairs: Seq<(Seq<char>, Seq<char>)>)
    requires
        pairs.len() >= 1,
        forall|k: int|
            0 <= k < pairs.len() ==> amp_free(#[trigger] pairs[k].0) && eq_free(pairs[k].0)
                && amp_free(pairs[k].1),
    ensures
        split_amp(join_amp(pairs.map_values(|p: (Seq<char>, Seq<char>)| pair_fragment(p))))
            .map_values(|f: Seq<char>| split_first_eq(f)) == pairs,
    decreases pairs.len(),
{
    let frags = pairs.map_values(|p: (Seq<char>, Seq<char>)| pair_fragment(p));
    if pairs.len() == 1 {
        assert(join_amp(frags) == frags[0]);
        assert(frags[0] == pair_fragment(pairs[0]));
        lemma_pair_fragment_amp_free(pairs[0]);
        lemma_split_amp_free(frags[0]);
        lemma_split_first_eq_sep(pairs[0].0, pairs[0].1);
        assert(split_amp(join_amp(frags)).map_values(|f: Seq<char>| split_first_eq(f)) =~= pairs);
    } else {
        let tail = pairs.drop_first();
        let tail_frags = tail.map_values(|p: (Seq<char>, Seq<char>)| pair_fragment(p));
        assert(frags.drop_first() =~= tail_frags);
        assert(join_amp(frags) == frags[0] + seq!['&'] + join_amp(tail_frags));
        lemma_pair_fragment_amp_free(pairs[0]);
        lemma_split_amp_sep(frags[0], join_amp(tail_frags));
        assert(forall|k: int|
            0 <= k < tail.len() ==> amp_free(#[trigger] tail[k].0) && eq_free(tail[k].0)
                && amp_free(tail[k].1));
        lemma_query_round_trip(tail);
        let tail_split = split_amp(join_amp(tail_frags));
        assert(split_amp(join_amp(frags)) == seq![frags[0]] + tail_split);
        lemma_split_first_eq_sep(pairs[0].0, pairs[0].1);
        assert((seq![frags[0]] + tail_split).map_values(|f: Seq<char>| split_first_eq(f)) =~= seq![
            split_first_eq(frags[0]),
        ] + tail_split.map_values(|f: Seq<char>| split_first_eq(f)));
        assert(split_amp(join_amp(frags)).map_values(|f: Seq<char>| split_first_eq(f)) =~= pairs);
    }
}

proof fn lemma_dec_str_separator_free(n: nat)
    ensures
        amp_free(dec_str(n)),
        eq_free(dec_str(n)),
    decreases n,
{
    if n < 10 {
        assert(crate::helpers::digit_char(n) != '&');
        assert(crate::helpers::digit_char(n) != '=');
    } else {
        lemma_dec_str_separator_free(n / 10);
        let s = dec_str(n);
        assert forall|i: int| 0 <= i < s.len() implies s[i] != '&' && s[i] != '=' by {
            if i < s.len() - 1 {
                assert(s[i] == dec_str(n / 10)[i]);
            } else {
                assert(s[i] == crate::helpers::digit_char(n % 10));
            }
        }
    }
}

proof fn lemma_token_separator_free(f: ExtTrafficInfoEnum)
    ensures
        amp_free(f.spec_token()),
{
    reveal_strlit("stoerunglang");
    reveal_strlit("stoerungkurz");
    reveal_strlit("aufzugsinfo");
    reveal_strlit("fahrtreppeninfo");
    reveal_strlit("information");
    match f {
        ExtTrafficInfoEnum::TrafficInfo(c) => match c {
            TrafficInfoEnum::StoerungLang => {
                assert(amp_free("stoerunglang"@));
            },
            TrafficInfoEnum::StoerungKurz => {
                assert(amp_free("stoerungkurz"@));
            },
            TrafficInfoEnum::AufzugsInfo => {
                assert(amp_free("aufzugsinfo"@));
            },
            TrafficInfoEnum::FahrtreppenInfo => {
                assert(amp_free("fahrtreppeninfo"@));
            },
        },
        ExtTrafficInfoEnum::Information => {
            assert(amp_free("information"@));
        },
    }
}

/// The key/value pairs a monitor query carries, in emission order.
pub open spec fn monitor_query_pairs(r: MonitorRequest) -> Seq<(Seq<char>, Seq<char>)> {
    r.stop_id@.map_values(|id: u32| ("stopId"@, dec_str(id as nat))) + (match r.diva {
        Some(d) => seq![("diva"@, dec_str(d as nat))],
        None => Seq::<(Seq<char>, Seq<char>)>::empty(),
    }) + r.activate_traffic_info@.map_values(
        |f: ExtTrafficInfoEnum| ("activateTrafficInfo"@, f.spec_token()),
    ) + (if r.a_area {
        seq![("aArea"@, "1"@)]
    } else {
        Seq::<(Seq<char>, Seq<char>)>::empty()
    })
}

/// Round trip for the monitor builder: its fragments are exactly the
/// `key=value` forms of its pairs, and splitting the joined query text on
/// `&` and each fragment on its first `=` recovers those pairs in order.
pub proof fn lemma_monitor_query_round_trip(r: MonitorRequest)
    requires
        monitor_fragments(r).len() >= 1,
    ensures
        monitor_fragments(r) == monitor_query_pairs(r).map_values(
            |p: (Seq<char>, Seq<char>)| pair_fragment(p),
        ),
        split_amp(join_amp(monitor_fragments(r))).map_values(|f: Seq<char>| split_first_eq(f))
            == monitor_query_pairs(r),
{
    reveal_strlit("stopId=");
    reveal_strlit("stopId");
    reveal_strlit("diva=");
    reveal_strlit("diva");
    reveal_strlit("activateTrafficInfo=");
    reveal_strlit("activateTrafficInfo");
    reveal_strlit("aArea=1");
    reveal_strlit("aArea");
    reveal_strlit("1");
    let pairs = monitor_query_pairs(r);
    let frags = pairs.map_values(|p: (Seq<char>, Seq<char>)| pair_fragment(p));
    assert("stopId="@ =~= "stopId"@ + seq!['=']);
    assert("diva="@ =~= "diva"@ + seq!['=']);
    assert("activateTrafficInfo="@ =~= "activateTrafficInfo"@ + seq!['=']);
    assert("aArea=1"@ =~= "aArea"@ + seq!['='] + "1"@);
    assert(pairs.len() == monitor_fragments(r).len());
    assert forall|k: int| 0 <= k < pairs.len() implies monitor_fragments(r)[k] == pair_fragment(
        #[trigger] pairs[k],
    ) by {
        let ns = r.stop_id@.len() as int;
        let nd = (if r.diva is Some { 1int } else { 0int });
        let nf = r.activate_traffic_info@.len() as int;
        if k < ns {
            assert(monitor_fragments(r)[k] == "stopId="@ + dec_str(r.stop_id@[k] as nat));
            assert(pair_fragment(pairs[k]) =~= "stopId="@ + dec_str(r.stop_id@[k] as nat));
        } else if k < ns + nd {
            match r.diva {
                Some(d) => {
                    assert(monitor_fragments(r)[k] == "diva="@ + dec_str(d as nat));
                    assert(pair_fragment(pairs[k]) =~= "diva="@ + dec_str(d as nat));
                },
                None => {},
            }
        } else if k < ns + nd + nf {
            let f = r.activate_traffic_info@[k - ns - nd];
            assert(monitor_fragments(r)[k] == "activateTrafficInfo="@ + f.spec_token());
            assert(pair_fragment(pairs[k]) =~= "activateTrafficInfo="@ + f.spec_token());
        } else {
            assert(monitor_fragments(r)[k] == "aArea=1"@);
            assert(pair_fragment(pairs[k]) =~= "aArea=1"@);
        }
    }
    assert(monitor_fragments(r) =~= frags);
    assert forall|k: int|
        0 <= k < pairs.len() implies amp_free(#[trigger] pairs[k].0) && eq_free(pairs[k].0)
        && amp_free(pairs[k].1) by {
        let ns = r.stop_id@.len() as int;
        let nd = (if r.diva is Some { 1int } else { 0int });
        let nf = r.activate_traffic_info@.len() as int;
        if k < ns {
            lemma_dec_str_separator_free(r.stop_id@[k] as nat);
            assert(amp_free("stopId"@) && eq_free("stopId"@));
        } else if k < ns + nd {
            match r.diva {
                Some(d) => {
                    lemma_dec_str_separator_free(d as nat);
                    assert(amp_free("diva"@) && eq_free("diva"@));
                },
                None => {},
            }
        } else if k < ns + nd + nf {
            lemma_token_separator_free(r.activate_traffic_info@[k - ns - nd]);
            assert(amp_free("activateTrafficInfo"@) && eq_free("activateTrafficInfo"@));
        } else {
            assert(amp_free("aArea"@) && eq_free("aArea"@) && amp_free("1"@));
        }
    }
    lemma_query_round_trip(pairs);
}

proof fn lemma_name_token_separator_free(c: TrafficInfoEnum)
    ensures
        amp_free(c.spec_token()),
{
    lemma_token_separator_free(ExtTrafficInfoEnum::TrafficInfo(c));
}

/// The key/value pairs a traffic-info-list query carries, in emission order.
pub open spec fn traffic_info_list_query_pairs(r: TrafficInfoListRequest) -> Seq<
    (Seq<char>, Seq<char>),
> {
    r.related_line@.map_values(|s: String| ("relatedLine"@, s@)) + r.related_stop@.map_values(
        |id: u32| ("relatedStop"@, dec_str(id as nat)),
    ) + r.name@.map_values(|c: TrafficInfoEnum| ("name"@, c.spec_token()))
}

/// Round trip for the traffic-info-list builder, for line names free of the
/// `&` separator: splitting the joined query text on `&` and each fragment
/// on its first `=` recovers the pairs in order.
pub proof fn lemma_traffic_info_list_query_round_trip(r: TrafficInfoListRequest)
    requires
        traffic_info_list_fragments(r).len() >= 1,
        forall|k: int| 0 <= k < r.related_line@.len() ==> amp_free(#[trigger] r.related_line@[k]@),
    ensures
        traffic_info_list_fragments(r) == traffic_info_list_query_pairs(r).map_values(
            |p: (Seq<char>, Seq<char>)| pair_fragment(p),
        ),
        split_amp(join_amp(traffic_info_list_fragments(r))).map_values(
            |f: Seq<char>| split_first_eq(f),
        ) == traffic_info_list_query_pairs(r),
{
    reveal_strlit("relatedLine=");
    reveal_strlit("relatedLine");
    reveal_strlit("relatedStop=");
    reveal_strlit("relatedStop");
    reveal_strlit("name=");
    reveal_strlit("name");
    let pairs = traffic_info_list_query_pairs(r);
    let frags = pairs.map_values(|p: (Seq<char>, Seq<char>)| pair_fragment(p));
    assert("relatedLine="@ =~= "relatedLine"@ + seq!['=']);
    assert("relatedStop="@ =~= "relatedStop"@ + seq!['=']);
    assert("name="@ =~= "name"@ + seq!['=']);
    assert(pairs.len() == traffic_info_list_fragments(r).len());
    let nl = r.related_line@.len() as int;
    let ns = r.related_stop@.len() as int;
    assert forall|k: int|
        0 <= k < pairs.len() implies traffic_info_list_fragments(r)[k] == pair_fragment(
        #[trigger] pairs[k],
    ) by {
        if k < nl {
            assert(traffic_info_list_fragments(r)[k] == "relatedLine="@ + r.related_line@[k]@);
            assert(pair_fragment(pairs[k]) =~= "relatedLine="@ + r.related_line@[k]@);
        } else if k < nl + ns {
            assert(traffic_info_list_fragments(r)[k] == "relatedStop="@ + dec_str(
                r.related_stop@[k - nl] as nat,
            ));
            assert(pair_fragment(pairs[k]) =~= "relatedStop="@ + dec_str(
                r.related_stop@[k - nl] as nat,
            ));
        } else {
            let c = r.name@[k - nl - ns];
            assert(traffic_info_list_fragments(r)[k] == "name="@ + c.spec_token());
            assert(pair_fragment(pairs[k]) =~= "name="@ + c.spec_token());
        }
    }
    assert(traffic_info_list_fragments(r) =~= frags);
    assert forall|k: int|
        0 <= k < pairs.len() implies amp_free(#[trigger] pairs[k].0) && eq_free(pairs[k].0)
        && amp_free(pairs[k].1) by {
        if k < nl {
            assert(amp_free(r.related_line@[k]@));
            assert(amp_free("relatedLine"@) && eq_free("relatedLine"@));
        } else if k < nl + ns {
            lemma_dec_str_separator_free(r.related_stop@[k - nl] as nat);
            assert(amp_free("relatedStop"@) && eq_free("relatedStop"@));
        } else {
            lemma_name_token_separator_free(r.name@[k - nl - ns]);
            assert(amp_free("name"@) && eq_free("name"@));
        }
    }
    lemma_query_round_trip(pairs);
}

/// A document whose message carries a status code outside the closed set
/// decodes to nothing — as a monitor response, as a traffic-info-list
/// response, and already as a message — never to a value.
pub proof fn lemma_unknown_status_code_rejected(j: JsonV, mj: JsonV, n: i64)
    requires
        req_field(j, "message"@) == Some(mj),
        req_i64(mj, "messageCode"@) == Some(n),
        code_from(n as int) is None,
    ensures
        dec_message(mj) is None,
        dec_monitor_response(j) is None,
        dec_traffic_info_list_response(j) is None,
{
}

/// A document whose message carries a server timestamp that does not match
/// the fixed pattern decodes to nothing — as a monitor response, as a
/// traffic-info-list response, and already as a message.
pub proof fn lemma_malformed_timestamp_rejected(j: JsonV, mj: JsonV, s: Seq<char>)
    requires
        req_field(j, "message"@) == Some(mj),
        req_text(mj, "serverTime"@) == Some(s),
        ts_parse(s) is None,
    ensures
        dec_message(mj) is None,
        dec_monitor_response(j) is None,
        dec_traffic_info_list_response(j) is None,
{
}

} // verus!
