//! The transit objects: line and stop references, estimated calls, vehicle
//! journeys, lines and the public transit data they make up.
use vstd::prelude::*;
use vstd::hash_map::StringHashMap;
use vstd::string::*;
use crate::siri::{DateTime, SiriCall, SiriJourney, copy_time};
use crate::text::{joined, views, replaced, join, replace_all};
use crate::order::{is_stable_sort, orderable, sort_calls, permutes, tied};

verus! {

/// A line of the line referential.
pub struct LineReference {
    pub id: String,
    pub name: String,
    pub short_name: String,
    pub mode: String,
    pub sub_mode: String,
    pub operator_name: String,
    pub network_name: String,
    pub background_color: String,
    pub text_color: String,
}

impl Clone for LineReference {
    fn clone(&self) -> (res: Self)
        ensures
            res == *self,
    {
        LineReference {
            id: self.id.clone(),
            name: self.name.clone(),
            short_name: self.short_name.clone(),
            mode: self.mode.clone(),
            sub_mode: self.sub_mode.clone(),
            operator_name: self.operator_name.clone(),
            network_name: self.network_name.clone(),
            background_color: self.background_color.clone(),
            text_color: self.text_color.clone(),
        }
    }
}

/// A stop of the stop referential.
pub struct StopReference {
    pub id: String,
    pub name: String,
}

impl Clone for StopReference {
    fn clone(&self) -> (res: Self)
        ensures
            res == *self,
    {
        StopReference { id: self.id.clone(), name: self.name.clone() }
    }
}

/// An estimated call of a vehicle journey, with the name of its stop once it
/// has been found in the stop referential.
pub struct EstimatedCall {
    pub expected_arrival_time: Option<DateTime>,
    pub aimed_arrival_time: Option<DateTime>,
    pub expected_departure_time: Option<DateTime>,
    pub aimed_departure_time: Option<DateTime>,
    pub stop_point_ref: String,
    pub stop_name: Option<String>,
}

/// A copy of an optional string.
pub fn copy_name(s: &Option<String>) -> (res: Option<String>)
    ensures
        res == *s,
{
    match s {
        Some(n) => Some(n.clone()),
        None => None,
    }
}

impl Clone for EstimatedCall {
    fn clone(&self) -> (res: Self)
        ensures
            res == *self,
    {
        EstimatedCall {
            expected_arrival_time: copy_time(&self.expected_arrival_time),
            aimed_arrival_time: copy_time(&self.aimed_arrival_time),
            expected_departure_time: copy_time(&self.expected_departure_time),
            aimed_departure_time: copy_time(&self.aimed_departure_time),
            stop_point_ref: self.stop_point_ref.clone(),
            stop_name: copy_name(&self.stop_name),
        }
    }
}

/// The estimated call that a SIRI call becomes: its times and stop point, no
/// stop name yet.
pub open spec fn call_of(c: SiriCall) -> EstimatedCall {
    EstimatedCall {
        expected_arrival_time: c.expected_arrival_time,
        aimed_arrival_time: c.aimed_arrival_time,
        expected_departure_time: c.expected_departure_time,
        aimed_departure_time: c.aimed_departure_time,
        stop_point_ref: c.stop_point_ref,
        stop_name: None,
    }
}

/// The estimated calls that SIRI calls become, in the same order.
pub open spec fn calls_of(calls: Seq<SiriCall>) -> Seq<EstimatedCall> {
    calls.map_values(|c: SiriCall| call_of(c))
}

/// The key under which the stop referential holds the stop of a stop point:
/// a `BP` stop point is looked up as the `Q` stop point of the same number.
pub open spec fn stop_key(stop_point_ref: Seq<char>) -> Seq<char> {
    replaced(stop_point_ref, "STIF:StopPoint:BP:"@, "STIF:StopPoint:Q:"@)
}

impl EstimatedCall {
    /// The time by which calls are ordered: the expected arrival, else the
    /// expected departure, else the aimed arrival, else the aimed departure.
    pub open spec fn reference_time_of(self) -> Option<DateTime> {
        if self.expected_arrival_time is Some {
            self.expected_arrival_time
        } else if self.expected_departure_time is Some {
            self.expected_departure_time
        } else if self.aimed_arrival_time is Some {
            self.aimed_arrival_time
        } else {
            self.aimed_departure_time
        }
    }

    /// This call with the name of its stop, where the stop referential knows
    /// its stop; unchanged otherwise.
    pub open spec fn patched(self, stops: Map<Seq<char>, StopReference>) -> EstimatedCall {
        let key = stop_key(self.stop_point_ref@);
        if stops.contains_key(key) {
            EstimatedCall {
                expected_arrival_time: self.expected_arrival_time,
                aimed_arrival_time: self.aimed_arrival_time,
                expected_departure_time: self.expected_departure_time,
                aimed_departure_time: self.aimed_departure_time,
                stop_point_ref: self.stop_point_ref,
                stop_name: Some(stops[key].name),
            }
        } else {
            self
        }
    }

    /// The estimated call of a SIRI call.
    pub fn from_siri(c: &SiriCall) -> (res: EstimatedCall)
        ensures
            res == call_of(*c),
            res.expected_arrival_time == c.expected_arrival_time,
            res.aimed_arrival_time == c.aimed_arrival_time,
            res.expected_departure_time == c.expected_departure_time,
            res.aimed_departure_time == c.aimed_departure_time,
            res.stop_point_ref == c.stop_point_ref,
            res.stop_name is None,
    {
        EstimatedCall {
            expected_arrival_time: copy_time(&c.expected_arrival_time),
            aimed_arrival_time: copy_time(&c.aimed_arrival_time),
            expected_departure_time: copy_time(&c.expected_departure_time),
            aimed_departure_time: copy_time(&c.aimed_departure_time),
            stop_point_ref: c.stop_point_ref.clone(),
            stop_name: None,
        }
    }

    /// The time by which this call is ordered.
    pub fn reference_time(&self) -> (res: Option<DateTime>)
        ensures
            res == self.reference_time_of(),
            self.expected_arrival_time is Some ==> res == self.expected_arrival_time,
            self.expected_arrival_time is None && self.expected_departure_time is Some ==> res
                == self.expected_departure_time,
            self.expected_arrival_time is None && self.expected_departure_time is None
                && self.aimed_arrival_time is Some ==> res == self.aimed_arrival_time,
            self.expected_arrival_time is None && self.expected_departure_time is None
                && self.aimed_arrival_time is None ==> res == self.aimed_departure_time,
    {
        if self.expected_arrival_time.is_some() {
            copy_time(&self.expected_arrival_time)
        } else if self.expected_departure_time.is_some() {
            copy_time(&self.expected_departure_time)
        } else if self.aimed_arrival_time.is_some() {
            copy_time(&self.aimed_arrival_time)
        } else {
            copy_time(&self.aimed_departure_time)
        }
    }

    /// Sets the stop name from the stop referential, where it knows the stop.
    pub fn patch_name(&mut self, stops: &StringHashMap<StopReference>)
        ensures
            *final(self) == old(self).patched(stops@),
    {
        proof {
            reveal_strlit("STIF:StopPoint:BP:");
        }
        let stop_id = replace_all(
            self.stop_point_ref.as_str(),
            "STIF:StopPoint:BP:",
            "STIF:StopPoint:Q:",
        );
        match stops.get(stop_id.as_str()) {
            Some(stop) => {
                self.stop_name = Some(stop.name.clone());
            },
            None => {},
        }
    }
}

/// The estimated call made from a SIRI call carries the SIRI call's four
/// times, each in the field of the same name, its stop point, and no stop
/// name yet.
pub proof fn law_call_keeps_siri_times(c: SiriCall)
    ensures
        call_of(c).expected_arrival_time == c.expected_arrival_time,
        call_of(c).aimed_arrival_time == c.aimed_arrival_time,
        call_of(c).expected_departure_time == c.expected_departure_time,
        call_of(c).aimed_departure_time == c.aimed_departure_time,
        call_of(c).stop_point_ref == c.stop_point_ref,
        call_of(c).stop_name is None,
{
}

/// The calls made from SIRI calls are, one for one and in order, calls with
/// the same times and stop point and no stop name.
pub proof fn law_calls_keep_siri_times(calls: Seq<SiriCall>)
    ensures
        calls_of(calls).len() == calls.len(),
        forall|i: int|
            0 <= i < calls.len() ==> {
                let e = #[trigger] calls_of(calls)[i];
                &&& e.expected_arrival_time == calls[i].expected_arrival_time
                &&& e.aimed_arrival_time == calls[i].aimed_arrival_time
                &&& e.expected_departure_time == calls[i].expected_departure_time
                &&& e.aimed_departure_time == calls[i].aimed_departure_time
                &&& e.stop_point_ref == calls[i].stop_point_ref
                &&& e.stop_name is None
            },
{
}

/// `e` has the four times of `c`, each in the field of the same name, its
/// stop point, and no stop name.
pub open spec fn keeps_siri_times(e: EstimatedCall, c: SiriCall) -> bool {
    &&& e.expected_arrival_time == c.expected_arrival_time
    &&& e.aimed_arrival_time == c.aimed_arrival_time
    &&& e.expected_departure_time == c.expected_departure_time
    &&& e.aimed_departure_time == c.aimed_departure_time
    &&& e.stop_point_ref == c.stop_point_ref
    &&& e.stop_name is None
}

/// The calls of the vehicle journey of a SIRI journey are the SIRI calls,
/// each once, in some order: the `i`-th call has the four times of SIRI call
/// `p[i]`, each in the field of the same name, its stop point, and no stop
/// name, where `p` takes each SIRI call exactly once.
pub proof fn law_journey_calls_keep_siri_times(vj: VehicleJourney, s: SiriJourney)
    requires
        journey_of(vj, s),
    ensures
        vj.estimated_calls.len() == s.estimated_calls.len(),
        exists|p: Seq<int>|
            {
                &&& p.len() == s.estimated_calls.len()
                &&& forall|i: int|
                    0 <= i < p.len() ==> 0 <= #[trigger] p[i] < s.estimated_calls.len()
                        && keeps_siri_times(vj.estimated_calls@[i], s.estimated_calls@[p[i]])
                &&& forall|i: int, j: int| 0 <= i < j < p.len() ==> #[trigger] p[i] != #[trigger] p[j]
            },
{
    let v = calls_of(s.estimated_calls@);
    let r = vj.estimated_calls@;
    let p = choose|p: Seq<int>|
        {
            &&& #[trigger] permutes(p, r, v)
            &&& forall|i: int, j: int|
                0 <= i < j < r.len() && tied(#[trigger] r[i], #[trigger] r[j]) ==> p[i] < p[j]
        };
    law_calls_keep_siri_times(s.estimated_calls@);
    assert forall|i: int|
        0 <= i < p.len() implies 0 <= #[trigger] p[i] < s.estimated_calls.len()
            && keeps_siri_times(vj.estimated_calls@[i], s.estimated_calls@[p[i]]) by {
        assert(r[i] == v[p[i]]);
        assert(v[p[i]] == calls_of(s.estimated_calls@)[p[i]]);
    }
}

/// The reference time of a call: its expected arrival time if it has one;
/// otherwise its expected departure time if it has one, whatever its aimed
/// times; otherwise its aimed arrival time if it has one; otherwise its aimed
/// departure time. A call has a reference time exactly when it has some time.
pub proof fn law_reference_time(c: EstimatedCall)
    ensures
        c.expected_arrival_time is Some ==> c.reference_time_of() == c.expected_arrival_time,
        c.expected_arrival_time is None && c.expected_departure_time is Some
            ==> c.reference_time_of() == c.expected_departure_time,
        c.expected_arrival_time is None && c.expected_departure_time is None
            && c.aimed_arrival_time is Some ==> c.reference_time_of() == c.aimed_arrival_time,
        c.expected_arrival_time is None && c.expected_departure_time is None
            && c.aimed_arrival_time is None ==> c.reference_time_of() == c.aimed_departure_time,
        (c.reference_time_of() is Some) == (c.expected_arrival_time is Some
            || c.expected_departure_time is Some || c.aimed_arrival_time is Some
            || c.aimed_departure_time is Some),
{
}

/// Setting the stop name of a call keeps its four times and its stop point;
/// its stop name becomes the name of the stop that the referential holds
/// under the call's stop key, and stays as it was where it holds none.
pub proof fn law_patched_fields(c: EstimatedCall, stops: Map<Seq<char>, StopReference>)
    ensures
        c.patched(stops).expected_arrival_time == c.expected_arrival_time,
        c.patched(stops).aimed_arrival_time == c.aimed_arrival_time,
        c.patched(stops).expected_departure_time == c.expected_departure_time,
        c.patched(stops).aimed_departure_time == c.aimed_departure_time,
        c.patched(stops).stop_point_ref == c.stop_point_ref,
        stops.contains_key(stop_key(c.stop_point_ref@)) ==> c.patched(stops).stop_name == Some(
            stops[stop_key(c.stop_point_ref@)].name,
        ),
        !stops.contains_key(stop_key(c.stop_point_ref@)) ==> c.patched(stops).stop_name
            == c.stop_name,
{
}

/// Setting the stop names a second time changes nothing.
pub proof fn law_patch_idempotent(c: EstimatedCall, stops: Map<Seq<char>, StopReference>)
    ensures
        c.patched(stops).patched(stops) == c.patched(stops),
{
}

/// A vehicle journey: where it comes from, where it goes, and its calls in
/// the order of their reference times.
pub struct VehicleJourney {
    pub origin: String,
    pub destination: String,
    pub estimated_calls: Vec<EstimatedCall>,
}

/// `vj` is the vehicle journey of the SIRI journey `s`: its origin and
/// destination are the names SIRI gives, joined by ", ", and its calls are
/// those of `s`, stably sorted by reference time.
pub open spec fn journey_of(vj: VehicleJourney, s: SiriJourney) -> bool {
    &&& vj.origin@ == joined(views(s.origin_names@), ", "@)
    &&& vj.destination@ == joined(views(s.destination_names@), ", "@)
    &&& is_stable_sort(vj.estimated_calls@, calls_of(s.estimated_calls@))
}

/// The calls with the names of their stops, as far as the stop referential
/// knows them.
pub open spec fn patched_calls(
    calls: Seq<EstimatedCall>,
    stops: Map<Seq<char>, StopReference>,
) -> Seq<EstimatedCall> {
    calls.map_values(|c: EstimatedCall| c.patched(stops))
}

impl VehicleJourney {
    /// The vehicle journey of a SIRI journey. The calls must be ordered by a
    /// total order, which the comparison by reference time is unless some call
    /// has no time while two others have different times.
    pub fn from_siri(s: &SiriJourney) -> (res: VehicleJourney)
        requires
            orderable(calls_of(s.estimated_calls@)),
        ensures
            journey_of(res, *s),
    {
        let origin = join(&s.origin_names, ", ");
        let destination = join(&s.destination_names, ", ");
        let mut calls: Vec<EstimatedCall> = Vec::new();
        let mut i: usize = 0;
        while i < s.estimated_calls.len()
            invariant
                i <= s.estimated_calls.len(),
                calls@ == calls_of(s.estimated_calls@).take(i as int),
            decreases s.estimated_calls.len() - i,
        {
            let c = EstimatedCall::from_siri(&s.estimated_calls[i]);
            calls.push(c);
            proof {
                assert(calls@ =~= calls_of(s.estimated_calls@).take(i + 1));
            }
            i = i + 1;
        }
        proof {
            assert(calls@ =~= calls_of(s.estimated_calls@));
        }
        let sorted = sort_calls(calls);
        VehicleJourney { origin, destination, estimated_calls: sorted }
    }

    /// This journey with the stop names of its calls set from the stop
    /// referential.
    pub fn patch_name(self, stops: &StringHashMap<StopReference>) -> (res: VehicleJourney)
        ensures
            res.origin == self.origin,
            res.destination == self.destination,
            res.estimated_calls@ == patched_calls(self.estimated_calls@, stops@),
    {
        let mut vj = self;
        let ghost before = vj.estimated_calls@;
        let mut i: usize = 0;
        while i < vj.estimated_calls.len()
            invariant
                i <= vj.estimated_calls.len(),
                vj.estimated_calls.len() == before.len(),
                vj.origin == self.origin,
                vj.destination == self.destination,
                forall|j: int| 0 <= j < i ==> vj.estimated_calls@[j] == before[j].patched(stops@),
                forall|j: int| i <= j < before.len() ==> vj.estimated_calls@[j] == before[j],
            decreases before.len() - i,
        {
            vj.estimated_calls[i].patch_name(stops);
            i = i + 1;
        }
        proof {
            assert(vj.estimated_calls@ =~= patched_calls(before, stops@));
        }
        vj
    }
}

/// A line of the referential with the vehicle journeys that run on it.
pub struct Line {
    pub reference: LineReference,
    pub vjs: Vec<VehicleJourney>,
}

/// The public transit data: the lines that have vehicle journeys.
pub struct PTData {
    pub lines: Vec<Line>,
}

impl PTData {
    /// No two lines have the same id.
    pub open spec fn wf(self) -> bool {
        forall|i: int, j: int|
            0 <= i < j < self.lines.len() ==> #[trigger] self.lines@[i].reference.id@
                != #[trigger] self.lines@[j].reference.id@
    }
}

} // verus!
