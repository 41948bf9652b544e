//! What the library reads of a SIRI Lite estimated timetable, held as plain
//! values, and the vehicle journeys that a service delivery carries.
use vstd::prelude::*;

verus! {

/// An instant as SIRI gives it: the text it was written in, and the instant it
/// stands for, as whole seconds since the Unix epoch and the nanoseconds past
/// that second.
pub struct DateTime {
    pub text: String,
    pub seconds: i64,
    pub nanos: u32,
}

impl Clone for DateTime {
    fn clone(&self) -> (res: Self)
        ensures
            res == *self,
    {
        DateTime { text: self.text.clone(), seconds: self.seconds, nanos: self.nanos }
    }
}

/// What `chrono` reads of `text` as an RFC 3339 date and time: the instant,
/// as whole seconds since the Unix epoch and nanoseconds past that second,
/// or nothing where `text` is not RFC 3339.
pub uninterp spec fn rfc3339_instant(text: Seq<char>) -> Option<(int, int)>;

/// Parses `text` with `chrono::DateTime::parse_from_rfc3339`, and gives its
/// `timestamp()` and `timestamp_subsec_nanos()`. The contract claims that the
/// result is `rfc3339_instant(text)`.
#[verifier::external_body]
fn instant_of(text: &str) -> (res: Option<(i64, u32)>)
    ensures
        match res {
            Some((s, n)) => rfc3339_instant(text@) == Some((s as int, n as int)),
            None => rfc3339_instant(text@) is None,
        },
{
    match chrono::DateTime::parse_from_rfc3339(text) {
        Ok(dt) => Some((dt.timestamp(), dt.timestamp_subsec_nanos())),
        Err(_) => None,
    }
}

impl DateTime {
    /// The SIRI time of `text`, given the instant that it was read as.
    pub fn from_instant(text: String, instant: Option<(i64, u32)>) -> (res: Option<DateTime>)
        ensures
            match instant {
                Some((s, n)) => res == Some(DateTime { text, seconds: s, nanos: n }),
                None => res is None,
            },
    {
        match instant {
            Some((seconds, nanos)) => Some(DateTime { text, seconds, nanos }),
            None => None,
        }
    }

    /// The SIRI time written `text`, where `text` is an RFC 3339 date and
    /// time.
    pub fn parse(text: String) -> (res: Option<DateTime>)
        ensures
            match rfc3339_instant(text@) {
                Some((s, n)) => res matches Some(d) && d.text == text && d.seconds == s
                    && d.nanos == n,
                None => res is None,
            },
    {
        let instant = instant_of(text.as_str());
        DateTime::from_instant(text, instant)
    }
}

/// `a` is strictly earlier than `b`.
pub open spec fn earlier(a: DateTime, b: DateTime) -> bool {
    a.seconds < b.seconds || (a.seconds == b.seconds && a.nanos < b.nanos)
}

/// `a` and `b` stand for the same instant, whatever their text.
pub open spec fn same_instant(a: DateTime, b: DateTime) -> bool {
    a.seconds == b.seconds && a.nanos == b.nanos
}

/// A copy of an optional instant.
pub fn copy_time(t: &Option<DateTime>) -> (res: Option<DateTime>)
    ensures
        res == *t,
{
    match t {
        Some(d) => Some(d.clone()),
        None => None,
    }
}

/// One estimated call of a SIRI vehicle journey: the stop point it serves and
/// the times SIRI gives for it.
pub struct SiriCall {
    pub expected_arrival_time: Option<DateTime>,
    pub aimed_arrival_time: Option<DateTime>,
    pub expected_departure_time: Option<DateTime>,
    pub aimed_departure_time: Option<DateTime>,
    pub stop_point_ref: String,
}

/// A SIRI estimated vehicle journey: the line it runs on, its origin and
/// destination names, and its estimated calls.
pub struct SiriJourney {
    pub line_ref: String,
    pub origin_names: Vec<String>,
    pub destination_names: Vec<String>,
    pub estimated_calls: Vec<SiriCall>,
}

/// A version frame of an estimated timetable delivery.
pub struct JourneyFrame {
    pub estimated_vehicle_journey: Vec<SiriJourney>,
}

/// An estimated timetable delivery.
pub struct TimetableDelivery {
    pub estimated_journey_version_frame: Vec<JourneyFrame>,
}

/// The service delivery of a SIRI response.
pub struct ServiceDelivery {
    pub estimated_timetable_delivery: Vec<TimetableDelivery>,
}

/// Why no vehicle journeys could be read from a SIRI response.
#[derive(Debug, PartialEq, Eq, Structural)]
pub enum SiriError {
    /// The response holds no service delivery.
    MissingServiceDelivery,
}

/// The journeys of the frames, frame after frame.
pub open spec fn frames_journeys(frames: Seq<JourneyFrame>) -> Seq<SiriJourney>
    decreases frames.len(),
{
    if frames.len() == 0 {
        Seq::empty()
    } else {
        frames_journeys(frames.drop_last()) + frames.last().estimated_vehicle_journey@
    }
}

/// The journeys of the deliveries, delivery after delivery.
pub open spec fn deliveries_journeys(deliveries: Seq<TimetableDelivery>) -> Seq<SiriJourney>
    decreases deliveries.len(),
{
    if deliveries.len() == 0 {
        Seq::empty()
    } else {
        deliveries_journeys(deliveries.drop_last()) + frames_journeys(
            deliveries.last().estimated_journey_version_frame@,
        )
    }
}

fn collect_frames(frames: Vec<JourneyFrame>, out: &mut Vec<SiriJourney>)
    ensures
        final(out)@ == old(out)@ + frames_journeys(frames@),
{
    let ghost all = frames@;
    let ghost start = out@;
    let mut frames = frames;
    let mut rest: Vec<JourneyFrame> = Vec::new();
    // frames are taken from the back; `rest` holds them in reverse, then is drained
    while frames.len() > 0
        invariant
            frames@ + rest@.reverse() == all,
            out@ == start,
        decreases frames.len(),
    {
        let f = frames.pop().unwrap();
        proof {
            assert(frames@.push(f) + rest@.reverse() =~= frames@ + rest@.push(f).reverse());
        }
        rest.push(f);
    }
    proof {
        assert(rest@.reverse() =~= all);
    }
    let ghost done: Seq<JourneyFrame> = Seq::empty();
    while rest.len() > 0
        invariant
            done + rest@.reverse() == all,
            out@ == start + frames_journeys(done),
        decreases rest.len(),
    {
        let mut f = rest.pop().unwrap();
        let ghost fg = f;
        proof {
            assert(done.push(fg) + rest@.reverse() =~= done + rest@.push(fg).reverse());
            assert(done.push(fg).drop_last() =~= done);
        }
        out.append(&mut f.estimated_vehicle_journey);
        proof {
            assert(out@ =~= start + frames_journeys(done.push(fg)));
            done = done.push(fg);
        }
    }
    proof {
        assert(done =~= all);
    }
}

/// The vehicle journeys of a service delivery, delivery after delivery and
/// frame after frame; an error where the response holds no service delivery.
pub fn vehicle_journeys(service_delivery: Option<ServiceDelivery>) -> (res: Result<
    Vec<SiriJourney>,
    SiriError,
>)
    ensures
        match service_delivery {
            None => res == Err::<Vec<SiriJourney>, SiriError>(SiriError::MissingServiceDelivery),
            Some(d) => res matches Ok(v) && v@ == deliveries_journeys(
                d.estimated_timetable_delivery@,
            ),
        },
{
    match service_delivery {
        None => Err(SiriError::MissingServiceDelivery),
        Some(d) => {
            let ghost all = d.estimated_timetable_delivery@;
            let mut deliveries = d.estimated_timetable_delivery;
            let mut rest: Vec<TimetableDelivery> = Vec::new();
            while deliveries.len() > 0
                invariant
                    deliveries@ + rest@.reverse() == all,
                decreases deliveries.len(),
            {
                let x = deliveries.pop().unwrap();
                proof {
                    assert(deliveries@.push(x) + rest@.reverse() =~= deliveries@ + rest@.push(
                        x,
                    ).reverse());
                }
                rest.push(x);
            }
            proof {
                assert(rest@.reverse() =~= all);
            }
            let mut out: Vec<SiriJourney> = Vec::new();
            let ghost done: Seq<TimetableDelivery> = Seq::empty();
            while rest.len() > 0
                invariant
                    done + rest@.reverse() == all,
                    out@ == deliveries_journeys(done),
                decreases rest.len(),
            {
                let x = rest.pop().unwrap();
                proof {
                    assert(done.push(x) + rest@.reverse() =~= done + rest@.push(x).reverse());
                    assert(done.push(x).drop_last() =~= done);
                }
                collect_frames(x.estimated_journey_version_frame, &mut out);
                proof {
                    done = done.push(x);
                }
            }
            proof {
                assert(done =~= all);
            }
            Ok(out)
        }
    }
}

} // verus!
