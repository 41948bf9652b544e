//! Joining the SIRI vehicle journeys with the line referential: each journey
//! whose line the referential knows goes to that line, in the order of the
//! SIRI data; the others are left out.
use vstd::prelude::*;
use vstd::hash_map::StringHashMap;
use crate::siri::SiriJourney;
use crate::objects::{
    LineReference, StopReference, VehicleJourney, Line, PTData, EstimatedCall, journey_of,
    patched_calls, calls_of,
};
use crate::order::{orderable, sorted_calls, precedes, calls_orderable};

verus! {

/// The line referential knows the line of `vj`.
pub open spec fn resolves(refs: Map<Seq<char>, LineReference>, vj: SiriJourney) -> bool {
    refs.contains_key(vj.line_ref@)
}

/// The referential id of the line of `vj`.
pub open spec fn line_id(refs: Map<Seq<char>, LineReference>, vj: SiriJourney) -> Seq<char> {
    refs[vj.line_ref@].id@
}

/// The journey runs on the line of referential id `id`.
pub open spec fn on_line(refs: Map<Seq<char>, LineReference>, id: Seq<char>) -> spec_fn(
    SiriJourney,
) -> bool {
    |vj: SiriJourney| resolves(refs, vj) && line_id(refs, vj) == id
}

/// The journeys of `vjs` that run on the line `id`, in their order.
pub open spec fn journeys_on(
    refs: Map<Seq<char>, LineReference>,
    vjs: Seq<SiriJourney>,
    id: Seq<char>,
) -> Seq<SiriJourney> {
    vjs.filter(on_line(refs, id))
}

/// The ids of the lines that journeys of `vjs` run on, in the order of their
/// first journey.
pub open spec fn line_ids(refs: Map<Seq<char>, LineReference>, vjs: Seq<SiriJourney>) -> Seq<
    Seq<char>,
>
    decreases vjs.len(),
{
    if vjs.len() == 0 {
        Seq::empty()
    } else {
        let prev = line_ids(refs, vjs.drop_last());
        let vj = vjs.last();
        if resolves(refs, vj) && !prev.contains(line_id(refs, vj)) {
            prev.push(line_id(refs, vj))
        } else {
            prev
        }
    }
}

/// The journeys whose line the referential knows can have their calls sorted.
pub open spec fn sortable_journeys(refs: Map<Seq<char>, LineReference>, vjs: Seq<SiriJourney>) -> bool {
    forall|i: int|
        0 <= i < vjs.len() && resolves(refs, #[trigger] vjs[i]) ==> orderable(
            calls_of(vjs[i].estimated_calls@),
        )
}

/// `out` is what the SIRI journey `s` becomes: its vehicle journey, with the
/// stop names from the stop referential where one is given.
pub open spec fn journey_result(
    out: VehicleJourney,
    s: SiriJourney,
    stops: Option<Map<Seq<char>, StopReference>>,
) -> bool {
    match stops {
        None => journey_of(out, s),
        Some(st) => exists|vj: VehicleJourney|
            {
                &&& #[trigger] journey_of(vj, s)
                &&& out.origin == vj.origin
                &&& out.destination == vj.destination
                &&& out.estimated_calls@ == patched_calls(vj.estimated_calls@, st)
            },
    }
}

/// The line `l` is the line `id` of the joined data: its reference is that of
/// its first journey, and its journeys are those of `vjs` on it, in order.
pub open spec fn line_result(
    l: Line,
    refs: Map<Seq<char>, LineReference>,
    stops: Option<Map<Seq<char>, StopReference>>,
    vjs: Seq<SiriJourney>,
    id: Seq<char>,
) -> bool {
    let js = journeys_on(refs, vjs, id);
    &&& js.len() > 0
    &&& l.reference == refs[js[0].line_ref@]
    &&& l.vjs.len() == js.len()
    &&& forall|k: int| 0 <= k < js.len() ==> journey_result(#[trigger] l.vjs@[k], js[k], stops)
}

/// `out` is the public transit data of the journeys: one line per line id,
/// in the order of first appearance.
pub open spec fn joined_data(
    out: PTData,
    refs: Map<Seq<char>, LineReference>,
    stops: Option<Map<Seq<char>, StopReference>>,
    vjs: Seq<SiriJourney>,
) -> bool {
    let ids = line_ids(refs, vjs);
    &&& out.lines.len() == ids.len()
    &&& forall|i: int|
        0 <= i < ids.len() ==> line_result(#[trigger] out.lines@[i], refs, stops, vjs, ids[i])
}

/// An id is among the line ids exactly when some journey runs on that line.
pub proof fn lemma_line_ids_contains(
    refs: Map<Seq<char>, LineReference>,
    vjs: Seq<SiriJourney>,
    id: Seq<char>,
)
    ensures
        line_ids(refs, vjs).contains(id) <==> journeys_on(refs, vjs, id).len() > 0,
    decreases vjs.len(),
{
    reveal(Seq::filter);
    if vjs.len() > 0 {
        let prefix = vjs.drop_last();
        let vj = vjs.last();
        lemma_line_ids_contains(refs, prefix, id);
        assert(vjs =~= prefix.push(vj));
        prefix.lemma_filter_push(vj, on_line(refs, id));
        let prev = line_ids(refs, prefix);
        let lid = line_id(refs, vj);
        if resolves(refs, vj) && !prev.contains(lid) {
            let next = prev.push(lid);
            assert(next[prev.len() as int] == lid);
            if prev.contains(id) {
                let k = choose|k: int| 0 <= k < prev.len() && prev[k] == id;
                assert(next[k] == id);
            }
            if next.contains(id) && lid != id {
                let k = choose|k: int| 0 <= k < next.len() && next[k] == id;
                assert(prev[k] == id);
            }
        }
    }
}

/// The line ids are distinct.
pub proof fn lemma_line_ids_distinct(refs: Map<Seq<char>, LineReference>, vjs: Seq<SiriJourney>)
    ensures
        line_ids(refs, vjs).no_duplicates(),
    decreases vjs.len(),
{
    if vjs.len() > 0 {
        lemma_line_ids_distinct(refs, vjs.drop_last());
    }
}

/// The reference of each line of the joined data has the id of that line.
pub proof fn lemma_line_reference_id(
    out: PTData,
    refs: Map<Seq<char>, LineReference>,
    stops: Option<Map<Seq<char>, StopReference>>,
    vjs: Seq<SiriJourney>,
    i: int,
)
    requires
        joined_data(out, refs, stops, vjs),
        0 <= i < out.lines.len(),
    ensures
        out.lines@[i].reference.id@ == line_ids(refs, vjs)[i],
{
    let id = line_ids(refs, vjs)[i];
    assert(line_result(out.lines@[i], refs, stops, vjs, id));
    vjs.lemma_filter_pred(on_line(refs, id), 0);
}

/// No two lines of the joined data have the same id.
pub proof fn law_lines_distinct(
    out: PTData,
    refs: Map<Seq<char>, LineReference>,
    stops: Option<Map<Seq<char>, StopReference>>,
    vjs: Seq<SiriJourney>,
)
    requires
        joined_data(out, refs, stops, vjs),
    ensures
        forall|i: int, j: int|
            0 <= i < j < out.lines.len() ==> #[trigger] out.lines@[i].reference.id@
                != #[trigger] out.lines@[j].reference.id@,
{
    lemma_line_ids_distinct(refs, vjs);
    assert forall|i: int, j: int| 0 <= i < j < out.lines.len() implies #[trigger] out.lines@[i].reference.id@
        != #[trigger] out.lines@[j].reference.id@ by {
        lemma_line_reference_id(out, refs, stops, vjs, i);
        lemma_line_reference_id(out, refs, stops, vjs, j);
    }
}

/// Every journey whose line the referential knows is in the joined data, on
/// the line of that id; a journey whose line it does not know is on no line.
pub proof fn law_known_journeys_kept(
    out: PTData,
    refs: Map<Seq<char>, LineReference>,
    stops: Option<Map<Seq<char>, StopReference>>,
    vjs: Seq<SiriJourney>,
    n: int,
)
    requires
        joined_data(out, refs, stops, vjs),
        0 <= n < vjs.len(),
    ensures
        resolves(refs, vjs[n]) ==> exists|i: int, k: int|
            0 <= i < out.lines.len() && 0 <= k < out.lines@[i].vjs.len() && out.lines@[i].reference.id@
                == line_id(refs, vjs[n]) && #[trigger] journey_result(out.lines@[i].vjs@[k], vjs[n], stops),
        !resolves(refs, vjs[n]) ==> forall|i: int|
            0 <= i < out.lines.len() ==> !journeys_on(refs, vjs, #[trigger] out.lines@[i].reference.id@).contains(vjs[n]),
{
    let ids = line_ids(refs, vjs);
    if resolves(refs, vjs[n]) {
        let id = line_id(refs, vjs[n]);
        vjs.lemma_filter_contains(on_line(refs, id), n);
        lemma_line_ids_contains(refs, vjs, id);
        let i = choose|i: int| 0 <= i < ids.len() && ids[i] == id;
        lemma_line_reference_id(out, refs, stops, vjs, i);
        let js = journeys_on(refs, vjs, id);
        let k = choose|k: int| 0 <= k < js.len() && js[k] == vjs[n];
        assert(line_result(out.lines@[i], refs, stops, vjs, id));
        assert(journey_result(out.lines@[i].vjs@[k], js[k], stops));
    } else {
        assert forall|i: int| 0 <= i < out.lines.len() implies !journeys_on(
            refs,
            vjs,
            #[trigger] out.lines@[i].reference.id@,
        ).contains(vjs[n]) by {
            let js = journeys_on(refs, vjs, out.lines@[i].reference.id@);
            if js.contains(vjs[n]) {
                let k = choose|k: int| 0 <= k < js.len() && js[k] == vjs[n];
                vjs.lemma_filter_pred(on_line(refs, out.lines@[i].reference.id@), k);
            }
        }
    }
}

/// The calls of every journey of the joined data are sorted by reference
/// time.
pub proof fn law_calls_sorted(
    out: PTData,
    refs: Map<Seq<char>, LineReference>,
    stops: Option<Map<Seq<char>, StopReference>>,
    vjs: Seq<SiriJourney>,
    i: int,
    k: int,
)
    requires
        joined_data(out, refs, stops, vjs),
        0 <= i < out.lines.len(),
        0 <= k < out.lines@[i].vjs.len(),
    ensures
        sorted_calls(out.lines@[i].vjs@[k].estimated_calls@),
{
    let ids = line_ids(refs, vjs);
    assert(line_result(out.lines@[i], refs, stops, vjs, ids[i]));
    let js = journeys_on(refs, vjs, ids[i]);
    let out_vj = out.lines@[i].vjs@[k];
    assert(journey_result(out_vj, js[k], stops));
    match stops {
        None => {},
        Some(st) => {
            let vj = choose|vj: VehicleJourney|
                {
                    &&& #[trigger] journey_of(vj, js[k])
                    &&& out_vj.origin == vj.origin
                    &&& out_vj.destination == vj.destination
                    &&& out_vj.estimated_calls@ == patched_calls(vj.estimated_calls@, st)
                };
            let s = out_vj.estimated_calls@;
            let t = vj.estimated_calls@;
            assert forall|a: int, b: int| 0 <= a < b < s.len() implies !precedes(#[trigger] s[b], #[trigger] s[a]) by {
                assert(s[a].reference_time_of() == t[a].reference_time_of());
                assert(s[b].reference_time_of() == t[b].reference_time_of());
                assert(!precedes(t[b], t[a]));
            }
        },
    }
}

/// Filtering keeps the order of the kept elements.
pub proof fn lemma_filter_keeps_order(s: Seq<SiriJourney>, pred: spec_fn(SiriJourney) -> bool, a: int, b: int)
    requires
        0 <= a < b < s.len(),
        pred(s[a]),
        pred(s[b]),
    ensures
        exists|ka: int, kb: int|
            0 <= ka < kb < s.filter(pred).len() && #[trigger] s.filter(pred)[ka] == s[a]
                && #[trigger] s.filter(pred)[kb] == s[b],
    decreases s.len(),
{
    let prefix = s.drop_last();
    assert(s =~= prefix.push(s.last()));
    prefix.lemma_filter_push(s.last(), pred);
    if b == s.len() - 1 {
        assert(prefix[a] == s[a]);
        prefix.lemma_filter_contains(pred, a);
        let f = prefix.filter(pred);
        let ka = choose|ka: int| 0 <= ka < f.len() && f[ka] == s[a];
        assert(s.filter(pred)[ka] == s[a]);
        assert(s.filter(pred)[f.len() as int] == s[b]);
    } else {
        assert(prefix[a] == s[a] && prefix[b] == s[b]);
        lemma_filter_keeps_order(prefix, pred, a, b);
        let f = prefix.filter(pred);
        let (ka, kb) = choose|ka: int, kb: int|
            0 <= ka < kb < f.len() && #[trigger] f[ka] == prefix[a] && #[trigger] f[kb] == prefix[b];
        assert(s.filter(pred)[ka] == s[a]);
        assert(s.filter(pred)[kb] == s[b]);
    }
}

/// Two journeys on the same line keep their SIRI order in the joined data.
pub proof fn law_journey_order_kept(
    out: PTData,
    refs: Map<Seq<char>, LineReference>,
    stops: Option<Map<Seq<char>, StopReference>>,
    vjs: Seq<SiriJourney>,
    a: int,
    b: int,
)
    requires
        joined_data(out, refs, stops, vjs),
        0 <= a < b < vjs.len(),
        resolves(refs, vjs[a]),
        resolves(refs, vjs[b]),
        line_id(refs, vjs[a]) == line_id(refs, vjs[b]),
    ensures
        exists|i: int, ka: int, kb: int|
            0 <= i < out.lines.len() && 0 <= ka < kb < out.lines@[i].vjs.len()
                && #[trigger] journey_result(out.lines@[i].vjs@[ka], vjs[a], stops)
                && #[trigger] journey_result(out.lines@[i].vjs@[kb], vjs[b], stops),
{
    let id = line_id(refs, vjs[a]);
    let ids = line_ids(refs, vjs);
    lemma_filter_keeps_order(vjs, on_line(refs, id), a, b);
    vjs.lemma_filter_contains(on_line(refs, id), a);
    lemma_line_ids_contains(refs, vjs, id);
    let i = choose|i: int| 0 <= i < ids.len() && ids[i] == id;
    let js = journeys_on(refs, vjs, id);
    let (ka, kb) = choose|ka: int, kb: int|
        0 <= ka < kb < js.len() && #[trigger] js[ka] == vjs[a] && #[trigger] js[kb] == vjs[b];
    assert(line_result(out.lines@[i], refs, stops, vjs, id));
    assert(journey_result(out.lines@[i].vjs@[ka], js[ka], stops));
    assert(journey_result(out.lines@[i].vjs@[kb], js[kb], stops));
}

/// Adding a journey at the end adds it to the journeys of its own line, and
/// leaves those of every other line as they were.
pub proof fn lemma_journeys_on_push(
    refs: Map<Seq<char>, LineReference>,
    prefix: Seq<SiriJourney>,
    vj: SiriJourney,
    id: Seq<char>,
)
    ensures
        journeys_on(refs, prefix.push(vj), id) == if resolves(refs, vj) && line_id(refs, vj)
            == id {
            journeys_on(refs, prefix, id).push(vj)
        } else {
            journeys_on(refs, prefix, id)
        },
{
    prefix.lemma_filter_push(vj, on_line(refs, id));
}

/// Whether the calls of every journey whose line the referential knows can
/// be sorted by reference time, as joining them asks.
pub fn journeys_sortable(refs: &StringHashMap<LineReference>, vjs: &Vec<SiriJourney>) -> (res: bool)
    ensures
        res == sortable_journeys(refs@, vjs@),
{
    let mut i: usize = 0;
    while i < vjs.len()
        invariant
            i <= vjs.len(),
            forall|j: int|
                0 <= j < i && resolves(refs@, #[trigger] vjs@[j]) ==> orderable(
                    calls_of(vjs@[j].estimated_calls@),
                ),
        decreases vjs.len() - i,
    {
        let vj = &vjs[i];
        if refs.contains_key(vj.line_ref.as_str()) {
            let mut calls: Vec<EstimatedCall> = Vec::new();
            let mut k: usize = 0;
            while k < vj.estimated_calls.len()
                invariant
                    k <= vj.estimated_calls.len(),
                    calls@ == calls_of(vj.estimated_calls@).take(k as int),
                decreases vj.estimated_calls.len() - k,
            {
                calls.push(EstimatedCall::from_siri(&vj.estimated_calls[k]));
                proof {
                    assert(calls@ =~= calls_of(vj.estimated_calls@).take(k + 1));
                }
                k = k + 1;
            }
            proof {
                assert(calls@ =~= calls_of(vj.estimated_calls@));
            }
            if !calls_orderable(&calls) {
                return false;
            }
        }
        i = i + 1;
    }
    true
}

/// Joins the SIRI journeys with the line referential. The stop names of the
/// calls are set from the stop referential where one is given.
pub fn join_journeys(
    refs: &StringHashMap<LineReference>,
    stops: Option<&StringHashMap<StopReference>>,
    vjs: &Vec<SiriJourney>,
) -> (res: PTData)
    requires
        sortable_journeys(refs@, vjs@),
    ensures
        joined_data(
            res,
            refs@,
            match stops {
                Some(s) => Some(s@),
                None => None,
            },
            vjs@,
        ),
        res.wf(),
{
    let ghost st: Option<Map<Seq<char>, StopReference>> = match stops {
        Some(s) => Some(s@),
        None => None,
    };
    let mut lines: Vec<Line> = Vec::new();
    // the position in `lines` of each line id
    let mut index: StringHashMap<usize> = StringHashMap::new();
    let mut i: usize = 0;
    while i < vjs.len()
        invariant
            i <= vjs.len(),
            sortable_journeys(refs@, vjs@),
            st == match stops {
                Some(s) => Some(s@),
                None => None::<Map<Seq<char>, StopReference>>,
            },
            lines.len() == line_ids(refs@, vjs@.take(i as int)).len(),
            forall|j: int|
                0 <= j < lines.len() ==> line_result(
                    #[trigger] lines@[j],
                    refs@,
                    st,
                    vjs@.take(i as int),
                    line_ids(refs@, vjs@.take(i as int))[j],
                ),
            forall|key: Seq<char>|
                #[trigger] index@.contains_key(key) <==> line_ids(refs@, vjs@.take(i as int)).contains(
                    key,
                ),
            forall|j: int|
                0 <= j < lines.len() ==> index@[#[trigger] line_ids(refs@, vjs@.take(i as int))[j]]
                    == j,
        decreases vjs.len() - i,
    {
        let ghost prefix = vjs@.take(i as int);
        let ghost ids = line_ids(refs@, prefix);
        let ghost next = vjs@.take(i + 1);
        proof {
            assert(next =~= prefix.push(vjs@[i as int]));
            assert(next.drop_last() =~= prefix);
            lemma_line_ids_distinct(refs@, prefix);
        }
        let vj = &vjs[i];
        match refs.get(vj.line_ref.as_str()) {
            None => {
                proof {
                    assert(line_ids(refs@, next) == ids);
                    assert forall|j: int| 0 <= j < lines.len() implies line_result(
                        #[trigger] lines@[j],
                        refs@,
                        st,
                        next,
                        ids[j],
                    ) by {
                        lemma_journeys_on_push(refs@, prefix, vjs@[i as int], ids[j]);
                    }
                }
            },
            Some(r) => {
                let journey = VehicleJourney::from_siri(vj);
                let ghost plain = journey;
                let journey = match stops {
                    Some(s) => journey.patch_name(s),
                    None => journey,
                };
                proof {
                    assert(journey_of(plain, vjs@[i as int]));
                    assert(journey_result(journey, vjs@[i as int], st));
                }
                let ghost id = r.id@;
                let ghost old_lines = lines@;
                match index.get(r.id.as_str()) {
                    Some(pos) => {
                        let p = *pos;
                        proof {
                            let k = choose|k: int| 0 <= k < ids.len() && ids[k] == id;
                            assert(index@[ids[k]] == k);
                            assert(p == k);
                            assert(line_ids(refs@, next) == ids);
                        }
                        lines[p].vjs.push(journey);
                        proof {
                            assert forall|j: int| 0 <= j < lines.len() implies line_result(
                                #[trigger] lines@[j],
                                refs@,
                                st,
                                next,
                                ids[j],
                            ) by {
                                lemma_journeys_on_push(refs@, prefix, vjs@[i as int], ids[j]);
                                if j != p {
                                    assert(old_lines[j] == lines@[j]);
                                    assert(ids[j] != id);
                                } else {
                                    let js = journeys_on(refs@, next, ids[j]);
                                    assert(js == journeys_on(refs@, prefix, ids[j]).push(vjs@[i as int]));
                                    assert forall|k: int| 0 <= k < js.len() implies journey_result(
                                        #[trigger] lines@[j].vjs@[k],
                                        js[k],
                                        st,
                                    ) by {
                                        if k < js.len() - 1 {
                                            assert(lines@[j].vjs@[k] == old_lines[j].vjs@[k]);
                                        }
                                    }
                                }
                            }
                        }
                    },
                    None => {
                        let p = lines.len();
                        proof {
                            lemma_line_ids_contains(refs@, prefix, id);
                            assert(line_ids(refs@, next) == ids.push(id));
                        }
                        index.insert(r.id.clone(), p);
                        let mut first: Vec<VehicleJourney> = Vec::new();
                        first.push(journey);
                        lines.push(Line { reference: r.clone(), vjs: first });
                        proof {
                            let new_ids = ids.push(id);
                            assert forall|j: int| 0 <= j < lines.len() implies line_result(
                                #[trigger] lines@[j],
                                refs@,
                                st,
                                next,
                                new_ids[j],
                            ) by {
                                lemma_journeys_on_push(refs@, prefix, vjs@[i as int], new_ids[j]);
                                if j < p {
                                    assert(old_lines[j] == lines@[j]);
                                    assert(ids[j] != id);
                                } else {
                                    assert(journeys_on(refs@, prefix, id) =~= Seq::<SiriJourney>::empty());
                                    assert(journeys_on(refs@, next, id) =~= seq![vjs@[i as int]]);
                                }
                            }
                            assert forall|key: Seq<char>|
                                #[trigger] index@.contains_key(key) <==> new_ids.contains(key) by {
                                if ids.contains(key) {
                                    let k = choose|k: int| 0 <= k < ids.len() && ids[k] == key;
                                    assert(new_ids[k] == key);
                                }
                                if new_ids.contains(key) && key != id {
                                    let k = choose|k: int| 0 <= k < new_ids.len() && new_ids[k] == key;
                                    assert(ids[k] == key);
                                }
                                assert(new_ids[ids.len() as int] == id);
                            }
                            assert forall|j: int| 0 <= j < lines.len() implies index@[#[trigger] new_ids[j]] == j by {
                                if j < p {
                                    assert(new_ids[j] == ids[j]);
                                    assert(ids[j] != id);
                                }
                            }
                        }
                    },
                }
            },
        }
        i = i + 1;
    }
    proof {
        assert(vjs@.take(vjs.len() as int) =~= vjs@);
    }
    let res = PTData { lines };
    proof {
        law_lines_distinct(res, refs@, st, vjs@);
    }
    res
}

} // verus!
