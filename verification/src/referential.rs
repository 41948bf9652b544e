//! The line and stop referentials, keyed as SIRI names lines and stop points.
use vstd::prelude::*;
use vstd::hash_map::StringHashMap;
use vstd::string::*;
use crate::objects::{LineReference, StopReference};

verus! {

/// The line referential: the lines by their SIRI name.
pub type LineReferential = StringHashMap<LineReference>;

/// The stop referential: the stops by their SIRI stop point name.
pub type StopReferential = StringHashMap<StopReference>;

/// The SIRI name of the line whose referential id is `id`.
pub open spec fn line_key(id: Seq<char>) -> Seq<char> {
    "STIF:Line::"@ + id + ":"@
}

/// The SIRI name of the stop point whose referential id is `id`.
pub open spec fn stop_point_key(id: Seq<char>) -> Seq<char> {
    "STIF:StopPoint:Q:"@ + id + ":"@
}

/// The line referential that the records make: each record under its SIRI
/// name, a later record replacing an earlier one of the same name.
pub open spec fn line_referential_of(records: Seq<LineReference>) -> Map<
    Seq<char>,
    LineReference,
>
    decreases records.len(),
{
    if records.len() == 0 {
        Map::empty()
    } else {
        line_referential_of(records.drop_last()).insert(
            line_key(records.last().id@),
            records.last(),
        )
    }
}

/// The stop referential that the records make: each record under its SIRI
/// stop point name, a later record replacing an earlier one of the same name.
pub open spec fn stop_referential_of(records: Seq<StopReference>) -> Map<
    Seq<char>,
    StopReference,
>
    decreases records.len(),
{
    if records.len() == 0 {
        Map::empty()
    } else {
        stop_referential_of(records.drop_last()).insert(
            stop_point_key(records.last().id@),
            records.last(),
        )
    }
}

/// The SIRI name of a line.
pub fn line_key_of(id: &str) -> (res: String)
    ensures
        res@ == line_key(id@),
{
    let mut key = String::from_str("STIF:Line::");
    key.append(id);
    key.append(":");
    key
}

/// The SIRI name of a stop point.
pub fn stop_point_key_of(id: &str) -> (res: String)
    ensures
        res@ == stop_point_key(id@),
{
    let mut key = String::from_str("STIF:StopPoint:Q:");
    key.append(id);
    key.append(":");
    key
}

/// The line referential of the records read from the referential file.
pub fn line_referential(records: &Vec<LineReference>) -> (res: StringHashMap<LineReference>)
    ensures
        res@ == line_referential_of(records@),
{
    let mut map: StringHashMap<LineReference> = StringHashMap::new();
    let mut i: usize = 0;
    while i < records.len()
        invariant
            i <= records.len(),
            map@ == line_referential_of(records@.take(i as int)),
        decreases records.len() - i,
    {
        let key = line_key_of(records[i].id.as_str());
        map.insert(key, records[i].clone());
        proof {
            assert(records@.take(i + 1).drop_last() =~= records@.take(i as int));
        }
        i = i + 1;
    }
    proof {
        assert(records@.take(records.len() as int) =~= records@);
    }
    map
}

/// The stop referential of the records read from the referential file.
pub fn stop_referential(records: &Vec<StopReference>) -> (res: StringHashMap<StopReference>)
    ensures
        res@ == stop_referential_of(records@),
{
    let mut map: StringHashMap<StopReference> = StringHashMap::new();
    let mut i: usize = 0;
    while i < records.len()
        invariant
            i <= records.len(),
            map@ == stop_referential_of(records@.take(i as int)),
        decreases records.len() - i,
    {
        let key = stop_point_key_of(records[i].id.as_str());
        map.insert(key, records[i].clone());
        proof {
            assert(records@.take(i + 1).drop_last() =~= records@.take(i as int));
        }
        i = i + 1;
    }
    proof {
        assert(records@.take(records.len() as int) =~= records@);
    }
    map
}

/// Different ids give different keys.
pub proof fn lemma_key_injective(prefix: Seq<char>, a: Seq<char>, b: Seq<char>)
    requires
        prefix + a + ":"@ == prefix + b + ":"@,
    ensures
        a == b,
{
    let ka = prefix + a + ":"@;
    let kb = prefix + b + ":"@;
    assert(ka.len() == prefix.len() + a.len() + ":"@.len());
    assert(kb.len() == prefix.len() + b.len() + ":"@.len());
    assert(a.len() == b.len());
    assert forall|k: int| 0 <= k < a.len() implies a[k] == b[k] by {
        assert(ka[prefix.len() + k] == a[k]);
        assert(kb[prefix.len() + k] == b[k]);
    }
    assert(a =~= b);
}

/// The line referential holds a line under a key exactly when some record
/// has that key, and under the key of a record it holds the last record with
/// the same id.
pub proof fn law_line_referential(records: Seq<LineReference>, i: int)
    requires
        0 <= i < records.len(),
    ensures
        line_referential_of(records).contains_key(line_key(records[i].id@)),
        (forall|j: int| i < j < records.len() ==> #[trigger] records[j].id@ != records[i].id@)
            ==> line_referential_of(records)[line_key(records[i].id@)] == records[i],
    decreases records.len(),
{
    let last = records.len() - 1;
    if i < last {
        assert(records.drop_last()[i] == records[i]);
        law_line_referential(records.drop_last(), i);
        if (forall|j: int| i < j < records.len() ==> #[trigger] records[j].id@ != records[i].id@) {
            assert(records[last].id@ != records[i].id@);
            if line_key(records.last().id@) == line_key(records[i].id@) {
                lemma_key_injective("STIF:Line::"@, records.last().id@, records[i].id@);
            }
            assert forall|j: int| i < j < records.drop_last().len() implies #[trigger] records.drop_last()[j].id@
                != records.drop_last()[i].id@ by {
                assert(records.drop_last()[j] == records[j]);
            }
        }
    }
}

/// Every key of the line referential is the key of some record.
pub proof fn law_line_referential_keys(records: Seq<LineReference>, key: Seq<char>)
    requires
        line_referential_of(records).contains_key(key),
    ensures
        exists|j: int| 0 <= j < records.len() && line_key(#[trigger] records[j].id@) == key,
    decreases records.len(),
{
    let last = records.len() - 1;
    if line_key(records[last].id@) != key {
        law_line_referential_keys(records.drop_last(), key);
        let j = choose|j: int| 0 <= j < records.drop_last().len() && line_key(#[trigger] records.drop_last()[j].id@) == key;
        assert(records[j] == records.drop_last()[j]);
    }
}

/// The stop referential holds a stop under a key exactly when some record
/// has that key, and under the key of a record it holds the last record with
/// the same id.
pub proof fn law_stop_referential(records: Seq<StopReference>, i: int)
    requires
        0 <= i < records.len(),
    ensures
        stop_referential_of(records).contains_key(stop_point_key(records[i].id@)),
        (forall|j: int| i < j < records.len() ==> #[trigger] records[j].id@ != records[i].id@)
            ==> stop_referential_of(records)[stop_point_key(records[i].id@)] == records[i],
    decreases records.len(),
{
    let last = records.len() - 1;
    if i < last {
        assert(records.drop_last()[i] == records[i]);
        law_stop_referential(records.drop_last(), i);
        if (forall|j: int| i < j < records.len() ==> #[trigger] records[j].id@ != records[i].id@) {
            assert(records[last].id@ != records[i].id@);
            if stop_point_key(records.last().id@) == stop_point_key(records[i].id@) {
                lemma_key_injective("STIF:StopPoint:Q:"@, records.last().id@, records[i].id@);
            }
            assert forall|j: int| i < j < records.drop_last().len() implies #[trigger] records.drop_last()[j].id@
                != records.drop_last()[i].id@ by {
                assert(records.drop_last()[j] == records[j]);
            }
        }
    }
}

/// Every key of the stop referential is the key of some record.
pub proof fn law_stop_referential_keys(records: Seq<StopReference>, key: Seq<char>)
    requires
        stop_referential_of(records).contains_key(key),
    ensures
        exists|j: int| 0 <= j < records.len() && stop_point_key(#[trigger] records[j].id@) == key,
    decreases records.len(),
{
    let last = records.len() - 1;
    if stop_point_key(records[last].id@) != key {
        law_stop_referential_keys(records.drop_last(), key);
        let j = choose|j: int| 0 <= j < records.drop_last().len() && stop_point_key(#[trigger] records.drop_last()[j].id@) == key;
        assert(records[j] == records.drop_last()[j]);
    }
}

} // verus!
