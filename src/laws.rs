use vstd::prelude::*;

use crate::location::{Category, DictionaryLocation, MecabLocation, Tier};
use crate::place::{
    admits, confirmed_prefectures, confirms, cost_pairs, dedup, fuzzy, has_key, pick, promotes,
    resolve, slot_list, PlaceView, Slot, Stage,
};

verus! {

/// Every location that a pass picks comes from a match that the pass admits.
pub proof fn lemma_pick_sound(
    ps: Seq<MecabLocation>,
    stage: Stage,
    slot: Slot,
    confirmed: Seq<DictionaryLocation>,
    k: int,
)
    requires
        0 <= k < pick(ps, stage, slot, confirmed).len(),
    ensures
        exists|j: int|
            0 <= j < ps.len() && admits(stage, slot, confirmed, #[trigger] ps[j])
                && ps[j].location == pick(ps, stage, slot, confirmed)[k],
    decreases ps.len(),
{
    let prev = pick(ps.drop_last(), stage, slot, confirmed);
    if k < prev.len() {
        lemma_pick_sound(ps.drop_last(), stage, slot, confirmed, k);
        let j = choose|j: int|
            0 <= j < ps.drop_last().len() && admits(
                stage,
                slot,
                confirmed,
                #[trigger] ps.drop_last()[j],
            ) && ps.drop_last()[j].location == prev[k];
        assert(ps[j] == ps.drop_last()[j]);
    } else {
        assert(ps[ps.len() - 1] == ps.last());
    }
}

/// Every match that a pass admits has its location picked.
pub proof fn lemma_pick_complete(
    ps: Seq<MecabLocation>,
    stage: Stage,
    slot: Slot,
    confirmed: Seq<DictionaryLocation>,
    i: int,
)
    requires
        0 <= i < ps.len(),
        admits(stage, slot, confirmed, ps[i]),
    ensures
        pick(ps, stage, slot, confirmed).contains(ps[i].location),
    decreases ps.len(),
{
    let prev = pick(ps.drop_last(), stage, slot, confirmed);
    if i < ps.len() - 1 {
        assert(ps.drop_last()[i] == ps[i]);
        lemma_pick_complete(ps.drop_last(), stage, slot, confirmed, i);
        let k = choose|k: int| 0 <= k < prev.len() && prev[k] == ps[i].location;
        assert(pick(ps, stage, slot, confirmed)[k] == ps[i].location);
    } else {
        let r = pick(ps, stage, slot, confirmed);
        assert(r[r.len() - 1] == ps[i].location);
    }
}

/// No two elements of a deduplicated sequence share a key.
pub proof fn lemma_dedup_distinct(s: Seq<DictionaryLocation>)
    ensures
        forall|a: int, b: int|
            0 <= a < b < dedup(s).len() ==> dedup(s)[a].key() != dedup(s)[b].key(),
    decreases s.len(),
{
    if s.len() > 0 {
        lemma_dedup_distinct(s.drop_last());
    }
}

/// Deduplication keeps only elements of its input.
pub proof fn lemma_dedup_subset(s: Seq<DictionaryLocation>, k: int)
    requires
        0 <= k < dedup(s).len(),
    ensures
        s.contains(dedup(s)[k]),
    decreases s.len(),
{
    let r = dedup(s.drop_last());
    if k < r.len() {
        lemma_dedup_subset(s.drop_last(), k);
        let j = choose|j: int| 0 <= j < s.drop_last().len() && s.drop_last()[j] == r[k];
        assert(s[j] == r[k]);
    } else {
        assert(s[s.len() - 1] == s.last());
    }
}

/// Every element of the input keeps its key in the deduplicated sequence.
pub proof fn lemma_dedup_covers(s: Seq<DictionaryLocation>, i: int)
    requires
        0 <= i < s.len(),
    ensures
        has_key(dedup(s), s[i]),
    decreases s.len(),
{
    let r = dedup(s.drop_last());
    if i < s.len() - 1 {
        assert(s.drop_last()[i] == s[i]);
        lemma_dedup_covers(s.drop_last(), i);
        let j = choose|j: int| 0 <= j < r.len() && r[j].key() == s[i].key();
        assert(dedup(s)[j] == r[j]);
    } else if !has_key(r, s.last()) {
        assert(dedup(s)[r.len() as int] == s[i]);
    }
}

/// A sequence without two equal keys is its own deduplication.
pub proof fn lemma_dedup_of_distinct(s: Seq<DictionaryLocation>)
    requires
        forall|a: int, b: int| 0 <= a < b < s.len() ==> s[a].key() != s[b].key(),
    ensures
        dedup(s) == s,
    decreases s.len(),
{
    if s.len() > 0 {
        let t = s.drop_last();
        lemma_dedup_of_distinct(t);
        assert(!has_key(t, s.last())) by {
            if has_key(t, s.last()) {
                let j = choose|j: int| 0 <= j < t.len() && t[j].key() == s.last().key();
                assert(s[j].key() == s[s.len() - 1].key());
            }
        }
        assert(t.push(s.last()) == s);
    }
}

/// Deduplicating a second time changes nothing.
pub proof fn dedup_idempotent(s: Seq<DictionaryLocation>)
    ensures
        dedup(dedup(s)) == dedup(s),
{
    lemma_dedup_distinct(s);
    lemma_dedup_of_distinct(dedup(s));
}

/// Resolving an aggregate twice gives the same list both times and leaves
/// the aggregate as the first resolution left it.
pub proof fn resolve_twice(
    start: PlaceView,
    after_first: PlaceView,
    after_second: PlaceView,
    first: Seq<DictionaryLocation>,
    second: Seq<DictionaryLocation>,
)
    requires
        first == resolve(start.predictive),
        after_first == (PlaceView { fixed: first, ..start }),
        second == resolve(after_first.predictive),
        after_second == (PlaceView { fixed: second, ..after_first }),
    ensures
        first == second,
        after_first == after_second,
{
}

/// Locations that differ only in their names are equal, and deduplication
/// keeps the first of them alone.
pub proof fn names_do_not_count(a: DictionaryLocation, b: DictionaryLocation)
    requires
        a.location_type == b.location_type,
        a.prefecture_id == b.prefecture_id,
        a.city_id == b.city_id,
        a.station_id == b.station_id,
        a.street_address == b.street_address,
    ensures
        a.key() == b.key(),
        dedup(seq![a, b]) == seq![a],
{
    let s = seq![a, b];
    assert(s.drop_last() == seq![a]);
    assert(seq![a].drop_last() == Seq::<DictionaryLocation>::empty());
    let e = Seq::<DictionaryLocation>::empty();
    assert(dedup(e) == e);
    assert(!has_key(e, a));
    assert(e.push(a) == seq![a]);
    assert(dedup(seq![a]) == seq![a]);
    assert(seq![a][0].key() == b.key());
    assert(has_key(seq![a], b));
}

/// Locations with the same key have the same category.
pub proof fn lemma_key_category(a: DictionaryLocation, b: DictionaryLocation)
    requires
        a.key() == b.key(),
    ensures
        a.category() == b.category(),
{
}

/// Every element of the list `slot` is of a category that the list takes.
pub proof fn lemma_slot_category(ps: Seq<MecabLocation>, slot: Slot, k: int)
    requires
        0 <= k < dedup(slot_list(ps, slot)).len(),
    ensures
        promotes(slot, dedup(slot_list(ps, slot))[k].category()) || (slot == Slot::Prefecture
            && dedup(slot_list(ps, slot))[k].category() == Category::Prefecture),
{
    let c = confirmed_prefectures(ps);
    let l = slot_list(ps, slot);
    let a = pick(ps, Stage::Fixed, slot, c);
    let b = pick(ps, Stage::Scoped, slot, c);
    let d = pick(ps, Stage::Corroborated, slot, c);
    lemma_dedup_subset(l, k);
    let i = choose|i: int| 0 <= i < l.len() && l[i] == dedup(l)[k];
    if i < a.len() {
        lemma_pick_sound(ps, Stage::Fixed, slot, c, i);
    } else if i < a.len() + b.len() {
        assert(l[i] == b[i - a.len()]);
        lemma_pick_sound(ps, Stage::Scoped, slot, c, i - a.len());
    } else {
        assert(l[i] == d[i - a.len() - b.len()]);
        lemma_pick_sound(ps, Stage::Corroborated, slot, c, i - a.len() - b.len());
    }
}

/// The location of an admitted match has its key in the deduplicated list.
proof fn lemma_admitted_listed(ps: Seq<MecabLocation>, stage: Stage, slot: Slot, i: int)
    requires
        0 <= i < ps.len(),
        admits(stage, slot, confirmed_prefectures(ps), ps[i]),
    ensures
        has_key(dedup(slot_list(ps, slot)), ps[i].location),
{
    let c = confirmed_prefectures(ps);
    let l = slot_list(ps, slot);
    let a = pick(ps, Stage::Fixed, slot, c);
    let b = pick(ps, Stage::Scoped, slot, c);
    let d = pick(ps, Stage::Corroborated, slot, c);
    lemma_pick_complete(ps, stage, slot, c, i);
    let p = pick(ps, stage, slot, c);
    let k = choose|k: int| 0 <= k < p.len() && p[k] == ps[i].location;
    let at = match stage {
        Stage::Fixed => k,
        Stage::Scoped => a.len() + k,
        Stage::Corroborated => a.len() + b.len() + k,
    };
    assert(l[at] == ps[i].location);
    lemma_dedup_covers(l, at);
}

/// A location of another category than the list takes has no key in it.
proof fn lemma_not_listed(ps: Seq<MecabLocation>, slot: Slot, x: DictionaryLocation)
    requires
        !promotes(slot, x.category()),
        !(slot == Slot::Prefecture && x.category() == Category::Prefecture),
    ensures
        !has_key(dedup(slot_list(ps, slot)), x),
{
    if has_key(dedup(slot_list(ps, slot)), x) {
        let k = choose|k: int|
            0 <= k < dedup(slot_list(ps, slot)).len() && dedup(slot_list(ps, slot))[k].key()
                == x.key();
        lemma_slot_category(ps, slot, k);
        lemma_key_category(dedup(slot_list(ps, slot))[k], x);
    }
}

/// A fixed-tier street-name match is listed as a prefecture, a city and a
/// street, and never as a station.
pub proof fn street_name_promotion(ps: Seq<MecabLocation>, i: int)
    requires
        0 <= i < ps.len(),
        ps[i].cost.tier() == Tier::Fix,
        ps[i].location.category() == Category::StreetName,
    ensures
        has_key(dedup(slot_list(ps, Slot::Prefecture)), ps[i].location),
        has_key(dedup(slot_list(ps, Slot::City)), ps[i].location),
        has_key(dedup(slot_list(ps, Slot::Street)), ps[i].location),
        !has_key(dedup(slot_list(ps, Slot::Station)), ps[i].location),
{
    lemma_admitted_listed(ps, Stage::Fixed, Slot::Prefecture, i);
    lemma_admitted_listed(ps, Stage::Fixed, Slot::City, i);
    lemma_admitted_listed(ps, Stage::Fixed, Slot::Street, i);
    lemma_not_listed(ps, Slot::Station, ps[i].location);
}

/// A fixed-tier station match is listed as a prefecture and a station, and
/// never as a city or a street.
pub proof fn station_promotion(ps: Seq<MecabLocation>, i: int)
    requires
        0 <= i < ps.len(),
        ps[i].cost.tier() == Tier::Fix,
        ps[i].location.category() == Category::Station,
    ensures
        has_key(dedup(slot_list(ps, Slot::Prefecture)), ps[i].location),
        has_key(dedup(slot_list(ps, Slot::Station)), ps[i].location),
        !has_key(dedup(slot_list(ps, Slot::City)), ps[i].location),
        !has_key(dedup(slot_list(ps, Slot::Street)), ps[i].location),
{
    lemma_admitted_listed(ps, Stage::Fixed, Slot::Prefecture, i);
    lemma_admitted_listed(ps, Stage::Fixed, Slot::Station, i);
    lemma_not_listed(ps, Slot::City, ps[i].location);
    lemma_not_listed(ps, Slot::Street, ps[i].location);
}

/// A low-confidence match whose prefecture is confirmed is listed in every
/// list that its category is promoted into.
pub proof fn corroborated_included(ps: Seq<MecabLocation>, i: int, slot: Slot)
    requires
        0 <= i < ps.len(),
        ps[i].cost.tier() == Tier::RequirePrefecture,
        promotes(slot, ps[i].location.category()),
        confirms(confirmed_prefectures(ps), ps[i].location.pref_id()),
    ensures
        has_key(dedup(slot_list(ps, slot)), ps[i].location),
{
    lemma_admitted_listed(ps, Stage::Corroborated, slot, i);
}

/// Every resolved location is the location of a match that is not a
/// low-confidence one, or whose prefecture is confirmed: an uncorroborated
/// low-confidence match contributes nothing, whatever its category.
pub proof fn resolved_are_corroborated(ps: Seq<MecabLocation>, k: int)
    requires
        0 <= k < resolve(ps).len(),
    ensures
        exists|j: int|
            0 <= j < ps.len() && #[trigger] ps[j].location == resolve(ps)[k] && (
            ps[j].cost.tier() != Tier::RequirePrefecture || confirms(
                confirmed_prefectures(ps),
                ps[j].location.pref_id(),
            )),
{
    let c = confirmed_prefectures(ps);
    let d0 = dedup(slot_list(ps, Slot::Prefecture));
    let d1 = dedup(slot_list(ps, Slot::City));
    let d2 = dedup(slot_list(ps, Slot::Street));
    let d3 = dedup(slot_list(ps, Slot::Station));
    let x = resolve(ps)[k];
    let slot = if k < d0.len() {
        Slot::Prefecture
    } else if k < d0.len() + d1.len() {
        Slot::City
    } else if k < d0.len() + d1.len() + d2.len() {
        Slot::Street
    } else {
        Slot::Station
    };
    let off = if k < d0.len() {
        k
    } else if k < d0.len() + d1.len() {
        k - d0.len()
    } else if k < d0.len() + d1.len() + d2.len() {
        k - d0.len() - d1.len()
    } else {
        k - d0.len() - d1.len() - d2.len()
    };
    assert(dedup(slot_list(ps, slot))[off] == x);
    let l = slot_list(ps, slot);
    lemma_dedup_subset(l, off);
    let a = pick(ps, Stage::Fixed, slot, c);
    let b = pick(ps, Stage::Scoped, slot, c);
    let d = pick(ps, Stage::Corroborated, slot, c);
    let i = choose|i: int| 0 <= i < l.len() && l[i] == x;
    if i < a.len() {
        lemma_pick_sound(ps, Stage::Fixed, slot, c, i);
    } else if i < a.len() + b.len() {
        assert(l[i] == b[i - a.len()]);
        lemma_pick_sound(ps, Stage::Scoped, slot, c, i - a.len());
    } else {
        assert(l[i] == d[i - a.len() - b.len()]);
        lemma_pick_sound(ps, Stage::Corroborated, slot, c, i - a.len() - b.len());
    }
}

/// With no predictive matches, the fuzzy list is the low-predictive matches
/// as they are, each with its cost, in order and with repeats kept.
pub proof fn fuzzy_fallback(predictive: Seq<MecabLocation>, low_predictive: Seq<MecabLocation>)
    requires
        predictive.len() == 0,
    ensures
        fuzzy(predictive, low_predictive) == cost_pairs(low_predictive),
        fuzzy(predictive, low_predictive).len() == low_predictive.len(),
        forall|i: int|
            0 <= i < low_predictive.len() ==> #[trigger] fuzzy(predictive, low_predictive)[i]
                == (low_predictive[i].cost.cost, low_predictive[i].location),
{
}

} // verus!
