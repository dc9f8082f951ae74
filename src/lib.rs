use vstd::prelude::*;

pub mod laws;
pub mod location;
pub mod place;

pub use location::{
    Category, DictionaryLocation, DictionaryValue, MecabCost, MecabLocation, Tier,
};
pub use place::{DictionaryPlace, PlaceView, Slot, Stage};

verus! {

/// Some match in `ps` is a street-name entry.
pub open spec fn has_street_name(ps: Seq<MecabLocation>) -> bool {
    exists|j: int| 0 <= j < ps.len() && ps[j].location.category() == Category::StreetName
}

/// The street-name matches of `ps`, in order.
pub open spec fn street_names(ps: Seq<MecabLocation>) -> Seq<MecabLocation> {
    ps.filter(|m: MecabLocation| m.location.category() == Category::StreetName)
}

/// The primary matches: the street-name ones when there are any, else all of them.
pub open spec fn primary(ps: Seq<MecabLocation>) -> Seq<MecabLocation> {
    if has_street_name(ps) {
        street_names(ps)
    } else {
        ps
    }
}

/// The distinct nonzero prefecture ids of `ps`, in order of first occurrence.
pub open spec fn distinct_prefecture_ids(ps: Seq<MecabLocation>) -> Seq<i32>
    decreases ps.len(),
{
    if ps.len() == 0 {
        seq![]
    } else {
        let r = distinct_prefecture_ids(ps.drop_last());
        let id = ps.last().location.pref_id();
        if id != 0 && !r.contains(id) {
            r.push(id)
        } else {
            r
        }
    }
}

/// Entry points of the multi-pass lookup.
pub struct Dictionary {}

impl Dictionary {
    /// Keeps the street-name matches of an area lookup when there are any,
    /// since they are more specific than the rest; otherwise keeps all.
    pub fn str_to_location(locations: Vec<MecabLocation>) -> (r: Vec<MecabLocation>)
        ensures
            r@ == primary(locations@),
    {
        let mut streets: Vec<MecabLocation> = Vec::new();
        let mut i: usize = 0;
        while i < locations.len()
            invariant
                i <= locations.len(),
                streets@ == street_names(locations@.take(i as int)),
                streets@.len() > 0 <==> has_street_name(locations@.take(i as int)),
            decreases locations.len() - i,
        {
            let ghost prev = locations@.take(i as int);
            let ghost next = locations@.take(i + 1);
            assert(next.drop_last() == prev);
            proof {
                reveal(Seq::filter);
            }
            let is_street = locations[i].location.category_of() == Category::StreetName;
            if is_street {
                streets.push(locations[i].duplicate());
                assert(next[i as int].location.category() == Category::StreetName);
            } else {
                proof {
                    if has_street_name(next) {
                        let j = choose|j: int|
                            0 <= j < next.len() && next[j].location.category()
                                == Category::StreetName;
                        assert(prev[j] == next[j]);
                    }
                }
            }
            assert(has_street_name(prev) ==> has_street_name(next)) by {
                if has_street_name(prev) {
                    let j = choose|j: int|
                        0 <= j < prev.len() && prev[j].location.category()
                            == Category::StreetName;
                    assert(next[j] == prev[j]);
                }
            }
            i += 1;
        }
        assert(locations@.take(locations.len() as int) == locations@);
        if streets.len() > 0 {
            streets
        } else {
            locations
        }
    }

    /// The distinct nonzero prefecture ids of the primary matches; each one
    /// selects the station dictionaries to consult.
    pub fn prefecture_ids(locations: &Vec<MecabLocation>) -> (r: Vec<i32>)
        ensures
            r@ == distinct_prefecture_ids(locations@),
    {
        let mut ids: Vec<i32> = Vec::new();
        let mut i: usize = 0;
        while i < locations.len()
            invariant
                i <= locations.len(),
                ids@ == distinct_prefecture_ids(locations@.take(i as int)),
            decreases locations.len() - i,
        {
            assert(locations@.take(i + 1).drop_last() == locations@.take(i as int));
            let id = locations[i].location.prefecture_id_or_zero();
            if id != 0 && !place::contains_id(&ids, id) {
                ids.push(id);
            }
            i += 1;
        }
        assert(locations@.take(locations.len() as int) == locations@);
        ids
    }

    /// Builds the aggregate of one lookup: the primary matches followed by
    /// the station matches are predictive; the predictive-area matches are
    /// the low-predictive fallback. Nothing is resolved yet.
    pub fn location(
        primary: Vec<MecabLocation>,
        stations: Vec<MecabLocation>,
        predicts: Vec<MecabLocation>,
    ) -> (r: DictionaryPlace)
        ensures
            r@.fixed == Seq::<DictionaryLocation>::empty(),
            r@.predictive == primary@ + stations@,
            r@.low_predictive == predicts@,
    {
        let mut dic_place = DictionaryPlace::new();
        let mut i: usize = 0;
        while i < primary.len()
            invariant
                i <= primary.len(),
                dic_place@.fixed == Seq::<DictionaryLocation>::empty(),
                dic_place@.predictive == primary@.take(i as int),
                dic_place@.low_predictive == Seq::<MecabLocation>::empty(),
            decreases primary.len() - i,
        {
            dic_place.append_predictive_location(primary[i].duplicate());
            assert(primary@.take(i + 1) == primary@.take(i as int).push(primary@[i as int]));
            i += 1;
        }
        let mut k: usize = 0;
        while k < stations.len()
            invariant
                i == primary.len(),
                k <= stations.len(),
                dic_place@.fixed == Seq::<DictionaryLocation>::empty(),
                dic_place@.predictive == primary@ + stations@.take(k as int),
                dic_place@.low_predictive == Seq::<MecabLocation>::empty(),
            decreases stations.len() - k,
        {
            dic_place.append_predictive_location(stations[k].duplicate());
            assert(stations@.take(k + 1) == stations@.take(k as int).push(stations@[k as int]));
            assert(primary@ + stations@.take(k + 1) == (primary@ + stations@.take(
                k as int,
            )).push(stations@[k as int]));
            k += 1;
        }
        let mut n: usize = 0;
        while n < predicts.len()
            invariant
                n <= predicts.len(),
                dic_place@.fixed == Seq::<DictionaryLocation>::empty(),
                dic_place@.predictive == primary@ + stations@,
                dic_place@.low_predictive == predicts@.take(n as int),
            decreases predicts.len() - n,
        {
            dic_place.append_low_predictive_location(predicts[n].duplicate());
            assert(predicts@.take(n + 1) == predicts@.take(n as int).push(predicts@[n as int]));
            n += 1;
        }
        assert(primary@.take(primary.len() as int) == primary@);
        assert(stations@.take(stations.len() as int) == stations@);
        assert(predicts@.take(predicts.len() as int) == predicts@);
        dic_place
    }
}

} // verus!
