use vstd::prelude::*;

use crate::location::{Category, DictionaryLocation, MecabLocation, Tier};

verus! {

/// One of the four result lists of a resolution.
#[derive(PartialEq, Eq, Structural, Debug, Clone, Copy)]
pub enum Slot {
    Prefecture,
    City,
    Street,
    Station,
}

/// One of the three passes of a resolution over the predictive matches.
#[derive(PartialEq, Eq, Structural, Debug, Clone, Copy)]
pub enum Stage {
    /// Fixed-tier matches, promoted by category alone.
    Fixed,
    /// Prefecture-tier matches of category prefecture.
    Scoped,
    /// Low-confidence matches whose prefecture was already confirmed.
    Corroborated,
}

/// Which result lists a match of category `c` is promoted into.
pub open spec fn promotes(slot: Slot, c: Category) -> bool {
    match slot {
        Slot::Prefecture => c == Category::StreetName || c == Category::Municipality || c
            == Category::Station,
        Slot::City => c == Category::StreetName || c == Category::Municipality,
        Slot::Street => c == Category::StreetName,
        Slot::Station => c == Category::Station,
    }
}

/// `id` is a nonzero prefecture id of some location in `confirmed`.
pub open spec fn confirms(confirmed: Seq<DictionaryLocation>, id: i32) -> bool {
    id != 0 && exists|j: int| 0 <= j < confirmed.len() && confirmed[j].pref_id() == id
}

/// Whether `stage` puts match `m` into list `slot`, given the confirmed prefectures.
pub open spec fn admits(
    stage: Stage,
    slot: Slot,
    confirmed: Seq<DictionaryLocation>,
    m: MecabLocation,
) -> bool {
    match stage {
        Stage::Fixed => m.cost.tier() == Tier::Fix && promotes(slot, m.location.category()),
        Stage::Scoped => m.cost.tier() == Tier::Prefecture && slot == Slot::Prefecture
            && m.location.category() == Category::Prefecture,
        Stage::Corroborated => m.cost.tier() == Tier::RequirePrefecture && promotes(
            slot,
            m.location.category(),
        ) && confirms(confirmed, m.location.pref_id()),
    }
}

/// The locations of the matches that `stage` puts into `slot`, in input order.
pub open spec fn pick(
    ps: Seq<MecabLocation>,
    stage: Stage,
    slot: Slot,
    confirmed: Seq<DictionaryLocation>,
) -> Seq<DictionaryLocation>
    decreases ps.len(),
{
    if ps.len() == 0 {
        seq![]
    } else {
        let r = pick(ps.drop_last(), stage, slot, confirmed);
        if admits(stage, slot, confirmed, ps.last()) {
            r.push(ps.last().location)
        } else {
            r
        }
    }
}

/// The prefecture list as it stands before low-confidence matches are considered.
pub open spec fn confirmed_prefectures(ps: Seq<MecabLocation>) -> Seq<DictionaryLocation> {
    pick(ps, Stage::Fixed, Slot::Prefecture, seq![]) + pick(
        ps,
        Stage::Scoped,
        Slot::Prefecture,
        seq![],
    )
}

/// The list `slot` before deduplication: the three passes in order.
pub open spec fn slot_list(ps: Seq<MecabLocation>, slot: Slot) -> Seq<DictionaryLocation> {
    let c = confirmed_prefectures(ps);
    pick(ps, Stage::Fixed, slot, c) + pick(ps, Stage::Scoped, slot, c) + pick(
        ps,
        Stage::Corroborated,
        slot,
        c,
    )
}

/// Some element of `s` has the same key as `x`.
pub open spec fn has_key(s: Seq<DictionaryLocation>, x: DictionaryLocation) -> bool {
    exists|j: int| 0 <= j < s.len() && s[j].key() == x.key()
}

/// `s` with every element dropped whose key occurred earlier.
pub open spec fn dedup(s: Seq<DictionaryLocation>) -> Seq<DictionaryLocation>
    decreases s.len(),
{
    if s.len() == 0 {
        seq![]
    } else {
        let r = dedup(s.drop_last());
        if has_key(r, s.last()) {
            r
        } else {
            r.push(s.last())
        }
    }
}

/// The fixed resolution of a sequence of predictive matches.
pub open spec fn resolve(ps: Seq<MecabLocation>) -> Seq<DictionaryLocation> {
    dedup(slot_list(ps, Slot::Prefecture)) + dedup(slot_list(ps, Slot::City)) + dedup(
        slot_list(ps, Slot::Street),
    ) + dedup(slot_list(ps, Slot::Station))
}

/// Each match as a pair of its cost and its location.
pub open spec fn cost_pairs(ps: Seq<MecabLocation>) -> Seq<(i32, DictionaryLocation)> {
    ps.map_values(|m: MecabLocation| (m.cost.cost, m.location))
}

/// The fuzzy list: the predictive matches, or the low-predictive ones when there are none.
pub open spec fn fuzzy(
    predictive: Seq<MecabLocation>,
    low_predictive: Seq<MecabLocation>,
) -> Seq<(i32, DictionaryLocation)> {
    if predictive.len() > 0 {
        cost_pairs(predictive)
    } else {
        cost_pairs(low_predictive)
    }
}

/// The abstract state of an aggregate.
pub ghost struct PlaceView {
    pub fixed: Seq<DictionaryLocation>,
    pub predictive: Seq<MecabLocation>,
    pub low_predictive: Seq<MecabLocation>,
}

/// Accumulates matches from the dictionary passes and resolves them.
#[derive(Debug, Clone, Default)]
pub struct DictionaryPlace {
    fixed_locations: Vec<DictionaryLocation>,
    predictive_locations: Vec<MecabLocation>,
    low_predictive_locations: Vec<MecabLocation>,
}

impl View for DictionaryPlace {
    type V = PlaceView;

    closed spec fn view(&self) -> PlaceView {
        PlaceView {
            fixed: self.fixed_locations@,
            predictive: self.predictive_locations@,
            low_predictive: self.low_predictive_locations@,
        }
    }
}

impl DictionaryPlace {
    pub fn new() -> (r: DictionaryPlace)
        ensures
            r@.fixed == Seq::<DictionaryLocation>::empty(),
            r@.predictive == Seq::<MecabLocation>::empty(),
            r@.low_predictive == Seq::<MecabLocation>::empty(),
    {
        DictionaryPlace {
            fixed_locations: Vec::new(),
            predictive_locations: Vec::new(),
            low_predictive_locations: Vec::new(),
        }
    }

    pub fn append_predictive_location(&mut self, location: MecabLocation)
        ensures
            final(self)@ == (PlaceView {
                predictive: old(self)@.predictive.push(location),
                ..old(self)@
            }),
    {
        self.predictive_locations.push(location);
    }

    pub fn append_low_predictive_location(&mut self, location: MecabLocation)
        ensures
            final(self)@ == (PlaceView {
                low_predictive: old(self)@.low_predictive.push(location),
                ..old(self)@
            }),
    {
        self.low_predictive_locations.push(location);
    }

    /// Every match with its cost: the predictive ones, or, when there are
    /// none, the low-predictive ones. Nothing is filtered or merged.
    pub fn fuzzy_location(&mut self) -> (r: Vec<(i32, DictionaryLocation)>)
        ensures
            r@ == fuzzy(old(self)@.predictive, old(self)@.low_predictive),
            final(self)@ == old(self)@,
    {
        let mut response = pairs_of(&self.predictive_locations);
        if response.len() == 0 {
            response = pairs_of(&self.low_predictive_locations);
        }
        response
    }

    /// Resolves the predictive matches into the confirmed prefecture, city,
    /// street and station lists, each deduplicated, and caches the result.
    pub fn fix_location(&mut self) -> (r: Vec<DictionaryLocation>)
        ensures
            r@ == resolve(old(self)@.predictive),
            final(self)@ == (PlaceView { fixed: r@, ..old(self)@ }),
    {
        let values = resolve_matches(&self.predictive_locations);
        self.fixed_locations = clone_all(&values);
        values
    }
}

fn pairs_of(ps: &Vec<MecabLocation>) -> (r: Vec<(i32, DictionaryLocation)>)
    ensures
        r@ == cost_pairs(ps@),
{
    let mut r: Vec<(i32, DictionaryLocation)> = Vec::new();
    let mut i: usize = 0;
    while i < ps.len()
        invariant
            i <= ps.len(),
            r@ == cost_pairs(ps@.take(i as int)),
        decreases ps.len() - i,
    {
        let m = &ps[i];
        r.push((m.cost.cost, m.location.duplicate()));
        assert(ps@.take(i + 1) == ps@.take(i as int).push(ps@[i as int]));
        i += 1;
    }
    assert(ps@.take(ps.len() as int) == ps@);
    r
}

fn clone_all(s: &Vec<DictionaryLocation>) -> (r: Vec<DictionaryLocation>)
    ensures
        r@ == s@,
{
    let mut r: Vec<DictionaryLocation> = Vec::new();
    let mut i: usize = 0;
    while i < s.len()
        invariant
            i <= s.len(),
            r@ == s@.take(i as int),
        decreases s.len() - i,
    {
        r.push(s[i].duplicate());
        assert(s@.take(i + 1) == s@.take(i as int).push(s@[i as int]));
        i += 1;
    }
    assert(s@.take(s.len() as int) == s@);
    r
}

fn promotes_into(slot: Slot, c: Category) -> (r: bool)
    ensures
        r == promotes(slot, c),
{
    match slot {
        Slot::Prefecture => c == Category::StreetName || c == Category::Municipality || c
            == Category::Station,
        Slot::City => c == Category::StreetName || c == Category::Municipality,
        Slot::Street => c == Category::StreetName,
        Slot::Station => c == Category::Station,
    }
}

/// Whether `id` occurs in `ids`.
pub(crate) fn contains_id(ids: &Vec<i32>, id: i32) -> (r: bool)
    ensures
        r == ids@.contains(id),
{
    let mut i: usize = 0;
    while i < ids.len()
        invariant
            i <= ids.len(),
            forall|k: int| 0 <= k < i ==> ids@[k] != id,
        decreases ids.len() - i,
    {
        if ids[i] == id {
            return true;
        }
        i += 1;
    }
    false
}

/// The nonzero prefecture ids of `confirmed`, as a list.
fn prefecture_ids(confirmed: &Vec<DictionaryLocation>) -> (r: Vec<i32>)
    ensures
        forall|id: i32| r@.contains(id) <==> confirms(confirmed@, id),
{
    let mut r: Vec<i32> = Vec::new();
    let mut i: usize = 0;
    while i < confirmed.len()
        invariant
            i <= confirmed.len(),
            forall|k: int|
                0 <= k < r@.len() ==> r@[k] != 0 && exists|j: int|
                    0 <= j < i && confirmed@[j].pref_id() == r@[k],
            forall|j: int|
                0 <= j < i && confirmed@[j].pref_id() != 0 ==> r@.contains(
                    confirmed@[j].pref_id(),
                ),
        decreases confirmed.len() - i,
    {
        let id = confirmed[i].prefecture_id_or_zero();
        let ghost before = r@;
        if id != 0 {
            r.push(id);
            assert(r@[r@.len() - 1] == id);
        }
        assert forall|j: int|
            0 <= j < i && confirmed@[j].pref_id() != 0 implies r@.contains(
                confirmed@[j].pref_id(),
            ) by {
            let k = choose|k: int| 0 <= k < before.len() && before[k] == confirmed@[j].pref_id();
            assert(r@[k] == before[k]);
        }
        i += 1;
    }
    assert forall|id: i32| r@.contains(id) <==> confirms(confirmed@, id) by {
        if confirms(confirmed@, id) {
            let j = choose|j: int| 0 <= j < confirmed@.len() && confirmed@[j].pref_id() == id;
            assert(r@.contains(confirmed@[j].pref_id()));
        }
        if r@.contains(id) {
            let k = choose|k: int| 0 <= k < r@.len() && r@[k] == id;
            assert(r@[k] != 0);
        }
    }
    r
}

/// The locations of the matches in `ps` that `stage` puts into `slot`.
fn pick_matches(
    ps: &Vec<MecabLocation>,
    stage: Stage,
    slot: Slot,
    confirmed: &Vec<DictionaryLocation>,
    ids: &Vec<i32>,
) -> (r: Vec<DictionaryLocation>)
    requires
        forall|id: i32| ids@.contains(id) <==> confirms(confirmed@, id),
    ensures
        r@ == pick(ps@, stage, slot, confirmed@),
{
    let mut r: Vec<DictionaryLocation> = Vec::new();
    let mut i: usize = 0;
    while i < ps.len()
        invariant
            i <= ps.len(),
            forall|id: i32| ids@.contains(id) <==> confirms(confirmed@, id),
            r@ == pick(ps@.take(i as int), stage, slot, confirmed@),
        decreases ps.len() - i,
    {
        let m = &ps[i];
        let category = m.location.category_of();
        let admitted = match stage {
            Stage::Fixed => m.cost.is_fix() && promotes_into(slot, category),
            Stage::Scoped => m.cost.is_prefecture() && slot == Slot::Prefecture && category
                == Category::Prefecture,
            Stage::Corroborated => {
                let id = m.location.prefecture_id_or_zero();
                m.cost.is_require_prefecture() && promotes_into(slot, category) && id != 0
                    && contains_id(ids, id)
            },
        };
        assert(ps@.take(i + 1).drop_last() == ps@.take(i as int));
        if admitted {
            r.push(m.location.duplicate());
        }
        i += 1;
    }
    assert(ps@.take(ps.len() as int) == ps@);
    r
}

/// Whether some element of `s` has the same key as `x`.
fn has_same_key(s: &Vec<DictionaryLocation>, x: &DictionaryLocation) -> (r: bool)
    ensures
        r == has_key(s@, *x),
{
    let mut i: usize = 0;
    while i < s.len()
        invariant
            i <= s.len(),
            forall|k: int| 0 <= k < i ==> s@[k].key() != x.key(),
        decreases s.len() - i,
    {
        if s[i].same_key(x) {
            return true;
        }
        i += 1;
    }
    false
}

/// `s` without the elements whose key occurred earlier.
fn dedup_locations(s: &Vec<DictionaryLocation>) -> (r: Vec<DictionaryLocation>)
    ensures
        r@ == dedup(s@),
{
    let mut r: Vec<DictionaryLocation> = Vec::new();
    let mut i: usize = 0;
    while i < s.len()
        invariant
            i <= s.len(),
            r@ == dedup(s@.take(i as int)),
        decreases s.len() - i,
    {
        assert(s@.take(i + 1).drop_last() == s@.take(i as int));
        if !has_same_key(&r, &s[i]) {
            r.push(s[i].duplicate());
        }
        i += 1;
    }
    assert(s@.take(s.len() as int) == s@);
    r
}

/// The list `slot` of the resolution, deduplicated.
fn resolve_slot(
    ps: &Vec<MecabLocation>,
    slot: Slot,
    confirmed: &Vec<DictionaryLocation>,
    ids: &Vec<i32>,
) -> (r: Vec<DictionaryLocation>)
    requires
        confirmed@ == confirmed_prefectures(ps@),
        forall|id: i32| ids@.contains(id) <==> confirms(confirmed@, id),
    ensures
        r@ == dedup(slot_list(ps@, slot)),
{
    let mut list = pick_matches(ps, Stage::Fixed, slot, confirmed, ids);
    let mut scoped = pick_matches(ps, Stage::Scoped, slot, confirmed, ids);
    let mut corroborated = pick_matches(ps, Stage::Corroborated, slot, confirmed, ids);
    list.append(&mut scoped);
    list.append(&mut corroborated);
    dedup_locations(&list)
}

/// The fixed resolution of `ps`.
fn resolve_matches(ps: &Vec<MecabLocation>) -> (r: Vec<DictionaryLocation>)
    ensures
        r@ == resolve(ps@),
{
    let none: Vec<DictionaryLocation> = Vec::new();
    let no_ids: Vec<i32> = Vec::new();
    let mut confirmed = pick_matches(ps, Stage::Fixed, Slot::Prefecture, &none, &no_ids);
    let mut scoped = pick_matches(ps, Stage::Scoped, Slot::Prefecture, &none, &no_ids);
    confirmed.append(&mut scoped);
    assert(none@ == Seq::<DictionaryLocation>::empty());
    let ids = prefecture_ids(&confirmed);
    let mut values = resolve_slot(ps, Slot::Prefecture, &confirmed, &ids);
    let mut cities = resolve_slot(ps, Slot::City, &confirmed, &ids);
    let mut streets = resolve_slot(ps, Slot::Street, &confirmed, &ids);
    let mut stations = resolve_slot(ps, Slot::Station, &confirmed, &ids);
    values.append(&mut cities);
    values.append(&mut streets);
    values.append(&mut stations);
    values
}

} // verus!
