use vstd::prelude::*;

verus! {

/// Category word of a street-name entry.
pub const STREET_NAME: &'static str = "\u{8857}\u{540d}";

/// Category word of a municipality entry.
pub const MUNICIPALITY: &'static str = "\u{5e02}\u{533a}\u{753a}\u{6751}";

/// Category word of a station entry.
pub const STATION: &'static str = "\u{99c5}";

/// Category word of a prefecture entry.
pub const PREFECTURE: &'static str = "\u{90fd}\u{9053}\u{5e9c}\u{770c}";

/// Costs at or below this bound mark an exact, standalone match.
pub const FIX_BOUND: i32 = -18000;

/// Costs at or below this bound (and above `FIX_BOUND`) confirm a prefecture.
pub const PREFECTURE_BOUND: i32 = -11000;

/// One matched dictionary entry. Only the type, the ids and the street
/// address take part in equality; the names are for display.
#[derive(Debug, Clone, Default)]
pub struct DictionaryLocation {
    pub location_type: Option<String>,
    pub prefecture_id: Option<i32>,
    pub prefecture_name: Option<String>,
    pub major_city_id: Option<i32>,
    pub major_city_name: Option<String>,
    pub city_id: Option<i32>,
    pub city_name: Option<String>,
    pub street_address: Option<String>,
    pub station_id: Option<i32>,
    pub station_name: Option<String>,
}

/// The closed set of categories that the resolution rules distinguish.
#[derive(PartialEq, Eq, Structural, Debug, Clone, Copy)]
pub enum Category {
    StreetName,
    Municipality,
    Station,
    Prefecture,
    Other,
}

/// The text of an optional string field, as a sequence of characters.
pub open spec fn text_of(o: Option<String>) -> Option<Seq<char>> {
    match o {
        Some(s) => Some(s@),
        None => None,
    }
}

/// The part of a location that equality looks at.
pub struct LocationKey {
    pub location_type: Option<Seq<char>>,
    pub prefecture_id: Option<i32>,
    pub city_id: Option<i32>,
    pub station_id: Option<i32>,
    pub street_address: Option<Seq<char>>,
}

impl DictionaryLocation {
    pub open spec fn key(self) -> LocationKey {
        LocationKey {
            location_type: text_of(self.location_type),
            prefecture_id: self.prefecture_id,
            city_id: self.city_id,
            station_id: self.station_id,
            street_address: text_of(self.street_address),
        }
    }

    /// The category named by `location_type`; an unset or unknown word is `Other`.
    pub open spec fn category(self) -> Category {
        match self.location_type {
            Some(t) => {
                if t@ == STREET_NAME@ {
                    Category::StreetName
                } else if t@ == MUNICIPALITY@ {
                    Category::Municipality
                } else if t@ == STATION@ {
                    Category::Station
                } else if t@ == PREFECTURE@ {
                    Category::Prefecture
                } else {
                    Category::Other
                }
            },
            None => Category::Other,
        }
    }

    /// The prefecture id, with an absent id read as zero.
    pub open spec fn pref_id(self) -> i32 {
        match self.prefecture_id {
            Some(id) => id,
            None => 0,
        }
    }

    pub fn category_of(&self) -> (r: Category)
        ensures
            r == self.category(),
    {
        match &self.location_type {
            Some(t) => {
                if *t == STREET_NAME.to_owned() {
                    Category::StreetName
                } else if *t == MUNICIPALITY.to_owned() {
                    Category::Municipality
                } else if *t == STATION.to_owned() {
                    Category::Station
                } else if *t == PREFECTURE.to_owned() {
                    Category::Prefecture
                } else {
                    Category::Other
                }
            },
            None => Category::Other,
        }
    }

    pub fn prefecture_id_or_zero(&self) -> (r: i32)
        ensures
            r == self.pref_id(),
    {
        match self.prefecture_id {
            Some(id) => id,
            None => 0,
        }
    }

    /// Whether two locations agree on type, ids and street address.
    pub fn same_key(&self, other: &DictionaryLocation) -> (r: bool)
        ensures
            r == (self.key() == other.key()),
    {
        same_text(&self.location_type, &other.location_type) && same_id(
            self.prefecture_id,
            other.prefecture_id,
        ) && same_id(self.city_id, other.city_id) && same_id(self.station_id, other.station_id)
            && same_text(&self.street_address, &other.street_address)
    }

    /// A field-by-field copy.
    pub fn duplicate(&self) -> (r: DictionaryLocation)
        ensures
            r == *self,
    {
        DictionaryLocation {
            location_type: copy_text(&self.location_type),
            prefecture_id: self.prefecture_id,
            prefecture_name: copy_text(&self.prefecture_name),
            major_city_id: self.major_city_id,
            major_city_name: copy_text(&self.major_city_name),
            city_id: self.city_id,
            city_name: copy_text(&self.city_name),
            street_address: copy_text(&self.street_address),
            station_id: self.station_id,
            station_name: copy_text(&self.station_name),
        }
    }
}

fn same_text(a: &Option<String>, b: &Option<String>) -> (r: bool)
    ensures
        r == (text_of(*a) == text_of(*b)),
{
    match (a, b) {
        (Some(x), Some(y)) => *x == *y,
        (None, None) => true,
        _ => false,
    }
}

fn same_id(a: Option<i32>, b: Option<i32>) -> (r: bool)
    ensures
        r == (a == b),
{
    match (a, b) {
        (Some(x), Some(y)) => x == y,
        (None, None) => true,
        _ => false,
    }
}

fn copy_text(a: &Option<String>) -> (r: Option<String>)
    ensures
        r == *a,
{
    match a {
        Some(s) => Some(s.clone()),
        None => None,
    }
}

impl PartialEq for DictionaryLocation {
    fn eq(&self, other: &DictionaryLocation) -> (r: bool) {
        self.same_key(other)
    }
}

impl vstd::std_specs::cmp::PartialEqSpecImpl for DictionaryLocation {
    open spec fn obeys_eq_spec() -> bool {
        true
    }

    open spec fn eq_spec(&self, other: &DictionaryLocation) -> bool {
        self.key() == other.key()
    }
}

/// A word matched by a generic dictionary, with its decoded payload.
#[derive(Debug, Clone, Default)]
pub struct DictionaryValue<T> {
    pub word: String,
    pub value: T,
}

/// The confidence tier of a match cost.
#[derive(PartialEq, Eq, Structural, Debug, Clone, Copy)]
pub enum Tier {
    Fix,
    Prefecture,
    RequirePrefecture,
}

pub open spec fn tier_of(cost: int) -> Tier {
    if cost <= FIX_BOUND {
        Tier::Fix
    } else if cost <= PREFECTURE_BOUND {
        Tier::Prefecture
    } else {
        Tier::RequirePrefecture
    }
}

/// The cost that the tagger gave a matched entry.
#[derive(Debug, Clone, Copy, Default)]
pub struct MecabCost {
    pub cost: i32,
}

impl MecabCost {
    pub open spec fn tier(self) -> Tier {
        tier_of(self.cost as int)
    }

    pub fn new(cost: i32) -> (r: MecabCost)
        ensures
            r.cost == cost,
    {
        MecabCost { cost }
    }

    pub fn is_fix(&self) -> (r: bool)
        ensures
            r == (self.cost <= FIX_BOUND),
            r == (self.tier() == Tier::Fix),
    {
        FIX_BOUND >= self.cost
    }

    pub fn is_prefecture(&self) -> (r: bool)
        ensures
            r == (FIX_BOUND < self.cost <= PREFECTURE_BOUND),
            r == (self.tier() == Tier::Prefecture),
    {
        PREFECTURE_BOUND >= self.cost && self.cost > FIX_BOUND
    }

    pub fn is_require_prefecture(&self) -> (r: bool)
        ensures
            r == (PREFECTURE_BOUND < self.cost),
            r == (self.tier() == Tier::RequirePrefecture),
    {
        PREFECTURE_BOUND < self.cost
    }
}

/// Every cost falls in exactly one tier, split at `FIX_BOUND` and `PREFECTURE_BOUND`.
pub proof fn tiers_partition(cost: int)
    ensures
        (tier_of(cost) == Tier::Fix) == (cost <= -18000),
        (tier_of(cost) == Tier::Prefecture) == (-18000 < cost <= -11000),
        (tier_of(cost) == Tier::RequirePrefecture) == (-11000 < cost),
        (cost <= -18000) || (-18000 < cost <= -11000) || (-11000 < cost),
        !((cost <= -18000) && (-18000 < cost)),
        !((cost <= -11000) && (-11000 < cost)),
{
}

/// A matched entry together with its cost.
#[derive(Debug, Clone, Default)]
pub struct MecabLocation {
    pub location: DictionaryLocation,
    pub cost: MecabCost,
}

impl MecabLocation {
    /// A copy that keeps every field.
    pub fn duplicate(&self) -> (r: MecabLocation)
        ensures
            r == *self,
    {
        MecabLocation { location: self.location.duplicate(), cost: self.cost }
    }
}

} // verus!
