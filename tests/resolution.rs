use uiuifree_dictionary::location::{MUNICIPALITY, PREFECTURE, STATION, STREET_NAME};
use uiuifree_dictionary::{
    Category, Dictionary, DictionaryLocation, DictionaryPlace, MecabCost, MecabLocation,
};

fn fragment(kind: &str, prefecture_id: i32) -> DictionaryLocation {
    DictionaryLocation {
        location_type: Some(kind.to_string()),
        prefecture_id: Some(prefecture_id),
        ..Default::default()
    }
}

fn matched(cost: i32, location: DictionaryLocation) -> MecabLocation {
    MecabLocation { location, cost: MecabCost::new(cost) }
}

fn street(prefecture_id: i32, city_id: i32, address: &str) -> DictionaryLocation {
    DictionaryLocation {
        city_id: Some(city_id),
        street_address: Some(address.to_string()),
        ..fragment(STREET_NAME, prefecture_id)
    }
}

fn station(prefecture_id: i32, station_id: i32) -> DictionaryLocation {
    DictionaryLocation { station_id: Some(station_id), ..fragment(STATION, prefecture_id) }
}

fn place_of(matches: Vec<MecabLocation>) -> DictionaryPlace {
    let mut place = DictionaryPlace::new();
    for m in matches {
        place.append_predictive_location(m);
    }
    place
}

#[test]
fn test_01() {
    let place_text = "東京都渋谷区代々木";
    let area = vec![
        matched(-12000, fragment(PREFECTURE, 13)),
        matched(-19000, DictionaryLocation { city_id: Some(13113), ..fragment(MUNICIPALITY, 13) }),
        matched(-20000, street(13, 13113, place_text)),
    ];
    let primary = Dictionary::str_to_location(area);
    assert_eq!(primary.len(), 1);
    let ids = Dictionary::prefecture_ids(&primary);
    assert_eq!(ids, vec![13]);
    let stations = vec![matched(-9000, station(13, 5))];
    let locations = Dictionary::location(primary, stations, vec![]);
    println!("{:?}", locations);
    let locations = Dictionary::location(
        Dictionary::str_to_location(vec![matched(-20000, street(13, 13113, place_text))]),
        vec![],
        vec![],
    )
    .fix_location();
    println!("{:?}", locations);
    assert_eq!(locations.len(), 3);
}

#[test]
fn tier_boundaries() {
    assert!(MecabCost::new(-18000).is_fix());
    assert!(!MecabCost::new(-18000).is_prefecture());
    assert!(MecabCost::new(-17999).is_prefecture());
    assert!(MecabCost::new(-11000).is_prefecture());
    assert!(MecabCost::new(-10999).is_require_prefecture());
    assert!(!MecabCost::new(-11000).is_require_prefecture());
    for cost in [i32::MIN, -18001, -18000, -17999, -11001, -11000, -10999, 0, i32::MAX] {
        let c = MecabCost::new(cost);
        let n = [c.is_fix(), c.is_prefecture(), c.is_require_prefecture()]
            .iter()
            .filter(|b| **b)
            .count();
        assert_eq!(n, 1);
    }
}

#[test]
fn names_do_not_change_equality() {
    let mut a = street(13, 113, "X");
    let mut b = street(13, 113, "X");
    a.city_name = Some("one".to_string());
    b.city_name = Some("two".to_string());
    b.prefecture_name = Some("name".to_string());
    assert!(a == b);
    assert!(a.same_key(&b));
    let mut place = place_of(vec![matched(-20000, a.clone()), matched(-20000, b)]);
    let fixed = place.fix_location();
    assert_eq!(fixed.len(), 3);
    assert_eq!(fixed[0].city_name, Some("one".to_string()));
    let c = street(13, 114, "X");
    assert!(a != c);
}

#[test]
fn resolving_twice_gives_the_same_list() {
    let mut place = place_of(vec![
        matched(-20000, street(13, 113, "X")),
        matched(-9000, station(13, 5)),
        matched(-20000, street(13, 113, "X")),
    ]);
    let first = place.fix_location();
    let second = place.fix_location();
    assert_eq!(first, second);
    assert_eq!(first.len(), 5);
}

#[test]
fn street_name_goes_to_three_lists() {
    let s = street(13, 113, "X");
    let mut place = place_of(vec![matched(-20000, s.clone())]);
    let fixed = place.fix_location();
    assert_eq!(fixed.len(), 3);
    for f in &fixed {
        assert!(*f == s);
        assert_eq!(f.category_of(), Category::StreetName);
    }
}

#[test]
fn station_goes_to_two_lists() {
    let s = station(13, 5);
    let mut place = place_of(vec![matched(-18000, s.clone())]);
    let fixed = place.fix_location();
    assert_eq!(fixed.len(), 2);
    assert!(fixed[0] == s && fixed[1] == s);
}

#[test]
fn municipality_goes_to_prefecture_and_city() {
    let m = DictionaryLocation { city_id: Some(113), ..fragment(MUNICIPALITY, 13) };
    let mut place = place_of(vec![matched(-30000, m.clone())]);
    assert_eq!(place.fix_location().len(), 2);
}

#[test]
fn prefecture_tier_confirms_only_prefectures() {
    let mut place = place_of(vec![
        matched(-12000, fragment(PREFECTURE, 27)),
        matched(-12000, street(27, 100, "Y")),
        matched(-5000, station(27, 9)),
        matched(-20000, fragment(PREFECTURE, 1)),
    ]);
    let fixed = place.fix_location();
    assert_eq!(fixed.len(), 3);
    assert!(fixed[0] == fragment(PREFECTURE, 27));
    assert!(fixed[1] == station(27, 9));
    assert!(fixed[2] == station(27, 9));
}

#[test]
fn uncorroborated_matches_are_dropped() {
    let mut place = place_of(vec![
        matched(-5000, street(13, 113, "X")),
        matched(-5000, station(13, 5)),
        matched(-12000, fragment(MUNICIPALITY, 13)),
    ]);
    assert!(place.fix_location().is_empty());
    let mut zero = place_of(vec![
        matched(-20000, fragment(STATION, 0)),
        matched(-5000, fragment(STATION, 0)),
    ]);
    assert_eq!(zero.fix_location().len(), 2);
}

#[test]
fn corroboration_scenario() {
    let s = street(13, 113, "X");
    let near = station(13, 5);
    let far = station(99, 7);
    let mut place = place_of(vec![
        matched(-20000, s.clone()),
        matched(-9000, near.clone()),
        matched(-5000, far.clone()),
    ]);
    let fixed = place.fix_location();
    assert_eq!(fixed.len(), 5);
    assert!(fixed[0] == s);
    assert!(fixed[1] == near);
    assert!(fixed[2] == s);
    assert!(fixed[3] == s);
    assert!(fixed[4] == near);
    assert!(!fixed.iter().any(|f| *f == far));
}

#[test]
fn empty_aggregate_resolves_to_nothing() {
    let mut place = DictionaryPlace::new();
    assert!(place.fix_location().is_empty());
    assert!(place.fuzzy_location().is_empty());
    let mut built = Dictionary::location(vec![], vec![], vec![]);
    assert!(built.fix_location().is_empty());
    assert!(built.fuzzy_location().is_empty());
}

#[test]
fn fuzzy_falls_back_to_low_predictive() {
    let mut place = DictionaryPlace::new();
    place.append_low_predictive_location(matched(0, station(13, 5)));
    place.append_low_predictive_location(matched(0, station(13, 5)));
    place.append_low_predictive_location(matched(-3, station(14, 6)));
    let fuzzy = place.fuzzy_location();
    assert_eq!(fuzzy.len(), 3);
    assert_eq!(fuzzy[0].0, 0);
    assert!(fuzzy[1].1 == station(13, 5));
    assert_eq!(fuzzy[2].0, -3);
    assert!(fuzzy[2].1 == station(14, 6));
}

#[test]
fn fuzzy_prefers_predictive() {
    let mut place = place_of(vec![matched(-9000, station(13, 5))]);
    place.append_low_predictive_location(matched(0, station(14, 6)));
    let fuzzy = place.fuzzy_location();
    assert_eq!(fuzzy.len(), 1);
    assert_eq!(fuzzy[0].0, -9000);
    assert!(fuzzy[0].1 == station(13, 5));
}

#[test]
fn street_names_supersede_other_primary_matches() {
    let all = vec![
        matched(-12000, fragment(PREFECTURE, 13)),
        matched(-20000, street(13, 113, "X")),
        matched(-20000, street(13, 114, "Z")),
    ];
    let primary = Dictionary::str_to_location(all);
    assert_eq!(primary.len(), 2);
    assert!(primary[0].location == street(13, 113, "X"));
    assert!(primary[1].location == street(13, 114, "Z"));
    let none = vec![matched(-12000, fragment(PREFECTURE, 13)), matched(-9000, station(13, 1))];
    assert_eq!(Dictionary::str_to_location(none).len(), 2);
}

#[test]
fn prefecture_ids_are_distinct_and_nonzero() {
    let ps = vec![
        matched(0, fragment(PREFECTURE, 13)),
        matched(0, fragment(STATION, 0)),
        matched(0, DictionaryLocation::default()),
        matched(0, fragment(STATION, 27)),
        matched(0, fragment(STATION, 13)),
    ];
    assert_eq!(Dictionary::prefecture_ids(&ps), vec![13, 27]);
}

#[test]
fn location_orders_primary_before_stations() {
    let mut place = Dictionary::location(
        vec![matched(-1, station(1, 1))],
        vec![matched(-2, station(2, 2)), matched(-3, station(3, 3))],
        vec![matched(0, station(4, 4))],
    );
    let fuzzy = place.fuzzy_location();
    let costs: Vec<i32> = fuzzy.iter().map(|p| p.0).collect();
    assert_eq!(costs, vec![-1, -2, -3]);
}

#[test]
fn unknown_category_is_ignored() {
    let other = fragment("other", 13);
    assert_eq!(other.category_of(), Category::Other);
    assert_eq!(DictionaryLocation::default().category_of(), Category::Other);
    let mut place = place_of(vec![matched(-20000, other)]);
    assert!(place.fix_location().is_empty());
}
