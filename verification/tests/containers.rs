use vault_planner::name_map::NameMap;
use vault_planner::util::{SlotShedule, Week, WeekDay};

fn week_of(days: &[(&str, u32)]) -> NameMap<u32> {
    let mut map = NameMap::new();
    for (name, value) in days {
        map.insert(name.to_string(), *value);
    }
    map
}

const FULL: [(&str, u32); 7] = [
    ("Monday", 1),
    ("Tuesday", 2),
    ("Wednesday", 3),
    ("Thursday", 4),
    ("Friday", 5),
    ("Saturday", 6),
    ("Sunday", 0),
];

#[test]
fn week_new_takes_all_seven_days() {
    let week = Week::new(week_of(&FULL)).expect("all seven days are bound");
    assert_eq!(week.0, [0, 1, 2, 3, 4, 5, 6]);
    assert_eq!(*week.index(WeekDay::Sunday), 0);
    assert_eq!(*week.index(WeekDay::Monday), 1);
    assert_eq!(*week.index(WeekDay::Tuesday), 2);
    assert_eq!(*week.index(WeekDay::Wednesday), 3);
    assert_eq!(*week.index(WeekDay::Thursday), 4);
    assert_eq!(*week.index(WeekDay::Friday), 5);
    assert_eq!(*week.index(WeekDay::Saturday), 6);
}

#[test]
fn week_new_drops_other_names() {
    let mut map = week_of(&FULL);
    map.insert("Holiday".to_string(), 99);
    map.insert("monday".to_string(), 98);
    let week = Week::new(map).expect("the seven days are among the names");
    assert_eq!(week.0, [0, 1, 2, 3, 4, 5, 6]);
}

#[test]
fn week_new_fails_for_each_missing_day() {
    for missing in 0..7 {
        let mut map = NameMap::new();
        for (i, (name, value)) in FULL.iter().enumerate() {
            if i != missing {
                map.insert(name.to_string(), *value);
            }
        }
        assert!(Week::new(map).is_none(), "without {}", FULL[missing].0);
    }
}

#[test]
fn week_new_fails_on_empty_mapping() {
    assert!(Week::new(NameMap::<u32>::new()).is_none());
}

#[test]
fn week_index_mut_changes_one_day() {
    let mut week = Week::new(week_of(&FULL)).unwrap();
    *week.index_mut(WeekDay::Wednesday) = 30;
    assert_eq!(week.0, [0, 1, 2, 30, 4, 5, 6]);
    *week.index_mut(WeekDay::Sunday) += 7;
    assert_eq!(week.0, [7, 1, 2, 30, 4, 5, 6]);
}

#[test]
fn slot_shedule_starts_empty() {
    let shedule: SlotShedule<u32> = SlotShedule::new();
    assert!(shedule.0.is_empty());
    assert_eq!(shedule.get("Lunch"), None);
}

#[test]
fn slot_shedule_get_finds_first_match() {
    let mut shedule = SlotShedule::new();
    shedule.0.push(("Lunch".to_string(), 1));
    shedule.0.push(("Dinner".to_string(), 2));
    shedule.0.push(("Lunch".to_string(), 3));
    assert_eq!(shedule.get("Lunch"), Some(&1));
    assert_eq!(shedule.get("Dinner"), Some(&2));
    assert_eq!(shedule.get("Breakfast"), None);
    assert_eq!(shedule.get("lunch"), None);
}

#[test]
fn slot_shedule_get_mut_changes_first_match_only() {
    let mut shedule = SlotShedule::new();
    shedule.0.push(("Lunch".to_string(), 1));
    shedule.0.push(("Lunch".to_string(), 3));
    *shedule.get_mut("Lunch").unwrap() = 10;
    assert_eq!(shedule.0, vec![("Lunch".to_string(), 10), ("Lunch".to_string(), 3)]);
    assert!(shedule.get_mut("Dinner").is_none());
    assert_eq!(shedule.0, vec![("Lunch".to_string(), 10), ("Lunch".to_string(), 3)]);
}

#[test]
fn name_map_keeps_first_insertion_order() {
    let mut map = NameMap::new();
    map.insert("b".to_string(), 1);
    map.insert("a".to_string(), 2);
    map.insert("b".to_string(), 3);
    assert_eq!(map.len(), 2);
    assert_eq!(map.key_at(0), "b");
    assert_eq!(map.key_at(1), "a");
    assert_eq!(*map.value_at(0), 3);
    assert_eq!(*map.value_at(1), 2);
    assert_eq!(map.get("b"), Some(&3));
    assert_eq!(map.get("c"), None);
    assert!(map.contains_key("a"));
    assert!(!map.contains_key("c"));
    assert_eq!(map.position("a"), Some(1));
    assert_eq!(map.position("c"), None);
}

#[test]
fn name_map_remove_hands_value_over() {
    let mut map = NameMap::new();
    map.insert("a".to_string(), 1);
    map.insert("b".to_string(), 2);
    map.insert("c".to_string(), 3);
    assert_eq!(map.remove("b"), Some(2));
    assert_eq!(map.remove("b"), None);
    assert_eq!(map.len(), 2);
    assert_eq!(map.key_at(0), "a");
    assert_eq!(map.key_at(1), "c");
    assert_eq!(map.get("c"), Some(&3));
}

#[test]
fn name_map_replace_at_swaps_value() {
    let mut map = NameMap::new();
    map.insert("a".to_string(), 1);
    map.insert("b".to_string(), 2);
    assert_eq!(map.replace_at(1, 20), 2);
    assert_eq!(map.get("b"), Some(&20));
    assert_eq!(map.get("a"), Some(&1));
    assert_eq!(map.key_at(1), "b");
}

#[test]
fn week_is_indexed_by_day() {
    let mut week = Week::new(week_of(&FULL)).unwrap();
    assert_eq!(week[WeekDay::Sunday], 0);
    assert_eq!(week[WeekDay::Thursday], 4);
    week[WeekDay::Thursday] = 40;
    assert_eq!(week.0, [0, 1, 2, 3, 40, 5, 6]);
}
