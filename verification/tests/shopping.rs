use chrono::{Datelike, NaiveDate, NaiveTime, Weekday};
use vault_planner::food::{Dich, DichId, Food, Ingredient};
use vault_planner::food_shoping_sheduler::{
    count_days_to_thursday, get_shoping_datetime, inner_produce_tasks_from_diches,
    make_shoping_task, produce_tasks_from_diches, produce_tasks_on, shoping_description,
    shoping_list,
};
use vault_planner::kanban::Kanbans;
use vault_planner::mdast::MdNode;
use vault_planner::name_map::NameMap;
use vault_planner::task::{KanbanInfo, Task, Tasks};
use vault_planner::util::{SlotShedule, Week, WeekDay};
use vault_planner::world::{Jobs, World};

fn dich(name: &str, ingredients: &[(&str, usize)]) -> Dich {
    Dich {
        name: name.to_string(),
        resepy: String::new(),
        ingredients: ingredients
            .iter()
            .map(|(name, amount)| Ingredient { name: name.to_string(), amount: *amount })
            .collect(),
    }
}

fn day(slots: &[(&str, &[usize])]) -> SlotShedule<Vec<DichId>> {
    let mut shedule = SlotShedule::new();
    for (name, ids) in slots {
        shedule.0.push((name.to_string(), ids.iter().map(|id| DichId(*id)).collect()));
    }
    shedule
}

fn omelette_week() -> Food {
    Food {
        diches: vec![dich("Omelette", &[("Eggs", 1), ("Milk", 1)])],
        week_dich_shedule: Week([
            day(&[]),
            day(&[("Breakfast", &[0])]),
            day(&[]),
            day(&[("Breakfast", &[0])]),
            day(&[]),
            day(&[]),
            day(&[]),
        ]),
    }
}

fn totals(list: &NameMap<usize>) -> Vec<(String, usize)> {
    (0..list.len()).map(|i| (list.key_at(i).clone(), *list.value_at(i))).collect()
}

#[test]
fn dish_referred_to_twice_counts_twice() {
    let list = shoping_list(&omelette_week()).unwrap();
    assert_eq!(list.get("Eggs"), Some(&2));
}

#[test]
fn omelette_on_monday_and_wednesday() {
    let list = shoping_list(&omelette_week()).unwrap();
    assert_eq!(totals(&list), vec![("Eggs".to_string(), 2), ("Milk".to_string(), 2)]);
    let today = NaiveDate::from_ymd_opt(2024, 1, 1).unwrap();
    let tasks = inner_produce_tasks_from_diches(&omelette_week(), today);
    assert_eq!(tasks.len(), 1);
    assert_eq!(
        tasks[0].1.description,
        MdNode::List {
            ordered: true,
            children: vec![
                MdNode::ListItem {
                    checked: Some(false),
                    children: vec![MdNode::Text("Eggs: 2".to_string())]
                },
                MdNode::ListItem {
                    checked: Some(false),
                    children: vec![MdNode::Text("Milk: 2".to_string())]
                },
            ],
        }
    );
}

#[test]
fn totals_add_amounts_by_name_in_order_of_first_use() {
    let food = Food {
        diches: vec![
            dich("Porridge", &[("Oats", 3), ("Milk", 2), ("Oats", 1)]),
            dich("Toast", &[]),
            dich("Omelette", &[("Eggs", 2), ("Milk", 10), ("Salt", 0)]),
        ],
        week_dich_shedule: Week([
            day(&[("Breakfast", &[2]), ("Lunch", &[]), ("Breakfast", &[0, 1])]),
            day(&[]),
            day(&[("Dinner", &[2, 2])]),
            day(&[]),
            day(&[]),
            day(&[]),
            day(&[("Late", &[1]), ("Later", &[0])]),
        ]),
    };
    let list = shoping_list(&food).unwrap();
    assert_eq!(
        totals(&list),
        vec![
            ("Eggs".to_string(), 6),
            ("Milk".to_string(), 34),
            ("Salt".to_string(), 0),
            ("Oats".to_string(), 8),
        ]
    );
}

#[test]
fn empty_week_needs_nothing() {
    let food = Food {
        diches: vec![dich("Omelette", &[("Eggs", 1)])],
        week_dich_shedule: Week([day(&[]), day(&[]), day(&[]), day(&[]), day(&[]), day(&[]), day(&[])]),
    };
    assert_eq!(shoping_list(&food).unwrap().len(), 0);
}

#[test]
fn list_of_a_week_with_unknown_dish_or_too_much_is_none() {
    let mut food = omelette_week();
    food.week_dich_shedule.0[6] = day(&[("Dinner", &[1])]);
    assert!(shoping_list(&food).is_none());
    let mut food = omelette_week();
    food.diches[0].ingredients[0].amount = usize::MAX;
    assert!(shoping_list(&food).is_none());
    let mut food = omelette_week();
    food.diches[0].ingredients[0].amount = usize::MAX / 2;
    assert_eq!(shoping_list(&food).unwrap().get("Eggs"), Some(&(usize::MAX - 1)));
}

#[test]
fn days_to_thursday_for_each_day() {
    assert_eq!(count_days_to_thursday(WeekDay::Monday), 3);
    assert_eq!(count_days_to_thursday(WeekDay::Tuesday), 2);
    assert_eq!(count_days_to_thursday(WeekDay::Wednesday), 1);
    assert_eq!(count_days_to_thursday(WeekDay::Thursday), 0);
    assert_eq!(count_days_to_thursday(WeekDay::Friday), 6);
    assert_eq!(count_days_to_thursday(WeekDay::Saturday), 5);
    assert_eq!(count_days_to_thursday(WeekDay::Sunday), 4);
}

fn ymd(year: i32, month: u32, day: u32) -> NaiveDate {
    NaiveDate::from_ymd_opt(year, month, day).unwrap()
}

#[test]
fn shopping_is_on_the_next_thursday_at_two() {
    let two = NaiveTime::from_hms_opt(14, 0, 0).unwrap();
    assert_eq!(get_shoping_datetime(ymd(2024, 1, 1)), Some((ymd(2024, 1, 4), two)));
    assert_eq!(get_shoping_datetime(ymd(2024, 1, 3)), Some((ymd(2024, 1, 4), two)));
    assert_eq!(get_shoping_datetime(ymd(2024, 1, 4)), Some((ymd(2024, 1, 4), two)));
    assert_eq!(get_shoping_datetime(ymd(2024, 1, 5)), Some((ymd(2024, 1, 11), two)));
    assert_eq!(get_shoping_datetime(ymd(2024, 2, 25)), Some((ymd(2024, 2, 29), two)));
    assert_eq!(get_shoping_datetime(ymd(2023, 12, 30)), Some((ymd(2024, 1, 4), two)));
}

#[test]
fn shopping_on_a_thursday_is_today() {
    let thursday = ymd(2026, 10, 29);
    assert_eq!(thursday.weekday(), Weekday::Thu);
    let (date, _) = get_shoping_datetime(thursday).unwrap();
    assert_eq!(date, thursday);
    let tasks = inner_produce_tasks_from_diches(&omelette_week(), thursday);
    assert_eq!(tasks[0].0, "Weekly shoping 2026-10-29.md");
    assert_eq!(tasks[0].1.date, Some(thursday));
    assert!(tasks[0].1.time.is_some() && tasks[0].1.duration.is_some());
}

#[test]
fn shopping_beyond_the_calendar_is_none() {
    let last = NaiveDate::MAX;
    if last.weekday() == Weekday::Thu {
        assert!(get_shoping_datetime(last).is_some());
        assert!(get_shoping_datetime(last.pred_opt().unwrap()).is_some());
    } else {
        assert_eq!(get_shoping_datetime(last), None);
        assert!(inner_produce_tasks_from_diches(&omelette_week(), last).is_empty());
    }
}

#[test]
fn shopping_task_for_a_monday() {
    let tasks = inner_produce_tasks_from_diches(&omelette_week(), ymd(2024, 1, 1));
    assert_eq!(tasks.len(), 1);
    let (name, task) = &tasks[0];
    assert_eq!(name, "Weekly shoping 2024-01-04.md");
    assert_eq!(task.name, "Weekly shoping 2024-01-04.md");
    assert_eq!(task.priority, 0);
    assert_eq!(task.date, Some(ymd(2024, 1, 4)));
    assert_eq!(task.time, NaiveTime::from_hms_opt(14, 0, 0));
    assert_eq!(task.duration, Some(chrono::Duration::hours(2)));
    assert_eq!(
        task.kanban,
        Some(KanbanInfo { stage: "ToDo".to_string(), board: "Shoping".to_string() })
    );
    assert_eq!(
        task.render(),
        "---\npriority: 0\nname: Weekly shoping 2024-01-04.md\ndate: 2024-01-04\ntime: 14:00:00\nduration: PT7200S\n---\nEggs: 2Milk: 2"
    );
}

fn world(tasks: Tasks) -> World {
    World { jobs: Jobs {}, food: omelette_week(), tasks, kanbans: Kanbans::new() }
}

fn one_task(name: &str) -> Tasks {
    let mut notes = NameMap::new();
    notes.insert(name.to_string(), "---\npriority: 5\n---\nold\n".to_string());
    Tasks::new(notes).unwrap()
}

#[test]
fn produced_task_joins_the_tasks() {
    let mut world = world(one_task("call.md"));
    produce_tasks_on(&mut world, ymd(2024, 1, 5));
    assert_eq!(world.tasks.tasks.len(), 2);
    assert_eq!(world.tasks.tasks.key_at(0), "call.md");
    assert_eq!(world.tasks.tasks.key_at(1), "Weekly shoping 2024-01-11.md");
    assert_eq!(world.tasks.tasks.get("call.md").unwrap().priority, 5);
    let task: &Task = world.tasks.tasks.get("Weekly shoping 2024-01-11.md").unwrap();
    assert_eq!(task.date, Some(ymd(2024, 1, 11)));
    assert_eq!(world.food.diches.len(), 1);
}

#[test]
fn produced_task_replaces_a_task_of_its_name() {
    let mut world = world(one_task("Weekly shoping 2024-01-11.md"));
    produce_tasks_on(&mut world, ymd(2024, 1, 5));
    assert_eq!(world.tasks.tasks.len(), 1);
    assert_eq!(world.tasks.tasks.get("Weekly shoping 2024-01-11.md").unwrap().priority, 0);
}

#[test]
fn produce_for_today_adds_the_task_of_the_coming_thursday() {
    let before = chrono::Local::now().date_naive();
    let mut world = world(one_task("call.md"));
    produce_tasks_from_diches(&mut world);
    let after = chrono::Local::now().date_naive();
    assert_eq!(world.tasks.tasks.len(), 2);
    let name = world.tasks.tasks.key_at(1).clone();
    let expected: Vec<String> = [before, after]
        .iter()
        .map(|today| {
            let (date, _) = get_shoping_datetime(*today).unwrap();
            format!("Weekly shoping {}.md", date)
        })
        .collect();
    assert!(expected.contains(&name), "{} not among {:?}", name, expected);
    let task = world.tasks.tasks.get(&name).unwrap();
    assert_eq!(task.date.unwrap().weekday(), Weekday::Thu);
    let ahead = (task.date.unwrap() - before).num_days();
    assert!((0..=7).contains(&ahead));
}

fn boxed(line: &str) -> MdNode {
    MdNode::ListItem { checked: Some(false), children: vec![MdNode::Text(line.to_string())] }
}

#[test]
fn description_lists_the_totals_in_order() {
    let mut totals = NameMap::new();
    totals.insert("Milk".to_string(), 12);
    totals.insert("Eggs".to_string(), 0);
    totals.insert("Crème fraîche".to_string(), 1);
    assert_eq!(
        shoping_description(&totals),
        MdNode::List {
            ordered: true,
            children: vec![boxed("Milk: 12"), boxed("Eggs: 0"), boxed("Crème fraîche: 1")],
        }
    );
    assert_eq!(
        shoping_description(&NameMap::new()),
        MdNode::List { ordered: true, children: vec![] }
    );
}

#[test]
fn shopping_task_of_given_parts() {
    let mut totals = NameMap::new();
    totals.insert("Milk".to_string(), 2);
    let (name, task) = make_shoping_task(&totals, ymd(2024, 1, 4), "the day", None, None);
    assert_eq!(name, "Weekly shoping the day.md");
    assert_eq!(
        task,
        Task {
            priority: 0,
            name: "Weekly shoping the day.md".to_string(),
            description: MdNode::List { ordered: true, children: vec![boxed("Milk: 2")] },
            date: Some(ymd(2024, 1, 4)),
            time: None,
            duration: None,
            kanban: Some(KanbanInfo { stage: "ToDo".to_string(), board: "Shoping".to_string() }),
        }
    );
}
