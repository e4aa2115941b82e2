use chrono::{NaiveDate, NaiveTime};
use vault_planner::mdast::MdNode;
use vault_planner::name_map::NameMap;
use vault_planner::task::{meta_block, KanbanInfo, Task, TaskFields, Tasks};
use vault_planner::yaml::YamlValue;
use vault_planner::WorldError;

fn parse(name: &str, text: &str) -> Result<(String, Task), WorldError> {
    Task::parse((name.to_string(), text.to_string()))
}

fn paragraph(text: &str) -> MdNode {
    MdNode::Parent(vec![MdNode::Parent(vec![MdNode::Text(text.to_string())])])
}

#[test]
fn task_with_priority_only_has_no_kanban() {
    let (key, task) = parse("call.md", "---\npriority: 3\n---\nCall home\n").unwrap();
    assert_eq!(key, "call.md");
    assert_eq!(
        task,
        Task {
            priority: 3,
            name: "call.md".to_string(),
            description: paragraph("Call home"),
            date: None,
            time: None,
            duration: None,
            kanban: None,
        }
    );
}

#[test]
fn task_with_all_fields() {
    let text = "---\npriority: 0\nname: other.md\ndate: 2024-02-29\ntime: 07:30:15\nduration: PT7200S\nboard: Home\nstage: Doing\n---\nCall home\n";
    let (key, task) = parse("call.md", text).unwrap();
    assert_eq!(key, "call.md");
    assert_eq!(
        task,
        Task {
            priority: 0,
            name: "call.md".to_string(),
            description: paragraph("Call home"),
            date: NaiveDate::from_ymd_opt(2024, 2, 29),
            time: NaiveTime::from_hms_opt(7, 30, 15),
            duration: None,
            kanban: Some(KanbanInfo { stage: "Doing".to_string(), board: "Home".to_string() }),
        }
    );
}

#[test]
fn task_time_without_seconds() {
    let (_, task) = parse("a.md", "---\npriority: 1\ntime: 14:00\n---\n").unwrap();
    assert_eq!(task.time, NaiveTime::from_hms_opt(14, 0, 0));
    assert_eq!(task.description, MdNode::Parent(vec![]));
}

#[test]
fn task_date_that_is_no_string_is_left_out() {
    let (_, task) = parse("a.md", "---\npriority: 1\ndate: 5\ntime: true\nboard: 7\n---\n").unwrap();
    assert_eq!(task.date, None);
    assert_eq!(task.time, None);
    assert_eq!(task.kanban, None);
}

#[test]
fn task_without_front_matter_is_refused() {
    assert!(matches!(parse("a.md", "Call home\n"), Err(WorldError::ErrorWhileParsingTask)));
    assert!(matches!(parse("a.md", ""), Err(WorldError::ErrorWhileParsingTask)));
}

#[test]
fn task_with_unclosed_or_broken_front_matter_is_refused() {
    assert!(matches!(parse("a.md", "---\npriority: 3\n"), Err(WorldError::NoMetadataEnding)));
    assert!(matches!(parse("a.md", "---\npriority: 3---\n"), Err(WorldError::NoMetadataEnding)));
    assert!(matches!(parse("a.md", "------"), Err(WorldError::NoMetadataEnding)));
    assert!(matches!(
        parse("a.md", "---\npriority: [3\n---\n"),
        Err(WorldError::YamlParsingError(_))
    ));
}

#[test]
fn task_without_usable_priority_is_refused() {
    for text in [
        "---\nname: a.md\n---\n",
        "---\npriority: high\n---\n",
        "---\npriority: -1\n---\n",
        "---\npriority: 1.5\n---\n",
        "---\npriority: \"3\"\n---\n",
        "---\n- priority\n---\n",
        "---\n---",
    ] {
        assert!(matches!(parse("a.md", text), Err(WorldError::ErrorWhileParsingTask)), "{:?}", text);
    }
}

#[test]
fn task_with_board_needs_stage() {
    assert!(matches!(
        parse("a.md", "---\npriority: 3\nboard: Home\n---\n"),
        Err(WorldError::ErrorWhileParsingTask)
    ));
    assert!(matches!(
        parse("a.md", "---\npriority: 3\nboard: Home\nstage: 4\n---\n"),
        Err(WorldError::ErrorWhileParsingTask)
    ));
    let (_, task) = parse("a.md", "---\npriority: 3\nstage: Doing\n---\n").unwrap();
    assert_eq!(task.kanban, None);
}

#[test]
fn task_with_malformed_date_or_time_is_refused() {
    for text in [
        "---\npriority: 3\ndate: 2024-13-01\n---\n",
        "---\npriority: 3\ndate: tomorrow\n---\n",
        "---\npriority: 3\ndate: 2023-02-29\n---\n",
        "---\npriority: 3\ntime: noon\n---\n",
        "---\npriority: 3\ntime: 25:00:00\n---\n",
    ] {
        assert!(matches!(parse("a.md", text), Err(WorldError::ErrorWhileParsingTask)), "{:?}", text);
    }
}

fn sample() -> Task {
    Task {
        priority: 12,
        name: "call.md".to_string(),
        description: paragraph("Call home"),
        date: NaiveDate::from_ymd_opt(2024, 1, 4),
        time: NaiveTime::from_hms_opt(14, 0, 0),
        duration: Some(chrono::Duration::hours(2)),
        kanban: Some(KanbanInfo { stage: "ToDo".to_string(), board: "Home".to_string() }),
    }
}

#[test]
fn meta_writes_what_the_task_has() {
    assert_eq!(
        sample().create_meta(),
        "---\npriority: 12\nname: call.md\ndate: 2024-01-04\ntime: 14:00:00\nduration: PT7200S\n---\n"
    );
    let bare = Task { date: None, time: None, duration: None, kanban: None, priority: 0, ..sample() };
    assert_eq!(bare.create_meta(), "---\npriority: 0\nname: call.md\n---\n");
    let dated = Task { time: None, duration: None, ..sample() };
    assert_eq!(dated.create_meta(), "---\npriority: 12\nname: call.md\ndate: 2024-01-04\n---\n");
    let timed = Task { date: None, duration: None, ..sample() };
    assert_eq!(timed.create_meta(), "---\npriority: 12\nname: call.md\ntime: 14:00:00\n---\n");
}

#[test]
fn task_text_is_meta_and_description_text() {
    assert_eq!(
        sample().render(),
        "---\npriority: 12\nname: call.md\ndate: 2024-01-04\ntime: 14:00:00\nduration: PT7200S\n---\nCall home"
    );
}

#[test]
fn written_task_reads_back_with_priority_date_and_time() {
    let text = "---\npriority: 7\ndate: 2024-02-29\ntime: 07:30:15\nboard: Home\nstage: Doing\n---\nCall home\n";
    let (_, first) = parse("call.md", text).unwrap();
    let (_, second) = parse("call.md", &first.render()).unwrap();
    assert_eq!(second.priority, 7);
    assert_eq!(second.date, NaiveDate::from_ymd_opt(2024, 2, 29));
    assert_eq!(second.time, NaiveTime::from_hms_opt(7, 30, 15));
    assert_eq!(second.priority, first.priority);
    assert_eq!(second.date, first.date);
    assert_eq!(second.time, first.time);
    assert_eq!(second.name, first.name);
    assert_eq!(second.description, first.description);
    assert_eq!(second.duration, None);
    assert_eq!(second.kanban, None);
}

#[test]
fn written_shopping_like_task_loses_duration_and_kanban() {
    let (_, back) = parse("call.md", &sample().render()).unwrap();
    assert_eq!(back.priority, 12);
    assert_eq!(back.date, sample().date);
    assert_eq!(back.time, sample().time);
    assert_eq!(back.duration, None);
    assert_eq!(back.kanban, None);
}

fn notes(entries: &[(&str, &str)]) -> NameMap<String> {
    let mut notes = NameMap::new();
    for (name, text) in entries {
        notes.insert(name.to_string(), text.to_string());
    }
    notes
}

#[test]
fn tasks_are_read_under_their_names() {
    let tasks = Tasks::new(notes(&[
        ("b.md", "---\npriority: 2\n---\nsecond\n"),
        ("a.md", "---\npriority: 1\nboard: Home\nstage: ToDo\n---\nfirst\n"),
    ]))
    .unwrap();
    assert_eq!(tasks.tasks.len(), 2);
    assert_eq!(tasks.tasks.key_at(0), "b.md");
    assert_eq!(tasks.tasks.key_at(1), "a.md");
    assert_eq!(tasks.tasks.get("a.md").unwrap().priority, 1);
    assert_eq!(tasks.tasks.get("a.md").unwrap().name, "a.md");
    assert_eq!(tasks.tasks.get("b.md").unwrap().description, paragraph("second"));
    assert!(Tasks::new(NameMap::new()).unwrap().tasks.len() == 0);
}

#[test]
fn tasks_fail_with_the_first_failure() {
    let result = Tasks::new(notes(&[
        ("a.md", "---\npriority: 1\n---\n"),
        ("b.md", "---\npriority: 1\n"),
        ("c.md", "no front-matter"),
    ]));
    assert!(matches!(result, Err(WorldError::NoMetadataEnding)));
    let result = Tasks::new(notes(&[
        ("c.md", "no front-matter"),
        ("b.md", "---\npriority: 1\n"),
    ]));
    assert!(matches!(result, Err(WorldError::ErrorWhileParsingTask)));
}

#[test]
fn tasks_render_one_file_each() {
    let tasks = Tasks::new(notes(&[
        ("b.md", "---\npriority: 2\ndate: 2024-01-04\n---\nsecond *one*\n"),
        ("a.md", "---\npriority: 1\nboard: Home\nstage: ToDo\n---\n"),
    ]))
    .unwrap();
    assert_eq!(
        tasks.render(),
        vec![
            (
                "b.md".to_string(),
                "---\npriority: 2\nname: b.md\ndate: 2024-01-04\n---\nsecond one".to_string()
            ),
            ("a.md".to_string(), "---\npriority: 1\nname: a.md\n---\n".to_string()),
        ]
    );
}

#[test]
fn task_clone_is_equal() {
    assert_eq!(sample().clone(), sample());
}

fn mapping(entries: &[(&str, YamlValue)]) -> YamlValue {
    YamlValue::Hash(
        entries
            .iter()
            .map(|(key, value)| (YamlValue::String(key.to_string()), value.clone()))
            .collect(),
    )
}

fn string(text: &str) -> YamlValue {
    YamlValue::String(text.to_string())
}

#[test]
fn fields_are_read_off_the_mapping() {
    let meta = mapping(&[
        ("time", string("noon")),
        ("stage", string("Doing")),
        ("priority", YamlValue::Integer(4)),
        ("board", string("Home")),
        ("date", string("someday")),
        ("priority", YamlValue::Integer(9)),
    ]);
    assert_eq!(
        Task::fields(&meta),
        Some(TaskFields {
            priority: 4,
            kanban: Some(KanbanInfo { stage: "Doing".to_string(), board: "Home".to_string() }),
            date: Some("someday".to_string()),
            time: Some("noon".to_string()),
        })
    );
    assert_eq!(
        Task::fields(&mapping(&[("priority", YamlValue::Integer(0))])),
        Some(TaskFields { priority: 0, kanban: None, date: None, time: None })
    );
}

#[test]
fn fields_need_priority_and_stage_with_board() {
    assert_eq!(Task::fields(&mapping(&[])), None);
    assert_eq!(Task::fields(&YamlValue::Null), None);
    assert_eq!(Task::fields(&YamlValue::Integer(3)), None);
    assert_eq!(Task::fields(&mapping(&[("priority", string("3"))])), None);
    assert_eq!(Task::fields(&mapping(&[("priority", YamlValue::Integer(-1))])), None);
    assert_eq!(Task::fields(&mapping(&[("priority", YamlValue::Integer(i64::MIN))])), None);
    assert_eq!(
        Task::fields(&mapping(&[("priority", YamlValue::Integer(1)), ("board", string("Home"))])),
        None
    );
    assert_eq!(
        Task::fields(&mapping(&[("board", string("Home")), ("stage", string("ToDo"))])),
        None
    );
    let key_is_no_string = YamlValue::Hash(vec![(YamlValue::Integer(1), YamlValue::Integer(1))]);
    assert_eq!(Task::fields(&key_is_no_string), None);
}

fn fields(date: Option<&str>, time: Option<&str>) -> TaskFields {
    TaskFields {
        priority: 2,
        kanban: None,
        date: date.map(|text| text.to_string()),
        time: time.map(|text| text.to_string()),
    }
}

#[test]
fn assembled_task_takes_what_was_read_where_a_string_is_there() {
    let day = NaiveDate::from_ymd_opt(2024, 1, 4);
    let hour = NaiveTime::from_hms_opt(14, 0, 0);
    let (key, task) =
        Task::assemble("a.md".to_string(), fields(Some("x"), None), Ok(paragraph("p")), day, hour)
            .unwrap();
    assert_eq!(key, "a.md");
    assert_eq!(
        task,
        Task {
            priority: 2,
            name: "a.md".to_string(),
            description: paragraph("p"),
            date: day,
            time: None,
            duration: None,
            kanban: None,
        }
    );
    let (_, task) =
        Task::assemble("a.md".to_string(), fields(None, Some("y")), Ok(paragraph("p")), None, hour)
            .unwrap();
    assert_eq!(task.date, None);
    assert_eq!(task.time, hour);
}

#[test]
fn assembling_fails_on_body_first_then_on_date_or_time() {
    let day = NaiveDate::from_ymd_opt(2024, 1, 4);
    let hour = NaiveTime::from_hms_opt(14, 0, 0);
    let failed = Task::assemble(
        "a.md".to_string(),
        fields(Some("x"), Some("y")),
        Err("unexpected".to_string()),
        None,
        None,
    );
    match failed {
        Err(WorldError::MarkdownParse(message)) => assert_eq!(message, "unexpected"),
        other => panic!("not a markdown error: {:?}", other),
    }
    assert!(matches!(
        Task::assemble("a.md".to_string(), fields(Some("x"), None), Ok(paragraph("p")), None, hour),
        Err(WorldError::ErrorWhileParsingTask)
    ));
    assert!(matches!(
        Task::assemble("a.md".to_string(), fields(None, Some("y")), Ok(paragraph("p")), day, None),
        Err(WorldError::ErrorWhileParsingTask)
    ));
}

#[test]
fn meta_block_writes_the_given_lines() {
    assert_eq!(meta_block(0, "", None, None, None), "---\npriority: 0\nname: \n---\n");
    assert_eq!(
        meta_block(15, "a b.md", Some("D"), Some("T"), Some("L")),
        "---\npriority: 15\nname: a b.md\ndate: D\ntime: T\nduration: L\n---\n"
    );
    assert_eq!(
        meta_block(7, "n", None, Some("T"), None),
        "---\npriority: 7\nname: n\ntime: T\n---\n"
    );
}
