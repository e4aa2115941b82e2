use vault_planner::name_map::NameMap;
use vault_planner::text::{chars_of, decimal};
use vault_planner::world::{Jobs, World};
use vault_planner::{Config, Directories, ParseError, WorldError};

#[test]
fn decimal_writes_digits() {
    assert_eq!(decimal(0), "0");
    assert_eq!(decimal(7), "7");
    assert_eq!(decimal(10), "10");
    assert_eq!(decimal(409), "409");
    assert_eq!(decimal(1234567890), "1234567890");
    assert_eq!(decimal(usize::MAX), usize::MAX.to_string());
}

#[test]
fn chars_of_counts_characters_not_bytes() {
    assert_eq!(chars_of(""), Vec::<char>::new());
    assert_eq!(chars_of("a-é—日"), vec!['a', '-', 'é', '—', '日']);
}

#[test]
fn default_directories() {
    let directories = Directories::new();
    assert_eq!(directories.jobs, "jobs");
    assert_eq!(directories.food, "food");
    assert_eq!(directories.tasks, "tasks");
}

#[test]
fn any_text_configures_the_default_directories() {
    for text in ["", "[directories]\ntasks = \"todo\"\n", "not toml at all {"] {
        let config = Config::from_str(text).unwrap();
        assert_eq!(config.directories.jobs, "jobs");
        assert_eq!(config.directories.food, "food");
        assert_eq!(config.directories.tasks, "tasks");
    }
}

#[test]
fn config_of_a_vault_with_or_without_file() {
    for contents in [None, Some(""), Some("tasks = \"todo\"")] {
        let config = Config::new(contents).unwrap();
        assert_eq!(config.directories.jobs, "jobs");
        assert_eq!(config.directories.food, "food");
        assert_eq!(config.directories.tasks, "tasks");
    }
    let parsed: Config = "anything".parse().unwrap();
    assert_eq!(parsed.directories.tasks, "tasks");
}

#[test]
fn errors_in_words() {
    assert_eq!(
        WorldError::Parse(ParseError::Malformed).to_string(),
        "Parse Error: malformed configuration"
    );
    assert_eq!(
        WorldError::MarkdownParse("unexpected".to_string()).to_string(),
        "MD parse Error: unexpected"
    );
    assert_eq!(WorldError::ErrorWhileParsingDiches.to_string(), "Error while parsing diches");
    assert_eq!(
        WorldError::ErrorWhileParsingWeekDichShedule.to_string(),
        "Error while parsing week diches shedule"
    );
    assert_eq!(WorldError::ErrorWhileParsingTask.to_string(), "Error while parsing task");
    assert_eq!(WorldError::NoMetadataEnding.to_string(), "No metadata ending");
}

fn files(entries: &[(&str, &str)]) -> NameMap<String> {
    let mut files = NameMap::new();
    for (name, text) in entries {
        files.insert(name.to_string(), text.to_string());
    }
    files
}

const WEEK: &str = "- Sunday\n- Monday\n  - Lunch\n    - Toast\n- Tuesday\n- Wednesday\n- Thursday\n- Friday\n- Saturday\n";

#[test]
fn world_is_read_and_rendered() {
    let mut world = World::new(
        files(&[("anything.md", "whatever")]),
        files(&[("diches.md", "- Toast\n  - Bread\n"), ("week_dich_shedule.md", WEEK)]),
        files(&[("a.md", "---\npriority: 1\nboard: Home\nstage: ToDo\n---\nfirst\n")]),
    )
    .unwrap();
    assert_eq!(world.food.diches.len(), 1);
    assert_eq!(world.tasks.tasks.len(), 1);
    assert!(world.kanbans.render().is_empty());
    vault_planner::make_kanban_boards::make_kanban_boards(&mut world);
    let rendered = world.render().unwrap();
    assert_eq!(
        rendered.tasks,
        vec![("a.md".to_string(), "---\npriority: 1\nname: a.md\n---\nfirst".to_string())]
    );
    assert_eq!(rendered.kanbans.len(), 1);
    assert_eq!(rendered.kanbans[0].0, "kanban_Home");
    assert!(rendered.kanbans[0].1.contains("## ToDo\n- [ ] [[a]]\n"));
}

#[test]
fn world_fails_with_food_before_tasks() {
    let result = World::new(
        NameMap::new(),
        files(&[("diches.md", "no list"), ("week_dich_shedule.md", WEEK)]),
        files(&[("a.md", "no front-matter")]),
    );
    assert!(matches!(result, Err(WorldError::ErrorWhileParsingDiches)));
    let result = World::new(
        NameMap::new(),
        files(&[("diches.md", "- Toast\n"), ("week_dich_shedule.md", WEEK)]),
        files(&[("a.md", "no front-matter")]),
    );
    assert!(matches!(result, Err(WorldError::ErrorWhileParsingTask)));
}

#[test]
fn jobs_are_read_from_anything() {
    let jobs: Jobs = Jobs::new(files(&[("a.md", "x")])).unwrap();
    assert!(jobs.render().is_ok());
}
