use vstd::prelude::*;
use vstd::string::StringExecFns;

use crate::dates::{
    date_of_text, format_date, format_duration, format_time, parse_date, parse_time,
    text_of_date, text_of_duration, text_of_time, time_of_text,
};
use crate::mdast::{mdast_of, parsed, to_mdast, MdNode, MdTree};
use crate::name_map::NameMap;
use crate::text::{decimal, decimal_text, lemma_decimal_has_no_hyphen};
use crate::util::{
    closing, has_closing, is_closer_at, is_closing, is_delimiter_at, remove_meta, split_meta,
    MetaSplit,
};
use crate::yaml::{yaml_documents, YamlTree, YamlValue};
use crate::{Failure, WorldError, WorldResult};

verus! {

/// Where a task stands on the kanban boards, as a mathematical value.
pub struct KanbanModel {
    pub stage: Seq<char>,
    pub board: Seq<char>,
}

/// A task as a mathematical value.
pub struct TaskModel {
    pub priority: nat,
    pub name: Seq<char>,
    pub description: MdTree,
    pub date: Option<::chrono::NaiveDate>,
    pub time: Option<::chrono::NaiveTime>,
    pub duration: Option<::chrono::TimeDelta>,
    pub kanban: Option<KanbanModel>,
}

/// The board on which a task stands and its stage there.
#[derive(Debug, Clone, PartialEq, Eq)]
pub struct KanbanInfo {
    pub stage: String,
    pub board: String,
}

impl View for KanbanInfo {
    type V = KanbanModel;

    open spec fn view(&self) -> KanbanModel {
        KanbanModel { stage: self.stage@, board: self.board@ }
    }
}

/// A task: a note with a priority and, where given, a date, a time, a
/// duration and a place on a kanban board. Its name is the name of its
/// file.
#[derive(Debug, Clone, PartialEq, Eq)]
pub struct Task {
    pub priority: usize,
    pub name: String,
    pub description: MdNode,
    pub date: Option<::chrono::NaiveDate>,
    pub time: Option<::chrono::NaiveTime>,
    pub duration: Option<::chrono::Duration>,
    pub kanban: Option<KanbanInfo>,
}

impl View for Task {
    type V = TaskModel;

    open spec fn view(&self) -> TaskModel {
        TaskModel {
            priority: self.priority as nat,
            name: self.name@,
            description: self.description@,
            date: self.date,
            time: self.time,
            duration: self.duration,
            kanban: match self.kanban {
                Some(kanban) => Some(kanban@),
                None => None,
            },
        }
    }
}

/// The kanban place that front-matter gives: none without a `board`; with
/// one, the `stage` must be there too.
pub open spec fn kanban_of(meta: YamlTree) -> Option<Option<KanbanModel>> {
    match meta.get("board"@).as_str() {
        Some(board) => match meta.get("stage"@).as_str() {
            Some(stage) => Some(Some(KanbanModel { stage, board })),
            None => None,
        },
        None => Some(None),
    }
}

/// The priority that front-matter gives: the integer under `priority`,
/// which must not be negative and must fit the machine's word.
pub open spec fn priority_of(meta: YamlTree) -> Option<nat> {
    match meta.get("priority"@).as_i64() {
        Some(priority) => if 0 <= priority <= usize::MAX {
            Some(priority as nat)
        } else {
            None
        },
        None => None,
    }
}

/// What the front-matter of a task gives before its date and its time
/// are read, as a mathematical value.
pub struct FieldsModel {
    pub priority: nat,
    pub kanban: Option<KanbanModel>,
    /// The string under `date`, if a string stands there.
    pub date: Option<Seq<char>>,
    /// The string under `time`, if a string stands there.
    pub time: Option<Seq<char>>,
}

/// What the front-matter `meta` gives for a task. Nothing where it has no
/// usable priority, or a board without a stage.
pub open spec fn fields_of(meta: YamlTree) -> Option<FieldsModel> {
    match (kanban_of(meta), priority_of(meta)) {
        (Some(kanban), Some(priority)) => Some(
            FieldsModel {
                priority,
                kanban,
                date: meta.get("date"@).as_str(),
                time: meta.get("time"@).as_str(),
            },
        ),
        _ => None,
    }
}

/// The task called `name` that comes of the fields of its front-matter,
/// of what its body parsed to, and of what the strings under `date` and
/// `time` were read as. A body that does not parse fails first; then a
/// string that is there and was not read as a date or as a time. What was
/// read counts only where the string is there. The duration is never
/// read.
pub open spec fn assembled(
    name: Seq<char>,
    fields: FieldsModel,
    description: Result<MdTree, Seq<char>>,
    date: Option<::chrono::NaiveDate>,
    time: Option<::chrono::NaiveTime>,
) -> Result<TaskModel, Failure> {
    match description {
        Err(message) => Err(Failure::MarkdownParse(message)),
        Ok(tree) => if (fields.date is Some && date is None) || (fields.time is Some && time
            is None) {
            Err(Failure::ErrorWhileParsingTask)
        } else {
            Ok(
                TaskModel {
                    priority: fields.priority,
                    name,
                    description: tree,
                    date: if fields.date is Some {
                        date
                    } else {
                        None
                    },
                    time: if fields.time is Some {
                        time
                    } else {
                        None
                    },
                    duration: None,
                    kanban: fields.kanban,
                },
            )
        },
    }
}

/// The date that `text` writes, if there is a text and it writes one.
pub open spec fn read_date(text: Option<Seq<char>>) -> Option<::chrono::NaiveDate> {
    match text {
        Some(written) => date_of_text(written),
        None => None,
    }
}

/// The time that `text` writes, if there is a text and it writes one.
pub open spec fn read_time(text: Option<Seq<char>>) -> Option<::chrono::NaiveTime> {
    match text {
        Some(written) => time_of_text(written),
        None => None,
    }
}

/// The task that the front-matter `meta` and the body `body` of a note
/// called `name` describe.
pub open spec fn task_of(name: Seq<char>, meta: YamlTree, body: Seq<char>) -> Result<
    TaskModel,
    Failure,
> {
    match fields_of(meta) {
        Some(fields) => assembled(
            name,
            fields,
            mdast_of(body),
            read_date(fields.date),
            read_time(fields.time),
        ),
        None => Err(Failure::ErrorWhileParsingTask),
    }
}

/// The task that the note `text` called `name` describes, or why it
/// describes none. A note without front-matter is no task.
pub open spec fn parsed_task(name: Seq<char>, text: Seq<char>) -> Result<TaskModel, Failure> {
    match split_meta(text) {
        MetaSplit::NoEnding => Err(Failure::NoMetadataEnding),
        MetaSplit::BadYaml(error) => Err(Failure::YamlParsingError(error)),
        MetaSplit::Split { body, meta: None } => Err(Failure::ErrorWhileParsingTask),
        MetaSplit::Split { body, meta: Some(meta) } => task_of(name, meta, body),
    }
}

/// Whether `task` is what reading the note `text` called `name` gives.
pub open spec fn is_parsed_task(
    name: Seq<char>,
    text: Seq<char>,
    task: WorldResult<(String, Task)>,
) -> bool {
    match task {
        Ok((key, found)) => key@ == name && parsed_task(name, text) == Ok::<TaskModel, Failure>(
            found@,
        ),
        Err(error) => parsed_task(name, text) == Err::<TaskModel, Failure>(error@),
    }
}

/// A line of front-matter: the key with its colon, the value and a line
/// break. Nothing where there is no value.
pub open spec fn field_line(label: Seq<char>, value: Option<Seq<char>>) -> Seq<char> {
    match value {
        Some(written) => label + written + "\n"@,
        None => Seq::empty(),
    }
}

/// Front-matter up to its closing delimiter, the opening delimiter
/// included: priority and name, then date, time and duration where they
/// are given.
pub open spec fn front_text(
    priority: nat,
    name: Seq<char>,
    date: Option<Seq<char>>,
    time: Option<Seq<char>>,
    duration: Option<Seq<char>>,
) -> Seq<char> {
    "---\n"@ + "priority: "@ + decimal_text(priority) + "\n"@ + "name: "@ + name + "\n"@
        + field_line("date: "@, date) + field_line("time: "@, time) + field_line(
        "duration: "@,
        duration,
    )
}

/// How a task's date is written, if it has one.
pub open spec fn written_date(date: Option<::chrono::NaiveDate>) -> Option<Seq<char>> {
    match date {
        Some(date) => Some(text_of_date(date)),
        None => None,
    }
}

/// How a task's time is written, if it has one.
pub open spec fn written_time(time: Option<::chrono::NaiveTime>) -> Option<Seq<char>> {
    match time {
        Some(time) => Some(text_of_time(time)),
        None => None,
    }
}

/// How a task's duration is written, if it has one.
pub open spec fn written_duration(duration: Option<::chrono::TimeDelta>) -> Option<Seq<char>> {
    match duration {
        Some(duration) => Some(text_of_duration(duration)),
        None => None,
    }
}

/// What a task is written with between the delimiters, the opening
/// delimiter included. The kanban place is not written.
pub open spec fn front_matter_text(task: TaskModel) -> Seq<char> {
    front_text(
        task.priority,
        task.name,
        written_date(task.date),
        written_time(task.time),
        written_duration(task.duration),
    )
}

/// The front-matter that a task is written with, closed by a delimiter
/// line.
pub open spec fn meta_text(task: TaskModel) -> Seq<char> {
    front_matter_text(task) + "---\n"@
}

/// The text of a task's file: its front-matter, then the text of its
/// description.
pub open spec fn task_text(task: TaskModel) -> Seq<char> {
    meta_text(task) + task.description.text()
}

/// The string under `key` in `meta`, if a string stands there.
fn meta_str(meta: &YamlValue, key: &str) -> (text: Option<String>)
    ensures
        match text {
            Some(found) => meta@.get(key@).as_str() == Some(found@),
            None => meta@.get(key@).as_str() is None,
        },
{
    match meta.get(key) {
        Some(value) => match value.as_str() {
            Some(text) => Some(text.to_owned()),
            None => None,
        },
        None => None,
    }
}

/// The priority that `meta` gives.
fn meta_priority(meta: &YamlValue) -> (priority: Option<usize>)
    ensures
        match priority {
            Some(found) => priority_of(meta@) == Some(found as nat),
            None => priority_of(meta@) is None,
        },
{
    let number = match meta.get("priority") {
        Some(value) => match value.as_i64() {
            Some(number) => number,
            None => {
                return None;
            },
        },
        None => {
            return None;
        },
    };
    if number < 0 || number as u64 > usize::MAX as u64 {
        None
    } else {
        Some(number as usize)
    }
}

/// What the front-matter of a task gives before its date and its time
/// are read.
#[derive(Debug, Clone, PartialEq, Eq)]
pub struct TaskFields {
    pub priority: usize,
    pub kanban: Option<KanbanInfo>,
    pub date: Option<String>,
    pub time: Option<String>,
}

impl View for TaskFields {
    type V = FieldsModel;

    open spec fn view(&self) -> FieldsModel {
        FieldsModel {
            priority: self.priority as nat,
            kanban: match self.kanban {
                Some(kanban) => Some(kanban@),
                None => None,
            },
            date: match self.date {
                Some(text) => Some(text@),
                None => None,
            },
            time: match self.time {
                Some(text) => Some(text@),
                None => None,
            },
        }
    }
}

/// Whether `task` is the task that comes of the given parts.
pub open spec fn is_assembled(
    name: Seq<char>,
    fields: FieldsModel,
    description: Result<MdTree, Seq<char>>,
    date: Option<::chrono::NaiveDate>,
    time: Option<::chrono::NaiveTime>,
    task: WorldResult<(String, Task)>,
) -> bool {
    match task {
        Ok((key, found)) => key@ == name && assembled(name, fields, description, date, time)
            == Ok::<TaskModel, Failure>(found@),
        Err(error) => assembled(name, fields, description, date, time) == Err::<
            TaskModel,
            Failure,
        >(error@),
    }
}

/// Writes front-matter: priority and name, then date, time and duration
/// where they are given, between two delimiter lines.
pub fn meta_block(
    priority: usize,
    name: &str,
    date: Option<&str>,
    time: Option<&str>,
    duration: Option<&str>,
) -> (meta: String)
    ensures
        meta@ == front_text(
            priority as nat,
            name@,
            match date {
                Some(text) => Some(text@),
                None => None,
            },
            match time {
                Some(text) => Some(text@),
                None => None,
            },
            match duration {
                Some(text) => Some(text@),
                None => None,
            },
        ) + "---\n"@,
{
    let mut meta = String::new();
    meta.append("---\n");
    meta.append("priority: ");
    meta.append(decimal(priority).as_str());
    meta.append("\n");
    meta.append("name: ");
    meta.append(name);
    meta.append("\n");
    if let Some(date) = date {
        meta.append("date: ");
        meta.append(date);
        meta.append("\n");
    }
    if let Some(time) = time {
        meta.append("time: ");
        meta.append(time);
        meta.append("\n");
    }
    if let Some(duration) = duration {
        meta.append("duration: ");
        meta.append(duration);
        meta.append("\n");
    }
    meta.append("---\n");
    assert(meta@ =~= front_text(
        priority as nat,
        name@,
        match date {
            Some(text) => Some(text@),
            None => None,
        },
        match time {
            Some(text) => Some(text@),
            None => None,
        },
        match duration {
            Some(text) => Some(text@),
            None => None,
        },
    ) + "---\n"@);
    meta
}

impl Task {
    /// Reads from front-matter what a task needs of it: an integer
    /// `priority`, and with a `board` a `stage`; and takes along the
    /// strings under `date` and `time`.
    pub fn fields(meta: &YamlValue) -> (fields: Option<TaskFields>)
        ensures
            match fields {
                Some(found) => fields_of(meta@) == Some(found@),
                None => fields_of(meta@) is None,
            },
    {
        let kanban = match meta_str(meta, "board") {
            Some(board) => match meta_str(meta, "stage") {
                Some(stage) => Some(KanbanInfo { board, stage }),
                None => {
                    return None;
                },
            },
            None => None,
        };
        let priority = match meta_priority(meta) {
            Some(priority) => priority,
            None => {
                return None;
            },
        };
        Some(
            TaskFields {
                priority,
                kanban,
                date: meta_str(meta, "date"),
                time: meta_str(meta, "time"),
            },
        )
    }

    /// Makes the task called `name` of the fields of its front-matter, of
    /// what its body parsed to, and of what the strings under `date` and
    /// `time` were read as.
    pub fn assemble(
        name: String,
        fields: TaskFields,
        description: Result<MdNode, String>,
        date: Option<::chrono::NaiveDate>,
        time: Option<::chrono::NaiveTime>,
    ) -> (task: WorldResult<(String, Task)>)
        ensures
            is_assembled(name@, fields@, parsed(description), date, time, task),
    {
        let description = match description {
            Ok(description) => description,
            Err(message) => {
                return Err(WorldError::MarkdownParse(message));
            },
        };
        let date = match fields.date {
            Some(_) => match date {
                Some(date) => Some(date),
                None => {
                    return Err(WorldError::ErrorWhileParsingTask);
                },
            },
            None => None,
        };
        let time = match fields.time {
            Some(_) => match time {
                Some(time) => Some(time),
                None => {
                    return Err(WorldError::ErrorWhileParsingTask);
                },
            },
            None => None,
        };
        let key = name.clone();
        Ok(
            (
                key,
                Task {
                    priority: fields.priority,
                    name,
                    description,
                    date,
                    time,
                    duration: None,
                    kanban: fields.kanban,
                },
            ),
        )
    }

    /// Reads a task from the text of its note. The note must have
    /// front-matter with an integer `priority`; `date` and `time`, where
    /// they are strings, must write a date and a time; with a `board` there
    /// must be a `stage`.
    pub fn parse(named: (String, String)) -> (task: WorldResult<(String, Task)>)
        ensures
            is_parsed_task(named.0@, named.1@, task),
    {
        let (name, raw_task) = named;
        let (description, meta) = match remove_meta(raw_task.as_str()) {
            Ok(parts) => parts,
            Err(error) => {
                return Err(error);
            },
        };
        let meta = match meta {
            Some(meta) => meta,
            None => {
                return Err(WorldError::ErrorWhileParsingTask);
            },
        };
        let fields = match Task::fields(&meta) {
            Some(fields) => fields,
            None => {
                return Err(WorldError::ErrorWhileParsingTask);
            },
        };
        let description = to_mdast(description);
        let date = match &fields.date {
            Some(text) => parse_date(text.as_str()),
            None => None,
        };
        let time = match &fields.time {
            Some(text) => parse_time(text.as_str()),
            None => None,
        };
        Task::assemble(name, fields, description, date, time)
    }

    /// Writes the front-matter of the task.
    pub fn create_meta(&self) -> (meta: String)
        ensures
            meta@ == meta_text(self@),
    {
        let date = match &self.date {
            Some(date) => Some(format_date(date)),
            None => None,
        };
        let time = match &self.time {
            Some(time) => Some(format_time(time)),
            None => None,
        };
        let duration = match &self.duration {
            Some(duration) => Some(format_duration(duration)),
            None => None,
        };
        meta_block(
            self.priority,
            self.name.as_str(),
            match &date {
                Some(text) => Some(text.as_str()),
                None => None,
            },
            match &time {
                Some(text) => Some(text.as_str()),
                None => None,
            },
            match &duration {
                Some(text) => Some(text.as_str()),
                None => None,
            },
        )
    }

    /// Writes the task as the text of its file.
    pub fn render(&self) -> (text: String)
        ensures
            text@ == task_text(self@),
    {
        let mut text = self.create_meta();
        text.append(self.description.to_string().as_str());
        text
    }
}

/// Whether `files` are the files of `tasks`: for each task, in order, the
/// name of its file and its text.
pub open spec fn is_tasks_files(tasks: Tasks, files: Seq<(String, String)>) -> bool {
    &&& files.len() == tasks.tasks.keys().len()
    &&& forall|i: int|
        0 <= i < files.len() ==> (#[trigger] files[i]).0@ == tasks.tasks.keys()[i] && files[i].1@
            == task_text(tasks.tasks@[tasks.tasks.keys()[i]]@)
}

/// Whether `tasks` is what reading the notes `raw_tasks` gives: all of
/// them as tasks under their names, or the failure of the first note, in
/// their order, that is no task.
pub open spec fn is_parsed_tasks(raw_tasks: NameMap<String>, tasks: WorldResult<Tasks>) -> bool {
    match tasks {
        Ok(found) => found.tasks.keys() == raw_tasks.keys() && forall|i: int|
            0 <= i < raw_tasks.keys().len() ==> parsed_task(
                #[trigger] raw_tasks.keys()[i],
                raw_tasks@[raw_tasks.keys()[i]]@,
            ) == Ok::<TaskModel, Failure>(found.tasks@[raw_tasks.keys()[i]]@),
        Err(error) => exists|i: int|
            0 <= i < raw_tasks.keys().len() && parsed_task(
                #[trigger] raw_tasks.keys()[i],
                raw_tasks@[raw_tasks.keys()[i]]@,
            ) == Err::<TaskModel, Failure>(error@) && forall|j: int|
                0 <= j < i ==> parsed_task(
                    #[trigger] raw_tasks.keys()[j],
                    raw_tasks@[raw_tasks.keys()[j]]@,
                ) is Ok,
    }
}

/// The tasks of a vault, by the names of their files.
#[derive(Debug)]
pub struct Tasks {
    pub tasks: NameMap<Task>,
}

impl Tasks {
    /// Reads each note of `raw_tasks` as a task, in their order, and stops
    /// at the first that is none.
    pub fn new(raw_tasks: NameMap<String>) -> (tasks: WorldResult<Tasks>)
        ensures
            is_parsed_tasks(raw_tasks, tasks),
    {
        let mut tasks: NameMap<Task> = NameMap::new();
        let n = raw_tasks.len();
        let ghost keys = raw_tasks.keys();
        let mut i: usize = 0;
        while i < n
            invariant
                i <= n,
                n == keys.len(),
                keys == raw_tasks.keys(),
                keys.no_duplicates(),
                tasks.keys() == keys.take(i as int),
                forall|j: int|
                    0 <= j < i ==> tasks@.contains_key(keys[j]) && parsed_task(
                        #[trigger] keys[j],
                        raw_tasks@[keys[j]]@,
                    ) == Ok::<TaskModel, Failure>(tasks@[keys[j]]@),
            decreases n - i,
        {
            let name = raw_tasks.key_at(i).clone();
            let raw_task = raw_tasks.value_at(i).clone();
            let ghost before = tasks;
            match Task::parse((name, raw_task)) {
                Ok((key, task)) => {
                    proof {
                        assert(!before@.contains_key(keys[i as int])) by {
                            if before.keys().contains(keys[i as int]) {
                                let j = before.keys().index_of(keys[i as int]);
                                assert(keys[j] == keys[i as int]);
                            }
                        }
                    }
                    tasks.insert(key, task);
                    proof {
                        assert(tasks.keys() =~= keys.take(i + 1));
                    }
                },
                Err(error) => {
                    return Err(error);
                },
            }
            i += 1;
        }
        proof {
            assert(keys.take(n as int) =~= keys);
        }
        Ok(Tasks { tasks })
    }

    /// The files of the tasks: for each task, in order, the name of its
    /// file and the text to write there.
    pub fn render(&self) -> (files: Vec<(String, String)>)
        ensures
            is_tasks_files(*self, files@),
    {
        let mut files: Vec<(String, String)> = Vec::new();
        let n = self.tasks.len();
        let mut i: usize = 0;
        while i < n
            invariant
                i <= n,
                n == self.tasks.keys().len(),
                files@.len() == i,
                forall|j: int|
                    0 <= j < i ==> (#[trigger] files@[j]).0@ == self.tasks.keys()[j]
                        && files@[j].1@ == task_text(self.tasks@[self.tasks.keys()[j]]@),
            decreases n - i,
        {
            let name = self.tasks.key_at(i).clone();
            let text = self.tasks.value_at(i).render();
            files.push((name, text));
            i += 1;
        }
        files
    }
}

/// Whether three hyphens stand at `i` in `text` right behind a line break.
pub open spec fn is_line_delimiter_at(text: Seq<char>, i: int) -> bool {
    1 <= i && text[i - 1] == '\n' && is_delimiter_at(text, i)
}

/// Whether `text` holds a line break with three hyphens behind it: what
/// would close front-matter that it is written into.
pub open spec fn holds_delimiter_line(text: Seq<char>) -> bool {
    exists|i: int| is_line_delimiter_at(text, i)
}

/// Whether a text can be written into front-matter without closing it:
/// it holds no line break with three hyphens behind it and, unless it is
/// empty, starts with no hyphen and ends its line.
spec fn is_clean(text: Seq<char>) -> bool {
    !holds_delimiter_line(text) && (text.len() == 0 || (text[0] != '-' && text.last() == '\n'))
}

/// Whether `text` is free of hyphens and of line breaks.
spec fn is_label(text: Seq<char>) -> bool {
    forall|i: int| 0 <= i < text.len() ==> text[i] != '-' && text[i] != '\n'
}

/// Two texts without a delimiter line give one without, unless a line
/// break or hyphens at the end of the first meet a hyphen at the start of
/// the second.
proof fn lemma_join(a: Seq<char>, b: Seq<char>)
    requires
        !holds_delimiter_line(a),
        !holds_delimiter_line(b),
        a.len() == 0 || b.len() == 0 || b[0] != '-' || (a.last() != '\n' && a.last() != '-'),
    ensures
        !holds_delimiter_line(a + b),
{
    assert forall|i: int| !is_line_delimiter_at(a + b, i) by {
        if is_line_delimiter_at(a + b, i) {
            if i + 3 <= a.len() {
                assert((a + b)[i - 1] == a[i - 1]);
                assert(is_line_delimiter_at(a, i));
            } else if i - 1 >= a.len() {
                assert((a + b)[i - 1] == b[i - 1 - a.len()]);
                assert(is_line_delimiter_at(b, i - a.len()));
            } else {
                assert((a + b)[a.len() - 1] == a.last());
                assert((a + b)[a.len() as int] == b[0]);
            }
        }
    }
}

/// A line of front-matter, a key with a value that holds no delimiter
/// line, is clean.
proof fn lemma_line_is_clean(label: Seq<char>, value: Seq<char>)
    requires
        is_label(label),
        label.len() > 0,
        !holds_delimiter_line(value),
    ensures
        is_clean(label + value + "\n"@),
        (label + value + "\n"@).len() > 0,
{
    reveal_strlit("\n");
    assert forall|i: int| !is_line_delimiter_at(label, i) by {
        if is_line_delimiter_at(label, i) {
            assert(label[i] == '-');
        }
    }
    assert forall|i: int| !is_line_delimiter_at("\n"@, i) by {}
    assert(label.last() == label[label.len() - 1]);
    lemma_join(label, value);
    lemma_join(label + value, "\n"@);
    assert((label + value + "\n"@)[0] == label[0]);
}

/// Clean texts joined are clean.
proof fn lemma_clean_join(a: Seq<char>, b: Seq<char>)
    requires
        is_clean(a),
        is_clean(b),
    ensures
        is_clean(a + b),
{
    lemma_join(a, b);
    if b.len() == 0 {
        assert(a + b =~= a);
    } else if a.len() == 0 {
        assert(a + b =~= b);
    } else {
        assert((a + b)[0] == a[0]);
    }
}

/// The lines that a task is written with between the delimiter lines.
spec fn meta_lines(task: TaskModel) -> Seq<char> {
    "priority: "@ + decimal_text(task.priority) + "\n"@ + ("name: "@ + task.name + "\n"@)
        + field_line("date: "@, written_date(task.date)) + field_line(
        "time: "@,
        written_time(task.time),
    ) + field_line("duration: "@, written_duration(task.duration))
}

/// The keys of front-matter, each with its colon and blank, hold neither
/// a hyphen nor a line break.
proof fn lemma_keys_are_labels()
    ensures
        is_label("priority: "@) && "priority: "@.len() > 0,
        is_label("name: "@) && "name: "@.len() > 0,
        is_label("date: "@) && "date: "@.len() > 0,
        is_label("time: "@) && "time: "@.len() > 0,
        is_label("duration: "@) && "duration: "@.len() > 0,
{
    reveal_strlit("priority: ");
    reveal_strlit("name: ");
    reveal_strlit("date: ");
    reveal_strlit("time: ");
    reveal_strlit("duration: ");
}

/// A line that may be there or not is clean where its value, if it has
/// one, holds no delimiter line.
proof fn lemma_field_line_is_clean(label: Seq<char>, value: Option<Seq<char>>)
    requires
        is_label(label),
        label.len() > 0,
        value matches Some(written) ==> !holds_delimiter_line(written),
    ensures
        is_clean(field_line(label, value)),
{
    match value {
        Some(written) => {
            lemma_line_is_clean(label, written);
        },
        None => {
            assert forall|i: int| !is_line_delimiter_at(Seq::<char>::empty(), i) by {}
        },
    }
}

/// A number in digits holds no delimiter line.
proof fn lemma_digits_hold_no_delimiter_line(n: nat)
    ensures
        !holds_delimiter_line(decimal_text(n)),
{
    let digits = decimal_text(n);
    lemma_decimal_has_no_hyphen(n);
    assert forall|i: int| !is_line_delimiter_at(digits, i) by {
        if is_line_delimiter_at(digits, i) {
            assert(digits[i] == '-');
        }
    }
}

/// The lines of a task are clean where its name and its written date,
/// time and duration hold no delimiter line.
proof fn lemma_meta_lines_are_clean(task: TaskModel)
    requires
        !holds_delimiter_line(task.name),
        task.date matches Some(date) ==> !holds_delimiter_line(text_of_date(date)),
        task.time matches Some(time) ==> !holds_delimiter_line(text_of_time(time)),
        task.duration matches Some(duration) ==> !holds_delimiter_line(
            text_of_duration(duration),
        ),
    ensures
        is_clean(meta_lines(task)),
        meta_lines(task).len() > 0,
        front_matter_text(task) == "---\n"@ + meta_lines(task),
{
    lemma_keys_are_labels();
    lemma_digits_hold_no_delimiter_line(task.priority);
    let priority = "priority: "@ + decimal_text(task.priority) + "\n"@;
    let name = "name: "@ + task.name + "\n"@;
    let date = field_line("date: "@, written_date(task.date));
    let time = field_line("time: "@, written_time(task.time));
    let duration = field_line("duration: "@, written_duration(task.duration));
    lemma_line_is_clean("priority: "@, decimal_text(task.priority));
    lemma_line_is_clean("name: "@, task.name);
    lemma_field_line_is_clean("date: "@, written_date(task.date));
    lemma_field_line_is_clean("time: "@, written_time(task.time));
    lemma_field_line_is_clean("duration: "@, written_duration(task.duration));
    lemma_clean_join(priority, name);
    lemma_clean_join(priority + name, date);
    lemma_clean_join(priority + name + date, time);
    lemma_clean_join(priority + name + date + time, duration);
    assert(meta_lines(task) == priority + name + date + time + duration);
    assert(front_matter_text(task) =~= "---\n"@ + meta_lines(task));
}

/// The lines `lines` between two delimiter lines, with `body` behind.
spec fn framed(lines: Seq<char>, body: Seq<char>) -> Seq<char> {
    "---\n"@ + lines + "---\n"@ + body
}

/// Clean lines between two delimiter lines are split off as they were
/// written.
proof fn lemma_framed_lines_split(lines: Seq<char>, body: Seq<char>)
    requires
        is_clean(lines),
        lines.len() > 0,
    ensures
        is_delimiter_at(framed(lines, body), 0),
        has_closing(framed(lines, body)),
        closing(framed(lines, body)) == lines.len() + 4,
        framed(lines, body).subrange(0, lines.len() as int + 4) == "---\n"@ + lines,
        framed(lines, body).subrange(lines.len() as int + 7, framed(lines, body).len() as int)
            == "\n"@ + body,
{
    reveal_strlit("---\n");
    reveal_strlit("\n");
    let opening = "---\n"@;
    let text = framed(lines, body);
    let end: int = lines.len() as int + 4;
    assert(text.len() == end + 4 + body.len());
    assert forall|k: int| 0 <= k < 4 implies text[k] == opening[k] && text[end + k]
        == opening[k] by {}
    assert forall|k: int| 0 <= k < lines.len() implies text[4 + k] == lines[k] by {}
    assert(is_delimiter_at(text, 0));
    assert(text[end - 1] == lines.last());
    assert(is_closer_at(text, end));
    assert forall|j: int| 3 <= j < end implies !is_closer_at(text, j) by {
        if is_closer_at(text, j) {
            if j == 3 {
                assert(text[3] == '\n');
            } else if j == 4 {
                assert(text[4] == lines[0]);
            } else if j + 3 <= end {
                assert(text[j - 1] == lines[j - 5]);
                assert(is_line_delimiter_at(lines, j - 4));
            } else {
                assert(text[end - 1] == lines.last());
            }
        }
    }
    assert(is_closing(text, end));
    let found = closing(text);
    assert(is_closing(text, found));
    if found < end {
        assert(!is_closer_at(text, found));
    }
    if end < found {
        assert(!is_closer_at(text, end));
    }
    assert(text.subrange(0, end) =~= opening + lines);
    assert(text.subrange(end + 3, text.len() as int) =~= "\n"@ + body);
}

/// A task that is written and split again gives back what was written:
/// the front-matter is what stands before the closing delimiter line, and
/// the body is the text of the description behind a line break. This
/// holds where neither the name nor the written date, time or duration
/// holds a line break with three hyphens behind it. What the front-matter
/// then reads as is for the YAML reader to say.
pub proof fn lemma_written_task_splits(task: TaskModel)
    requires
        !holds_delimiter_line(task.name),
        task.date matches Some(date) ==> !holds_delimiter_line(text_of_date(date)),
        task.time matches Some(time) ==> !holds_delimiter_line(text_of_time(time)),
        task.duration matches Some(duration) ==> !holds_delimiter_line(
            text_of_duration(duration),
        ),
    ensures
        split_meta(task_text(task)) == match yaml_documents(front_matter_text(task)) {
            Err(error) => MetaSplit::BadYaml(error),
            Ok(documents) => if documents.len() == 0 {
                MetaSplit::NoEnding
            } else {
                MetaSplit::Split {
                    body: "\n"@ + task.description.text(),
                    meta: Some(documents.last()),
                }
            },
        },
        parsed_task(task.name, task_text(task)) == match yaml_documents(front_matter_text(task)) {
            Err(error) => Err::<TaskModel, Failure>(Failure::YamlParsingError(error)),
            Ok(documents) => if documents.len() == 0 {
                Err::<TaskModel, Failure>(Failure::NoMetadataEnding)
            } else {
                task_of(task.name, documents.last(), "\n"@ + task.description.text())
            },
        },
{
    let lines = meta_lines(task);
    let body = task.description.text();
    lemma_meta_lines_are_clean(task);
    lemma_framed_lines_split(lines, body);
    assert(task_text(task) =~= framed(lines, body));
}

/// Whether the readers read the written task `task` as it was written:
/// the YAML reader finds in its front-matter a document whose last has the
/// task's priority as an integer under `priority`, the written date and
/// time as strings under `date` and `time`, and no `board`; a written date
/// or time reads as the date or time that it writes; and the text of the
/// description parses as markdown.
pub open spec fn is_read_as_written(task: TaskModel) -> bool {
    &&& yaml_documents(front_matter_text(task)) matches Ok(documents)
    &&& documents.len() > 0
    &&& priority_of(documents.last()) == Some(task.priority)
    &&& documents.last().get("board"@).as_str() is None
    &&& documents.last().get("date"@).as_str() == written_date(task.date)
    &&& documents.last().get("time"@).as_str() == written_time(task.time)
    &&& read_date(written_date(task.date)) == task.date
    &&& read_time(written_time(task.time)) == task.time
    &&& mdast_of("\n"@ + task.description.text()) is Ok
}

/// A task that is written and read again comes back with its name, its
/// priority, its date and its time, and without duration and kanban
/// place. This holds where the name and the written date, time and
/// duration hold no line break with three hyphens behind it, and where
/// the readers read the written text as it was written.
pub proof fn lemma_written_task_reads_back(task: TaskModel)
    requires
        !holds_delimiter_line(task.name),
        task.date matches Some(date) ==> !holds_delimiter_line(text_of_date(date)),
        task.time matches Some(time) ==> !holds_delimiter_line(text_of_time(time)),
        task.duration matches Some(duration) ==> !holds_delimiter_line(
            text_of_duration(duration),
        ),
    ensures
        is_read_as_written(task) ==> (parsed_task(task.name, task_text(task)) matches Ok(read)
            && read.name == task.name && read.priority == task.priority && read.date == task.date
            && read.time == task.time && read.duration is None && read.kanban is None),
{
    lemma_written_task_splits(task);
}

} // verus!
