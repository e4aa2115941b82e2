use vstd::prelude::*;
use vstd::string::{StrSliceExecFns, StringExecFns};

use crate::name_map::NameMap;
use crate::text::chars_of;

verus! {

/// What a board holds, as a mapping: for each stage the names of its tasks,
/// in the order in which they were added.
pub type BoardView = Map<Seq<char>, Seq<Seq<char>>>;

/// The board that `board` becomes when `task` is added to `stage`.
pub open spec fn board_with_task(board: BoardView, stage: Seq<char>, task: Seq<char>) -> BoardView {
    let tasks = if board.contains_key(stage) {
        board[stage]
    } else {
        Seq::empty()
    };
    board.insert(stage, tasks.push(task))
}

/// The boards that `boards` become when `task` is added to `stage` of the
/// board called `board`. A board or a stage that is not there yet is made.
pub open spec fn boards_with_task(
    boards: Map<Seq<char>, BoardView>,
    board: Seq<char>,
    stage: Seq<char>,
    task: Seq<char>,
) -> Map<Seq<char>, BoardView> {
    let former = if boards.contains_key(board) {
        boards[board]
    } else {
        Map::empty()
    };
    boards.insert(board, board_with_task(former, stage, task))
}

/// The names `names` with `name` at the end, unless it is among them already.
pub open spec fn with_name(names: Seq<Seq<char>>, name: Seq<char>) -> Seq<Seq<char>> {
    if names.contains(name) {
        names
    } else {
        names.push(name)
    }
}

/// How many bytes write the character `c` in UTF-8.
pub open spec fn utf8_len(c: char) -> nat {
    if (c as u32) < 0x80 {
        1
    } else if (c as u32) < 0x800 {
        2
    } else if (c as u32) < 0x10000 {
        3
    } else {
        4
    }
}

/// How many bytes write `text` in UTF-8.
pub open spec fn byte_len(text: Seq<char>) -> nat
    decreases text.len(),
{
    if text.len() == 0 {
        0
    } else {
        byte_len(text.drop_last()) + utf8_len(text.last())
    }
}

/// `text` without the characters at its end that are written with `bytes`
/// bytes. Where no end of the text is written with just that many, the
/// character in which the count falls goes too, and a text that is written
/// with fewer bytes goes altogether.
pub open spec fn without_end(text: Seq<char>, bytes: nat) -> Seq<char>
    decreases text.len(),
{
    if bytes == 0 || text.len() == 0 {
        text
    } else if utf8_len(text.last()) >= bytes {
        text.drop_last()
    } else {
        without_end(text.drop_last(), (bytes - utf8_len(text.last())) as nat)
    }
}

/// The title under which a task is shown: the name of its file without
/// the three bytes of its ending, such as `.md`.
pub open spec fn title(name: Seq<char>) -> Seq<char> {
    without_end(name, 3)
}

/// A text without bytes is empty.
proof fn lemma_no_bytes_no_text(text: Seq<char>)
    requires
        byte_len(text) == 0,
    ensures
        text.len() == 0,
{
}

/// Where the characters of `text` from `at` on are written with just
/// `bytes` bytes, the text without that many bytes at its end is what
/// stands before `at`.
pub proof fn lemma_without_end(text: Seq<char>, bytes: nat, at: int)
    requires
        0 <= at <= text.len(),
        byte_len(text.skip(at)) == bytes,
    ensures
        without_end(text, bytes) == text.take(at),
    decreases text.len(),
{
    let end = text.skip(at);
    if bytes == 0 {
        lemma_no_bytes_no_text(end);
        assert(text.take(at) =~= text);
    } else {
        assert(end.len() > 0);
        assert(end.last() == text.last());
        assert(end.drop_last() =~= text.drop_last().skip(at));
        if utf8_len(text.last()) >= bytes {
            lemma_no_bytes_no_text(end.drop_last());
            assert(text.take(at) =~= text.drop_last());
        } else {
            lemma_without_end(text.drop_last(), (bytes - utf8_len(text.last())) as nat, at);
            assert(text.drop_last().take(at) =~= text.take(at));
        }
    }
}

/// The title of a name is the name cut three bytes before its end,
/// wherever a character starts there.
pub proof fn lemma_title_is_three_bytes_shorter(name: Seq<char>, at: int)
    requires
        0 <= at <= name.len(),
        byte_len(name.skip(at)) == 3,
    ensures
        title(name) == name.take(at),
{
    lemma_without_end(name, 3, at);
}

/// How many bytes write the character `c` in UTF-8.
fn utf8_width(c: char) -> (width: usize)
    ensures
        width == utf8_len(c),
{
    let code = c as u32;
    if code < 0x80 {
        1
    } else if code < 0x800 {
        2
    } else if code < 0x10000 {
        3
    } else {
        4
    }
}

/// The title of the task called `name`.
pub fn task_title(name: &str) -> (shown: &str)
    ensures
        shown@ == title(name@),
{
    let chars = chars_of(name);
    let mut kept: usize = chars.len();
    let mut left: usize = 3;
    proof {
        assert(chars@.take(kept as int) =~= chars@);
    }
    while left > 0 && kept > 0
        invariant
            kept <= chars@.len(),
            left <= 3,
            chars@ == name@,
            title(name@) == without_end(chars@.take(kept as int), left as nat),
        decreases kept,
    {
        let width = utf8_width(chars[kept - 1]);
        proof {
            let now = chars@.take(kept as int);
            assert(now.last() == chars@[kept - 1]);
            assert(now.drop_last() =~= chars@.take(kept - 1));
        }
        kept -= 1;
        if width >= left {
            left = 0;
        } else {
            left -= width;
        }
    }
    name.substring_char(0, kept)
}

/// The lines of a stage: one unchecked box with a link for each task.
pub open spec fn task_lines(tasks: Seq<Seq<char>>) -> Seq<char>
    decreases tasks.len(),
{
    if tasks.len() == 0 {
        Seq::empty()
    } else {
        task_lines(tasks.drop_last()) + "- [ ] [["@ + title(tasks.last()) + "]]\n"@
    }
}

/// The stages `stages` of `board`, each as a heading, the lines of its
/// tasks and an empty line.
pub open spec fn stage_blocks(board: BoardView, stages: Seq<Seq<char>>) -> Seq<char>
    decreases stages.len(),
{
    if stages.len() == 0 {
        Seq::empty()
    } else {
        stage_blocks(board, stages.drop_last()) + "## "@ + stages.last() + "\n"@ + task_lines(
            board[stages.last()],
        ) + "\n"@
    }
}

/// The text of a board's file: the plugin's front-matter, the stages in
/// the order `stages`, and the plugin's settings.
pub open spec fn board_text(board: BoardView, stages: Seq<Seq<char>>) -> Seq<char> {
    "---\n\nkanban-plugin: basic\n\n---\n\n"@ + stage_blocks(board, stages)
        + "\n%% kanban:settings\n```\n{\"kanban-plugin\":\"basic\"}\n```\n%%"@
}

/// One kanban board: its stages, each with the names of its tasks.
pub struct Kanban(NameMap<Vec<String>>);

impl View for Kanban {
    type V = BoardView;

    closed spec fn view(&self) -> BoardView {
        Map::new(
            |stage: Seq<char>| self.0@.contains_key(stage),
            |stage: Seq<char>| self.0@[stage].deep_view(),
        )
    }
}

impl Kanban {
    /// The stages of the board, in the order in which they were first used.
    pub closed spec fn stages(self) -> Seq<Seq<char>> {
        self.0.keys()
    }

    /// A board without stages.
    pub fn new() -> (board: Kanban)
        ensures
            board@ == Map::<Seq<char>, Seq<Seq<char>>>::empty(),
            board.stages() == Seq::<Seq<char>>::empty(),
    {
        let board = Kanban(NameMap::new());
        assert(board@ =~= Map::<Seq<char>, Seq<Seq<char>>>::empty());
        board
    }

    /// Adds `task` at the end of `stage`.
    pub fn add_task(&mut self, stage: String, task: String)
        ensures
            final(self)@ == board_with_task(old(self)@, stage@, task@),
            final(self).stages() == with_name(old(self).stages(), stage@),
    {
        let ghost before = *self;
        match self.0.position(stage.as_str()) {
            Some(i) => {
                let mut tasks = self.0.replace_at(i, Vec::new());
                assert(tasks == before.0@[stage@]);
                tasks.push(task);
                let ghost listed = tasks;
                self.0.replace_at(i, tasks);
                proof {
                    assert(before.0.keys().contains(stage@));
                    assert(self.0@ =~= before.0@.insert(stage@, listed));
                    assert(listed.deep_view() =~= before.0@[stage@].deep_view().push(task@));
                    assert(self@ =~= board_with_task(before@, stage@, task@));
                }
            },
            None => {
                let mut tasks: Vec<String> = Vec::new();
                tasks.push(task);
                let ghost listed = tasks;
                self.0.insert(stage, tasks);
                proof {
                    assert(!before.0.keys().contains(stage@));
                    assert(listed.deep_view() =~= Seq::<Seq<char>>::empty().push(task@));
                    assert(self@ =~= board_with_task(before@, stage@, task@));
                }
            },
        }
    }

    /// Writes the board as the text of its file.
    pub fn render(&self) -> (text: String)
        ensures
            text@ == board_text(self@, self.stages()),
    {
        let mut text = String::new();
        text.append("---\n\nkanban-plugin: basic\n\n---\n\n");
        let ghost head = text@;
        let n = self.0.len();
        let mut i: usize = 0;
        while i < n
            invariant
                i <= n,
                n == self.stages().len(),
                text@ == head + stage_blocks(self@, self.stages().take(i as int)),
            decreases n - i,
        {
            let category = self.0.key_at(i);
            let tasks = self.0.value_at(i);
            let ghost stage = self.stages()[i as int];
            let ghost names = self@[stage];
            let ghost before = text@;
            text.append("## ");
            text.append(category.as_str());
            text.append("\n");
            let ghost opened = text@;
            let mut j: usize = 0;
            while j < tasks.len()
                invariant
                    j <= tasks.len(),
                    names == tasks.deep_view(),
                    text@ == opened + task_lines(names.take(j as int)),
                decreases tasks.len() - j,
            {
                let shown = task_title(tasks[j].as_str());
                proof {
                    assert(shown@ =~= title(names[j as int]));
                    assert(names.take(j + 1).drop_last() =~= names.take(j as int));
                    assert(names.take(j + 1).last() == names[j as int]);
                }
                text.append("- [ ] [[");
                text.append(shown);
                text.append("]]\n");
                j += 1;
            }
            text.append("\n");
            proof {
                assert(names.take(tasks.len() as int) =~= names);
                assert(self.stages().take(i + 1).drop_last() =~= self.stages().take(i as int));
                assert(self.stages().take(i + 1).last() == stage);
                assert(text@ =~= head + stage_blocks(self@, self.stages().take(i + 1)));
            }
            i += 1;
        }
        text.append("\n%% kanban:settings\n```\n{\"kanban-plugin\":\"basic\"}\n```\n%%");
        proof {
            assert(self.stages().take(n as int) =~= self.stages());
        }
        text
    }

    /// The names of the tasks in `stage`, if the board has that stage.
    pub fn tasks(&self, stage: &str) -> (tasks: Option<&Vec<String>>)
        ensures
            match tasks {
                Some(names) => self@.contains_key(stage@) && names.deep_view() == self@[stage@],
                None => !self@.contains_key(stage@),
            },
    {
        self.0.get(stage)
    }
}

/// Whether `files` are the files of `kanbans`: for each board, in order,
/// a file called `kanban_` and the board's name, with the board's text.
pub open spec fn is_kanbans_files(kanbans: Kanbans, files: Seq<(String, String)>) -> bool {
    &&& files.len() == kanbans.boards().len()
    &&& forall|i: int|
        0 <= i < files.len() ==> (#[trigger] files[i]).0@ == "kanban_"@ + kanbans.boards()[i]
            && files[i].1@ == board_text(
            kanbans@[kanbans.boards()[i]],
            kanbans.stages(kanbans.boards()[i]),
        )
}

/// The kanban boards, by name.
pub struct Kanbans(NameMap<Kanban>);

impl View for Kanbans {
    type V = Map<Seq<char>, BoardView>;

    closed spec fn view(&self) -> Map<Seq<char>, BoardView> {
        Map::new(|board: Seq<char>| self.0@.contains_key(board), |board: Seq<char>| self.0@[board]@)
    }
}

impl Kanbans {
    /// The names of the boards, in the order in which they were first used.
    pub closed spec fn boards(self) -> Seq<Seq<char>> {
        self.0.keys()
    }

    /// The order of the stages of the board called `board`.
    pub closed spec fn stages(self, board: Seq<char>) -> Seq<Seq<char>> {
        if self.0@.contains_key(board) {
            self.0@[board].stages()
        } else {
            Seq::empty()
        }
    }

    /// A board that is not there has no stages.
    pub proof fn lemma_stages_of_missing_board(self, board: Seq<char>)
        requires
            !self@.contains_key(board),
        ensures
            self.stages(board) == Seq::<Seq<char>>::empty(),
    {
    }

    /// No boards.
    pub fn new() -> (kanbans: Kanbans)
        ensures
            kanbans@ == Map::<Seq<char>, BoardView>::empty(),
            kanbans.boards() == Seq::<Seq<char>>::empty(),
    {
        let kanbans = Kanbans(NameMap::new());
        assert(kanbans@ =~= Map::<Seq<char>, BoardView>::empty());
        kanbans
    }

    /// Adds the task `task_name` at the end of the stage `kanban_category` of
    /// the board `kanban_name`. Other boards and stages stay as they are.
    pub fn add_task(&mut self, kanban_name: String, kanban_category: String, task_name: String)
        ensures
            final(self)@ == boards_with_task(
                old(self)@,
                kanban_name@,
                kanban_category@,
                task_name@,
            ),
            final(self).boards() == with_name(old(self).boards(), kanban_name@),
            final(self).stages(kanban_name@) == with_name(
                old(self).stages(kanban_name@),
                kanban_category@,
            ),
            forall|other: Seq<char>|
                other != kanban_name@ ==> #[trigger] final(self).stages(other) == old(self).stages(
                    other,
                ),
    {
        let ghost before = *self;
        match self.0.position(kanban_name.as_str()) {
            Some(i) => {
                let mut board = self.0.replace_at(i, Kanban::new());
                assert(board == before.0@[kanban_name@]);
                board.add_task(kanban_category, task_name);
                let ghost changed = board;
                self.0.replace_at(i, board);
                proof {
                    assert(before.0.keys().contains(kanban_name@));
                    assert(self.0@ =~= before.0@.insert(kanban_name@, changed));
                    assert(self@ =~= boards_with_task(
                        before@,
                        kanban_name@,
                        kanban_category@,
                        task_name@,
                    ));
                }
            },
            None => {
                let mut board = Kanban::new();
                board.add_task(kanban_category, task_name);
                self.0.insert(kanban_name, board);
                proof {
                    assert(!before.0.keys().contains(kanban_name@));
                    assert(self@ =~= boards_with_task(
                        before@,
                        kanban_name@,
                        kanban_category@,
                        task_name@,
                    ));
                }
            },
        }
    }

    /// The files of the boards: for each board, in order, the name of its
    /// file and the text to write there.
    pub fn render(&self) -> (files: Vec<(String, String)>)
        ensures
            is_kanbans_files(*self, files@),
    {
        let mut files: Vec<(String, String)> = Vec::new();
        let n = self.0.len();
        let mut i: usize = 0;
        while i < n
            invariant
                i <= n,
                n == self.boards().len(),
                files@.len() == i,
                forall|j: int|
                    0 <= j < i ==> (#[trigger] files@[j]).0@ == "kanban_"@ + self.boards()[j]
                        && files@[j].1@ == board_text(
                        self@[self.boards()[j]],
                        self.stages(self.boards()[j]),
                    ),
            decreases n - i,
        {
            let mut filename = "kanban_".to_owned();
            filename.append(self.0.key_at(i).as_str());
            let text = self.0.value_at(i).render();
            files.push((filename, text));
            i += 1;
        }
        files
    }

    /// The board called `kanban_name`, if there is one.
    pub fn get_kanban(&self, kanban_name: &str) -> (board: Option<&Kanban>)
        ensures
            match board {
                Some(found) => self@.contains_key(kanban_name@) && found@ == self@[kanban_name@]
                    && found.stages() == self.stages(kanban_name@),
                None => !self@.contains_key(kanban_name@),
            },
    {
        self.0.get(kanban_name)
    }
}

} // verus!
