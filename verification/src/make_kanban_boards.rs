use vstd::prelude::*;

use crate::kanban::{boards_with_task, with_name, BoardView, Kanbans};
use crate::task::{KanbanModel, Tasks};
use crate::world::World;

verus! {

/// A task's name with its place on the boards, if it has one.
pub type Placement = (Seq<char>, Option<KanbanModel>);

/// The tasks of `tasks` with their places, in the order of the tasks.
pub open spec fn placements(tasks: Tasks) -> Seq<Placement> {
    Seq::new(
        tasks.tasks.keys().len(),
        |i: int| (tasks.tasks.keys()[i], tasks.tasks@[tasks.tasks.keys()[i]]@.kanban),
    )
}

/// The boards that `placed` fill: each task that has a place is added, in
/// order, at the end of its stage on its board. A task without a place is
/// added nowhere.
pub open spec fn boards_of(placed: Seq<Placement>) -> Map<Seq<char>, BoardView>
    decreases placed.len(),
{
    if placed.len() == 0 {
        Map::empty()
    } else {
        let rest = boards_of(placed.drop_last());
        match placed.last().1 {
            Some(place) => boards_with_task(rest, place.board, place.stage, placed.last().0),
            None => rest,
        }
    }
}

/// The names of the boards that `placed` fill, in the order of their
/// first use.
pub open spec fn board_order(placed: Seq<Placement>) -> Seq<Seq<char>>
    decreases placed.len(),
{
    if placed.len() == 0 {
        Seq::empty()
    } else {
        let rest = board_order(placed.drop_last());
        match placed.last().1 {
            Some(place) => with_name(rest, place.board),
            None => rest,
        }
    }
}

/// The stages of the board `board` that `placed` fill, in the order of
/// their first use.
pub open spec fn stage_order(placed: Seq<Placement>, board: Seq<char>) -> Seq<Seq<char>>
    decreases placed.len(),
{
    if placed.len() == 0 {
        Seq::empty()
    } else {
        let rest = stage_order(placed.drop_last(), board);
        match placed.last().1 {
            Some(place) => if place.board == board {
                with_name(rest, place.stage)
            } else {
                rest
            },
            None => rest,
        }
    }
}

/// Whether `task` stands in `stage` of `board` on `boards`.
pub open spec fn is_on_board(
    boards: Map<Seq<char>, BoardView>,
    board: Seq<char>,
    stage: Seq<char>,
    task: Seq<char>,
) -> bool {
    &&& boards.contains_key(board)
    &&& boards[board].contains_key(stage)
    &&& boards[board][stage].contains(task)
}

/// A task stands on a board exactly where one of the tasks of that name
/// has its place there. So a task without a place stands on no board.
pub proof fn lemma_boards_hold_the_placed(
    placed: Seq<Placement>,
    board: Seq<char>,
    stage: Seq<char>,
    task: Seq<char>,
)
    ensures
        is_on_board(boards_of(placed), board, stage, task) <==> exists|i: int|
            0 <= i < placed.len() && #[trigger] placed[i] == (
                task,
                Some(KanbanModel { stage, board }),
            ),
    decreases placed.len(),
{
    let wanted = (task, Some(KanbanModel { stage, board }));
    if placed.len() > 0 {
        let front = placed.drop_last();
        let rest = boards_of(front);
        lemma_boards_hold_the_placed(front, board, stage, task);
        if exists|i: int| 0 <= i < front.len() && #[trigger] front[i] == wanted {
            let i = choose|i: int| 0 <= i < front.len() && #[trigger] front[i] == wanted;
            assert(placed[i] == wanted);
        }
        if exists|i: int| 0 <= i < placed.len() && #[trigger] placed[i] == wanted {
            let i = choose|i: int| 0 <= i < placed.len() && #[trigger] placed[i] == wanted;
            if i < front.len() {
                assert(front[i] == wanted);
            }
        }
        match placed.last().1 {
            Some(place) => {
                let name = placed.last().0;
                let former = if rest.contains_key(place.board) {
                    rest[place.board]
                } else {
                    Map::empty()
                };
                let tasks = if former.contains_key(place.stage) {
                    former[place.stage]
                } else {
                    Seq::empty()
                };
                if place.board == board && place.stage == stage {
                    let now = tasks.push(name);
                    assert(boards_of(placed)[board][stage] == now);
                    if name == task {
                        assert(now[tasks.len() as int] == task);
                        assert(placed[placed.len() - 1] == wanted);
                    } else {
                        if now.contains(task) {
                            let k = now.index_of(task);
                            assert(tasks[k] == task);
                        }
                        if tasks.contains(task) {
                            let k = tasks.index_of(task);
                            assert(now[k] == task);
                        }
                    }
                }
            },
            None => {},
        }
    }
}

/// Puts each task that has a place on its board.
pub fn inner_make_kanban_boards(task: &Tasks) -> (kanbans: Kanbans)
    ensures
        kanbans@ == boards_of(placements(*task)),
        kanbans.boards() == board_order(placements(*task)),
        forall|board: Seq<char>| #[trigger]
            kanbans.stages(board) == stage_order(placements(*task), board),
{
    let mut kanbans = Kanbans::new();
    let n = task.tasks.len();
    let ghost placed = placements(*task);
    let mut i: usize = 0;
    proof {
        assert forall|board: Seq<char>| #[trigger]
            kanbans.stages(board) == stage_order(placed.take(0), board) by {
            kanbans.lemma_stages_of_missing_board(board);
        }
    }
    while i < n
        invariant
            i <= n,
            n == placed.len(),
            placed == placements(*task),
            kanbans@ == boards_of(placed.take(i as int)),
            kanbans.boards() == board_order(placed.take(i as int)),
            forall|board: Seq<char>| #[trigger]
                kanbans.stages(board) == stage_order(placed.take(i as int), board),
        decreases n - i,
    {
        let name = task.tasks.key_at(i);
        let found = task.tasks.value_at(i);
        proof {
            assert(placed.take(i + 1).drop_last() =~= placed.take(i as int));
            assert(placed.take(i + 1).last() == placed[i as int]);
        }
        if let Some(kanban) = &found.kanban {
            kanbans.add_task(kanban.board.clone(), kanban.stage.clone(), name.clone());
        }
        i += 1;
    }
    proof {
        assert(placed.take(n as int) =~= placed);
    }
    kanbans
}

/// Derives the boards of `world` from its tasks. The tasks, the food and
/// the jobs stay as they are.
pub fn make_kanban_boards(world: &mut World)
    ensures
        final(world).kanbans@ == boards_of(placements(old(world).tasks)),
        final(world).kanbans.boards() == board_order(placements(old(world).tasks)),
        forall|board: Seq<char>| #[trigger]
            final(world).kanbans.stages(board) == stage_order(placements(old(world).tasks), board),
        final(world).tasks == old(world).tasks,
        final(world).food == old(world).food,
        final(world).jobs == old(world).jobs,
{
    let kanbans = inner_make_kanban_boards(&world.tasks);
    world.kanbans = kanbans;
}

} // verus!
