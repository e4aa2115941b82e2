use vstd::prelude::*;

use crate::food::{is_parsed_food, parsed_food, Food};
use crate::kanban::{is_kanbans_files, BoardView, Kanbans};
use crate::name_map::NameMap;
use crate::task::{is_parsed_tasks, is_tasks_files, Tasks};
use crate::WorldResult;

verus! {

/// The jobs of a vault. Nothing is read of them yet.
pub struct Jobs {}

impl Jobs {
    /// Reads the jobs, whatever the documents hold.
    pub fn new(raw_jobs: NameMap<String>) -> (jobs: WorldResult<Jobs>)
        ensures
            jobs is Ok,
    {
        Ok(Jobs {  })
    }

    /// There is nothing to write for the jobs.
    pub fn render(&self) -> (done: WorldResult<()>)
        ensures
            done is Ok,
    {
        Ok(())
    }
}

/// All that a vault holds, and the boards derived from it.
pub struct World {
    pub jobs: Jobs,
    pub food: Food,
    pub tasks: Tasks,
    pub kanbans: Kanbans,
}

/// The files that a world is written to.
pub struct Rendered {
    /// The files of the tasks, for the directory of the tasks.
    pub tasks: Vec<(String, String)>,
    /// The files of the boards.
    pub kanbans: Vec<(String, String)>,
}

impl World {
    /// Reads a vault from the documents of its three directories: first
    /// the food, then the tasks; the first failure ends the reading. A new
    /// world has no boards.
    pub fn new(
        raw_jobs: NameMap<String>,
        raw_food: NameMap<String>,
        raw_tasks: NameMap<String>,
    ) -> (world: WorldResult<World>)
        requires
            raw_food@.contains_key("diches.md"@),
            raw_food@.contains_key("week_dich_shedule.md"@),
        ensures
            match world {
                Ok(found) => is_parsed_food(raw_food@, Ok(found.food)) && is_parsed_tasks(
                    raw_tasks,
                    Ok(found.tasks),
                ) && found.kanbans@ == Map::<Seq<char>, BoardView>::empty(),
                Err(error) => is_parsed_food(raw_food@, Err(error)) || (parsed_food(
                    raw_food@["diches.md"@]@,
                    raw_food@["week_dich_shedule.md"@]@,
                ) is Ok && is_parsed_tasks(raw_tasks, Err(error))),
            },
    {
        let ghost food_files = raw_food@;
        let jobs = match Jobs::new(raw_jobs) {
            Ok(jobs) => jobs,
            Err(error) => {
                return Err(error);
            },
        };
        let food = match Food::new(raw_food) {
            Ok(food) => food,
            Err(error) => {
                return Err(error);
            },
        };
        let tasks = match Tasks::new(raw_tasks) {
            Ok(tasks) => tasks,
            Err(error) => {
                return Err(error);
            },
        };
        Ok(World { jobs, food, tasks, kanbans: Kanbans::new() })
    }

    /// The files to write for this world: those of its tasks and those of
    /// its boards.
    pub fn render(&self) -> (rendered: WorldResult<Rendered>)
        ensures
            rendered matches Ok(files) && is_tasks_files(self.tasks, files.tasks@)
                && is_kanbans_files(self.kanbans, files.kanbans@),
    {
        match self.food.render() {
            Ok(_) => {},
            Err(error) => {
                return Err(error);
            },
        }
        let tasks = self.tasks.render();
        match self.jobs.render() {
            Ok(_) => {},
            Err(error) => {
                return Err(error);
            },
        }
        let kanbans = self.kanbans.render();
        Ok(Rendered { tasks, kanbans })
    }
}

} // verus!
