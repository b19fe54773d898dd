//! Task use-cases and their service. Mutating use-cases follow the
//! fetch-then-mutate protocol; the partial update additionally fails fast
//! with invalid-arguments when neither field is supplied, before any store
//! access, and fills omitted fields from the fetched current value. The
//! service is pure aggregation over the task use-cases.
use vstd::prelude::*;
use crate::domain::{Status, Task};
use crate::error::Error;
use crate::repo::{Repo, TaskRepo};
use crate::store::{
    Store,
    has_story,
    find_task,
    has_task,
    story_tasks,
    without_task,
    with_task_updated,
    updated_task,
};

verus! {

/// The merged value of a partially supplied field: what was supplied, or the
/// current value when omitted.
pub open spec fn merged<T>(supplied: Option<T>, current: T) -> T {
    match supplied {
        Some(v) => v,
        None => current,
    }
}

/// Creates tasks under an existing story.
pub struct CreateTask {
    pub story_repo: Repo,
    pub task_repo: TaskRepo,
}

impl CreateTask {
    /// Create a task if its story exists: fetch the story first, insert only
    /// on success; a missing story short-circuits to not-found with no
    /// mutation. A created task starts incomplete, and its id is fresh.
    pub fn execute(&self, db: &mut Store, story_id: i32, name: String) -> (r: Result<Task, Error>)
        requires
            old(db).wf(),
            old(db).next_task_id < i32::MAX,
        ensures
            final(db).wf(),
            has_story(old(db).stories@, story_id) ==> (r matches Ok(t) && ({
                &&& t.id == old(db).next_task_id
                &&& t.story_id == story_id
                &&& t.name == name
                &&& t.status == Status::Incomplete
                &&& t.created_at == old(db).clock
                &&& t.updated_at == old(db).clock
                &&& final(db).tasks@ == old(db).tasks@.push(t)
                &&& final(db).stories@ == old(db).stories@
                &&& final(db).next_task_id == old(db).next_task_id + 1
                &&& final(db).next_story_id == old(db).next_story_id
                &&& final(db).next_seqno == old(db).next_seqno
                &&& final(db).clock == old(db).clock
            })),
            !has_story(old(db).stories@, story_id) ==> (r matches Err(e) && e is NotFound
                && *final(db) == *old(db)),
            r matches Ok(t) ==> forall|k: int|
                0 <= k < old(db).tasks@.len() ==> (#[trigger] old(db).tasks@[k]).id != t.id,
    {
        match self.story_repo.fetch_story(db, story_id) {
            Err(e) => Err(e),
            Ok(_) => self.task_repo.create(db, story_id, name),
        }
    }
}

/// Deletes tasks.
pub struct DeleteTask {
    pub task_repo: TaskRepo,
}

impl DeleteTask {
    /// Delete a task if it exists: fetch first, delete only on success; a
    /// missing task short-circuits to not-found with no mutation.
    pub fn execute(&self, db: &mut Store, id: i32) -> (r: Result<(), Error>)
        requires
            old(db).wf(),
        ensures
            final(db).wf(),
            final(db).stories@ == old(db).stories@,
            final(db).next_story_id == old(db).next_story_id,
            final(db).next_seqno == old(db).next_seqno,
            final(db).next_task_id == old(db).next_task_id,
            final(db).clock == old(db).clock,
            has_task(old(db).tasks@, id) ==> (r is Ok && final(db).tasks@ == without_task(
                old(db).tasks@,
                id,
            )),
            !has_task(old(db).tasks@, id) ==> (r matches Err(e) && e is NotFound && *final(db)
                == *old(db)),
    {
        match self.task_repo.fetch(db, id) {
            Err(e) => Err(e),
            Ok(_) => {
                match self.task_repo.delete(db, id) {
                    Err(e) => Err(e),
                    Ok(_) => Ok(()),
                }
            },
        }
    }
}

/// Gets one task.
pub struct GetTask {
    pub task_repo: TaskRepo,
}

impl GetTask {
    /// Get a task by id; not-found when it does not exist.
    pub fn execute(&self, db: &Store, id: i32) -> (r: Result<Task, Error>)
        ensures
            has_task(db.tasks@, id) ==> (r matches Ok(t) && find_task(db.tasks@, id) == Some(t)),
            !has_task(db.tasks@, id) ==> (r matches Err(e) && e is NotFound),
    {
        self.task_repo.fetch(db, id)
    }
}

/// Gets the tasks of a story.
pub struct GetTasks {
    pub story_repo: Repo,
    pub task_repo: TaskRepo,
}

impl GetTasks {
    /// Get all tasks of a story if it exists: fetch the story first, list
    /// only on success; a missing story short-circuits to not-found.
    pub fn execute(&self, db: &Store, story_id: i32) -> (r: Result<Vec<Task>, Error>)
        ensures
            has_story(db.stories@, story_id) ==> (r matches Ok(v) && v@ == story_tasks(
                db.tasks@,
                story_id,
                1000,
            )),
            !has_story(db.stories@, story_id) ==> (r matches Err(e) && e is NotFound),
    {
        match self.story_repo.fetch_story(db, story_id) {
            Err(e) => Err(e),
            Ok(_) => self.task_repo.list(db, story_id),
        }
    }
}

/// Updates tasks partially: name and/or status.
pub struct UpdateTask {
    pub task_repo: TaskRepo,
}

impl UpdateTask {
    /// Create the update-task use-case.
    pub fn new(task_repo: TaskRepo) -> (r: UpdateTask)
        ensures
            r.task_repo == task_repo,
    {
        UpdateTask { task_repo }
    }

    /// Update a task if it exists. At least one field must be supplied:
    /// supplying neither fails fast with invalid-arguments before any store
    /// access. Otherwise fetch first; a missing task short-circuits to
    /// not-found with no mutation, and an omitted field is filled from the
    /// fetched current value before the merged record is persisted.
    pub fn execute(
        &self,
        db: &mut Store,
        id: i32,
        name_opt: Option<String>,
        status_opt: Option<Status>,
    ) -> (r: Result<Task, Error>)
        requires
            old(db).wf(),
        ensures
            final(db).wf(),
            final(db).stories@ == old(db).stories@,
            final(db).next_story_id == old(db).next_story_id,
            final(db).next_seqno == old(db).next_seqno,
            final(db).next_task_id == old(db).next_task_id,
            final(db).clock == old(db).clock,
            name_opt is None && status_opt is None ==> (r matches Err(e) && e is InvalidArgs
                && *final(db) == *old(db)),
            (name_opt is Some || status_opt is Some) && !has_task(old(db).tasks@, id) ==> (
            r matches Err(e) && e is NotFound && *final(db) == *old(db)),
            (name_opt is Some || status_opt is Some) && has_task(old(db).tasks@, id) ==> (
            r matches Ok(t) && ({
                let prev = find_task(old(db).tasks@, id).unwrap();
                let new_name = merged(name_opt, prev.name);
                let new_status = merged(status_opt, prev.status);
                &&& t == updated_task(prev, new_name, new_status, old(db).clock)
                &&& final(db).tasks@ == with_task_updated(
                    old(db).tasks@,
                    id,
                    new_name,
                    new_status,
                    old(db).clock,
                )
            })),
    {
        if name_opt.is_none() && status_opt.is_none() {
            return Err(Error::invalid_args("no task updates provided"));
        }
        let prev = match self.task_repo.fetch(db, id) {
            Err(e) => { return Err(e) },
            Ok(t) => t,
        };
        let name = match name_opt {
            Some(n) => n,
            None => prev.name.clone(),
        };
        let status = match status_opt {
            Some(s) => s,
            None => prev.status,
        };
        self.task_repo.update(db, id, name, status)
    }
}

/// Aggregates the task use-cases into a unified, entity-oriented API.
pub struct TaskService {
    pub create_task: CreateTask,
    pub delete_task: DeleteTask,
    pub get_task: GetTask,
    pub get_tasks: GetTasks,
    pub update_task: UpdateTask,
}

impl TaskService {
    /// Create a new task service over the two repository handles.
    pub fn new(story_repo: Repo, task_repo: TaskRepo) -> (r: TaskService)
        ensures
            r.create_task.story_repo == story_repo,
            r.create_task.task_repo == task_repo,
            r.delete_task.task_repo == task_repo,
            r.get_task.task_repo == task_repo,
            r.get_tasks.story_repo == story_repo,
            r.get_tasks.task_repo == task_repo,
            r.update_task.task_repo == task_repo,
    {
        TaskService {
            create_task: CreateTask { story_repo, task_repo },
            delete_task: DeleteTask { task_repo },
            get_task: GetTask { task_repo },
            get_tasks: GetTasks { story_repo, task_repo },
            update_task: UpdateTask::new(task_repo),
        }
    }

    /// Create a task under a story.
    pub fn create(&self, db: &mut Store, story_id: i32, name: String) -> (r: Result<Task, Error>)
        requires
            old(db).wf(),
            old(db).next_task_id < i32::MAX,
        ensures
            final(db).wf(),
            has_story(old(db).stories@, story_id) ==> (r matches Ok(t) && ({
                &&& t.id == old(db).next_task_id
                &&& t.story_id == story_id
                &&& t.name == name
                &&& t.status == Status::Incomplete
                &&& t.created_at == old(db).clock
                &&& t.updated_at == old(db).clock
                &&& final(db).tasks@ == old(db).tasks@.push(t)
                &&& final(db).stories@ == old(db).stories@
                &&& final(db).next_task_id == old(db).next_task_id + 1
                &&& final(db).next_story_id == old(db).next_story_id
                &&& final(db).next_seqno == old(db).next_seqno
                &&& final(db).clock == old(db).clock
            })),
            !has_story(old(db).stories@, story_id) ==> (r matches Err(e) && e is NotFound
                && *final(db) == *old(db)),
            r matches Ok(t) ==> forall|k: int|
                0 <= k < old(db).tasks@.len() ==> (#[trigger] old(db).tasks@[k]).id != t.id,
    {
        self.create_task.execute(db, story_id, name)
    }

    /// Delete a task.
    pub fn delete(&self, db: &mut Store, id: i32) -> (r: Result<(), Error>)
        requires
            old(db).wf(),
        ensures
            final(db).wf(),
            final(db).stories@ == old(db).stories@,
            final(db).next_story_id == old(db).next_story_id,
            final(db).next_seqno == old(db).next_seqno,
            final(db).next_task_id == old(db).next_task_id,
            final(db).clock == old(db).clock,
            has_task(old(db).tasks@, id) ==> (r is Ok && final(db).tasks@ == without_task(
                old(db).tasks@,
                id,
            )),
            !has_task(old(db).tasks@, id) ==> (r matches Err(e) && e is NotFound && *final(db)
                == *old(db)),
    {
        self.delete_task.execute(db, id)
    }

    /// Get a task.
    pub fn get(&self, db: &Store, id: i32) -> (r: Result<Task, Error>)
        ensures
            has_task(db.tasks@, id) ==> (r matches Ok(t) && find_task(db.tasks@, id) == Some(t)),
            !has_task(db.tasks@, id) ==> (r matches Err(e) && e is NotFound),
    {
        self.get_task.execute(db, id)
    }

    /// Get the tasks of a story.
    pub fn list(&self, db: &Store, story_id: i32) -> (r: Result<Vec<Task>, Error>)
        ensures
            has_story(db.stories@, story_id) ==> (r matches Ok(v) && v@ == story_tasks(
                db.tasks@,
                story_id,
                1000,
            )),
            !has_story(db.stories@, story_id) ==> (r matches Err(e) && e is NotFound),
    {
        self.get_tasks.execute(db, story_id)
    }

    /// Update a task's name and/or status.
    pub fn update(
        &self,
        db: &mut Store,
        id: i32,
        name_opt: Option<String>,
        status_opt: Option<Status>,
    ) -> (r: Result<Task, Error>)
        requires
            old(db).wf(),
        ensures
            final(db).wf(),
            final(db).stories@ == old(db).stories@,
            final(db).next_story_id == old(db).next_story_id,
            final(db).next_seqno == old(db).next_seqno,
            final(db).next_task_id == old(db).next_task_id,
            final(db).clock == old(db).clock,
            name_opt is None && status_opt is None ==> (r matches Err(e) && e is InvalidArgs
                && *final(db) == *old(db)),
            (name_opt is Some || status_opt is Some) && !has_task(old(db).tasks@, id) ==> (
            r matches Err(e) && e is NotFound && *final(db) == *old(db)),
            (name_opt is Some || status_opt is Some) && has_task(old(db).tasks@, id) ==> (
            r matches Ok(t) && ({
                let prev = find_task(old(db).tasks@, id).unwrap();
                let new_name = merged(name_opt, prev.name);
                let new_status = merged(status_opt, prev.status);
                &&& t == updated_task(prev, new_name, new_status, old(db).clock)
                &&& final(db).tasks@ == with_task_updated(
                    old(db).tasks@,
                    id,
                    new_name,
                    new_status,
                    old(db).clock,
                )
            })),
    {
        self.update_task.execute(db, id, name_opt, status_opt)
    }
}

} // verus!
