//! The repository layer: sole owner of store access. Every method maps to
//! exactly one logical store operation — a point lookup, a page select, an
//! insert, an update, a delete — except `delete_story`, which spans two
//! delete statements that take effect atomically, so no orphaned task ever
//! persists.
use vstd::prelude::*;
use crate::domain::{Status, Story, Task};
use crate::error::Error;
use crate::store::{
    Store,
    find_story,
    has_story,
    find_task,
    has_task,
    story_page,
    story_tasks,
    without_story,
    without_story_tasks,
    without_task,
    with_story_renamed,
    with_task_updated,
    renamed_story,
    updated_task,
    lemma_find_story_absent,
    lemma_find_story_at,
    lemma_find_story_spec,
    lemma_find_task_absent,
    lemma_find_task_at,
    lemma_find_task_spec,
    lemma_find_story_push,
    lemma_without_story_keeps_others,
};

verus! {

/// Story-side repository: a handle for issuing story statements against the
/// store handed to each call.
#[derive(Clone, Copy, Debug)]
pub struct Repo;

impl Repo {
    /// Create a story repository handle.
    pub fn new() -> Repo {
        Repo
    }

    /// Select a story by id; not-found when no row matches.
    pub fn fetch_story(&self, db: &Store, id: i32) -> (r: Result<Story, Error>)
        ensures
            has_story(db.stories@, id) ==> (r matches Ok(s) && find_story(db.stories@, id)
                == Some(s)),
            !has_story(db.stories@, id) ==> (r matches Err(e) && e is NotFound),
    {
        let n = db.stories.len();
        let mut i: usize = 0;
        while i < n
            invariant
                n == db.stories@.len(),
                0 <= i <= n,
                forall|k: int| 0 <= k < i ==> (#[trigger] db.stories@[k]).id != id,
            decreases n - i,
        {
            if db.stories[i].id == id {
                proof {
                    lemma_find_story_at(db.stories@, id, i as int);
                }
                return Ok(db.stories[i].clone());
            }
            i = i + 1;
        }
        proof {
            lemma_find_story_absent(db.stories@, id);
        }
        Err(Error::not_found("story not found"))
    }

    /// Check whether a story exists. Against the real store this probe is
    /// best-effort — a store error reads as absence; the model has no store
    /// errors, so it is exact here.
    pub fn story_exists(&self, db: &Store, id: i32) -> (r: bool)
        ensures
            r == has_story(db.stories@, id),
    {
        let n = db.stories.len();
        let mut i: usize = 0;
        while i < n
            invariant
                n == db.stories@.len(),
                0 <= i <= n,
                forall|k: int| 0 <= k < i ==> (#[trigger] db.stories@[k]).id != id,
            decreases n - i,
        {
            if db.stories[i].id == id {
                proof {
                    lemma_find_story_at(db.stories@, id, i as int);
                }
                return true;
            }
            i = i + 1;
        }
        proof {
            lemma_find_story_absent(db.stories@, id);
        }
        false
    }

    /// Select a page of stories: ordering key at most the cursor, newest
    /// first, at most `page_size` rows.
    pub fn list_stories(&self, db: &Store, cursor: i32, page_size: i32) -> (r: Result<
        Vec<Story>,
        Error,
    >)
        requires
            0 <= page_size,
        ensures
            r matches Ok(v) && v@ == story_page(db.stories@, cursor, page_size as int),
    {
        let ghost whole = story_page(db.stories@, cursor, page_size as int);
        let n = page_size as usize;
        let mut page: Vec<Story> = Vec::new();
        let mut i: usize = db.stories.len();
        proof {
            assert(db.stories@.take(i as int) =~= db.stories@);
            assert(page@ + story_page(db.stories@.take(i as int), cursor, page_size as int)
                =~= story_page(db.stories@.take(i as int), cursor, page_size as int));
        }
        while i > 0 && page.len() < n
            invariant
                0 <= i <= db.stories@.len(),
                n == page_size,
                page@.len() <= n,
                whole == story_page(db.stories@, cursor, page_size as int),
                whole == page@ + story_page(
                    db.stories@.take(i as int),
                    cursor,
                    page_size - page@.len(),
                ),
            decreases i,
        {
            let ghost pre = db.stories@.take(i as int);
            let ghost m = page_size - page@.len();
            proof {
                assert(pre.drop_last() =~= db.stories@.take(i as int - 1));
                assert(pre.last() == db.stories@[i as int - 1]);
            }
            let s = &db.stories[i - 1];
            if s.seqno <= cursor {
                let ghost before = page@;
                page.push(s.clone());
                proof {
                    assert(before + (seq![pre.last()] + story_page(
                        pre.drop_last(),
                        cursor,
                        m - 1,
                    )) =~= page@ + story_page(pre.drop_last(), cursor, m - 1));
                }
            }
            i = i - 1;
        }
        proof {
            if i == 0 {
                assert(db.stories@.take(0) =~= Seq::<Story>::empty());
            }
            assert(story_page(
                db.stories@.take(i as int),
                cursor,
                page_size - page@.len(),
            ) =~= Seq::<Story>::empty());
            assert(page@ + Seq::<Story>::empty() =~= page@);
        }
        Ok(page)
    }

    /// Insert a new story; the store assigns its id, ordering key, and
    /// timestamps. The new id is fresh: no prior story bears it.
    pub fn create_story(&self, db: &mut Store, name: String) -> (r: Result<Story, Error>)
        requires
            old(db).wf(),
            old(db).next_story_id < i32::MAX,
            old(db).next_seqno < i32::MAX,
        ensures
            final(db).wf(),
            r matches Ok(s) && ({
                &&& s.id == old(db).next_story_id
                &&& s.seqno == old(db).next_seqno
                &&& s.name == name
                &&& s.created_at == old(db).clock
                &&& s.updated_at == old(db).clock
                &&& final(db).stories@ == old(db).stories@.push(s)
                &&& final(db).tasks@ == old(db).tasks@
                &&& final(db).next_story_id == old(db).next_story_id + 1
                &&& final(db).next_seqno == old(db).next_seqno + 1
                &&& final(db).next_task_id == old(db).next_task_id
                &&& final(db).clock == old(db).clock
            }),
            r matches Ok(s) ==> forall|k: int|
                0 <= k < old(db).stories@.len() ==> (#[trigger] old(db).stories@[k]).id != s.id,
    {
        let story = Story {
            id: db.next_story_id,
            name,
            seqno: db.next_seqno,
            created_at: db.clock,
            updated_at: db.clock,
        };
        let returned = story.clone();
        db.stories.push(story);
        db.next_story_id = db.next_story_id + 1;
        db.next_seqno = db.next_seqno + 1;
        proof {
            let ss = old(db).stories@;
            let s = db.stories@.last();
            assert(db.stories@ == ss.push(s));
            assert forall|k: int|
                0 <= k < db.tasks@.len() implies has_story(
                db.stories@,
                (#[trigger] db.tasks@[k]).story_id,
            ) by {
                lemma_find_story_push(ss, s, db.tasks@[k].story_id);
            }
        }
        Ok(returned)
    }

    /// Overwrite a story's name by id; not-found (zero rows affected) when no
    /// row matches, leaving the store unchanged.
    pub fn update_story(&self, db: &mut Store, id: i32, name: String) -> (r: Result<Story, Error>)
        requires
            old(db).wf(),
        ensures
            final(db).wf(),
            final(db).tasks@ == old(db).tasks@,
            final(db).next_story_id == old(db).next_story_id,
            final(db).next_seqno == old(db).next_seqno,
            final(db).next_task_id == old(db).next_task_id,
            final(db).clock == old(db).clock,
            has_story(old(db).stories@, id) ==> (r matches Ok(s) && s == renamed_story(
                find_story(old(db).stories@, id).unwrap(),
                name,
                old(db).clock,
            ) && final(db).stories@ == with_story_renamed(
                old(db).stories@,
                id,
                name,
                old(db).clock,
            )),
            !has_story(old(db).stories@, id) ==> (r matches Err(e) && e is NotFound && final(db).stories@ == old(db).stories@),
    {
        let ghost target = with_story_renamed(old(db).stories@, id, name, old(db).clock);
        let n = db.stories.len();
        let mut updated: Vec<Story> = Vec::new();
        let mut result: Option<Story> = None;
        let mut i: usize = 0;
        while i < n
            invariant
                n == db.stories@.len(),
                0 <= i <= n,
                *db == *old(db),
                target == with_story_renamed(old(db).stories@, id, name, old(db).clock),
                updated@.len() == i,
                forall|k: int| 0 <= k < i ==> updated@[k] == target[k],
                result is None ==> forall|k: int|
                    0 <= k < i ==> (#[trigger] db.stories@[k]).id != id,
                result matches Some(u) ==> has_story(db.stories@, id) && u == renamed_story(
                    find_story(db.stories@, id).unwrap(),
                    name,
                    db.clock,
                ),
            decreases n - i,
        {
            let s = &db.stories[i];
            if s.id == id {
                let u = Story {
                    id: s.id,
                    name: name.clone(),
                    seqno: s.seqno,
                    created_at: s.created_at,
                    updated_at: db.clock,
                };
                if result.is_none() {
                    proof {
                        lemma_find_story_at(db.stories@, id, i as int);
                    }
                    result = Some(u.clone());
                }
                updated.push(u);
            } else {
                updated.push(s.clone());
            }
            proof {
                assert(updated@[i as int] == target[i as int]);
            }
            i = i + 1;
        }
        match result {
            Some(u) => {
                db.stories = updated;
                proof {
                    assert(db.stories@ =~= target);
                    assert forall|a: int|
                        0 <= a < db.stories@.len() implies (#[trigger] db.stories@[a]).id == old(db).stories@[a].id && db.stories@[a].seqno == old(db).stories@[a].seqno by {}
                    assert forall|k: int|
                        0 <= k < db.tasks@.len() implies has_story(
                        db.stories@,
                        (#[trigger] db.tasks@[k]).story_id,
                    ) by {
                        let sid = db.tasks@[k].story_id;
                        lemma_find_story_spec(old(db).stories@, sid);
                        lemma_find_story_spec(db.stories@, sid);
                        let j = choose|j: int|
                            0 <= j < old(db).stories@.len() && (#[trigger] old(db).stories@[j]).id == sid;
                        assert(db.stories@[j].id == sid);
                    }
                }
                Ok(u)
            },
            None => {
                proof {
                    lemma_find_story_absent(db.stories@, id);
                }
                Err(Error::not_found("story not found"))
            },
        }
    }

    /// Delete a story and all its tasks: two delete statements inside one
    /// transaction, committed only together, so no orphaned task ever
    /// persists. Returns the number of story rows deleted.
    pub fn delete_story(&self, db: &mut Store, id: i32) -> (r: Result<u64, Error>)
        requires
            old(db).wf(),
        ensures
            final(db).wf(),
            final(db).stories@ == without_story(old(db).stories@, id),
            final(db).tasks@ == without_story_tasks(old(db).tasks@, id),
            final(db).next_story_id == old(db).next_story_id,
            final(db).next_seqno == old(db).next_seqno,
            final(db).next_task_id == old(db).next_task_id,
            final(db).clock == old(db).clock,
            r matches Ok(n) && n == (if has_story(old(db).stories@, id) {
                1u64
            } else {
                0u64
            }),
    {
        let ghost ts0 = db.tasks@;
        let ghost ss0 = db.stories@;
        // First statement of the transaction: delete the story's tasks.
        let tn = db.tasks.len();
        let mut kept_tasks: Vec<Task> = Vec::new();
        let mut i: usize = 0;
        proof {
            assert(ts0.skip(0) =~= ts0);
            assert(kept_tasks@ + without_story_tasks(ts0, id) =~= without_story_tasks(ts0, id));
        }
        while i < tn
            invariant
                *db == *old(db),
                ts0 == db.tasks@,
                old(db).wf(),
                tn == ts0.len(),
                0 <= i <= tn,
                without_story_tasks(ts0, id) == kept_tasks@ + without_story_tasks(
                    ts0.skip(i as int),
                    id,
                ),
                forall|k: int|
                    0 <= k < kept_tasks@.len() ==> exists|j: int|
                        0 <= j < i && #[trigger] kept_tasks@[k] == ts0[j],
                forall|a: int, b: int|
                    0 <= a < b < kept_tasks@.len() ==> (#[trigger] kept_tasks@[a]).id < (
                    #[trigger] kept_tasks@[b]).id,
            decreases tn - i,
        {
            proof {
                assert(ts0.skip(i as int)[0] == ts0[i as int]);
                assert(ts0.skip(i as int).skip(1) =~= ts0.skip(i as int + 1));
            }
            let t = &db.tasks[i];
            if t.story_id != id {
                let ghost before = kept_tasks@;
                kept_tasks.push(t.clone());
                proof {
                    assert(before + (seq![ts0[i as int]] + without_story_tasks(
                        ts0.skip(i as int + 1),
                        id,
                    )) =~= kept_tasks@ + without_story_tasks(ts0.skip(i as int + 1), id));
                    assert forall|a: int, b: int|
                        0 <= a < b < kept_tasks@.len() implies (#[trigger] kept_tasks@[a]).id < (
                    #[trigger] kept_tasks@[b]).id by {
                        if b == kept_tasks@.len() - 1 {
                            let j = choose|j: int|
                                0 <= j < i && #[trigger] before[a] == ts0[j];
                            assert(ts0[j].id < ts0[i as int].id);
                        }
                    }
                }
            }
            i = i + 1;
        }
        proof {
            assert(ts0.skip(tn as int) =~= Seq::<Task>::empty());
            assert(kept_tasks@ + Seq::<Task>::empty() =~= kept_tasks@);
        }
        // Second statement of the transaction: delete the story row itself.
        let sn = db.stories.len();
        let mut kept_stories: Vec<Story> = Vec::new();
        let mut found = false;
        let mut j: usize = 0;
        proof {
            assert(ss0.skip(0) =~= ss0);
            assert(kept_stories@ + without_story(ss0, id) =~= without_story(ss0, id));
        }
        while j < sn
            invariant
                *db == *old(db),
                ss0 == db.stories@,
                old(db).wf(),
                sn == ss0.len(),
                0 <= j <= sn,
                without_story(ss0, id) == kept_stories@ + without_story(ss0.skip(j as int), id),
                forall|k: int|
                    0 <= k < kept_stories@.len() ==> exists|m: int|
                        0 <= m < j && #[trigger] kept_stories@[k] == ss0[m],
                forall|a: int, b: int|
                    0 <= a < b < kept_stories@.len() ==> (#[trigger] kept_stories@[a]).seqno < (
                    #[trigger] kept_stories@[b]).seqno && kept_stories@[a].id
                        != kept_stories@[b].id,
                found <==> exists|m: int| 0 <= m < j && (#[trigger] ss0[m]).id == id,
            decreases sn - j,
        {
            proof {
                assert(ss0.skip(j as int)[0] == ss0[j as int]);
                assert(ss0.skip(j as int).skip(1) =~= ss0.skip(j as int + 1));
            }
            let st = &db.stories[j];
            if st.id != id {
                let ghost before = kept_stories@;
                kept_stories.push(st.clone());
                proof {
                    assert(before + (seq![ss0[j as int]] + without_story(
                        ss0.skip(j as int + 1),
                        id,
                    )) =~= kept_stories@ + without_story(ss0.skip(j as int + 1), id));
                    assert forall|a: int, b: int|
                        0 <= a < b < kept_stories@.len() implies (
                    #[trigger] kept_stories@[a]).seqno < (#[trigger] kept_stories@[b]).seqno
                        && kept_stories@[a].id != kept_stories@[b].id by {
                        if b == kept_stories@.len() - 1 {
                            let m = choose|m: int|
                                0 <= m < j && #[trigger] before[a] == ss0[m];
                            assert(ss0[m].seqno < ss0[j as int].seqno);
                            assert(ss0[m].id != ss0[j as int].id);
                        }
                    }
                }
            } else {
                found = true;
            }
            j = j + 1;
        }
        proof {
            assert(ss0.skip(sn as int) =~= Seq::<Story>::empty());
            assert(kept_stories@ + Seq::<Story>::empty() =~= kept_stories@);
        }
        // Commit: both statements take effect together.
        db.tasks = kept_tasks;
        db.stories = kept_stories;
        proof {
            lemma_find_story_spec(ss0, id);
            crate::store::lemma_without_story_members(ss0, id);
            crate::store::lemma_without_story_tasks_members(ts0, id);
            assert forall|k: int|
                0 <= k < db.stories@.len() implies 0 < (#[trigger] db.stories@[k]).id
                < db.next_story_id && 0 < db.stories@[k].seqno < db.next_seqno by {
                let m = choose|m: int| 0 <= m < ss0.len() && db.stories@[k] == ss0[m];
                assert(0 < ss0[m].id < old(db).next_story_id);
            }
            assert forall|k: int|
                0 <= k < db.tasks@.len() implies 0 < (#[trigger] db.tasks@[k]).id
                < db.next_task_id by {
                let m = choose|m: int| 0 <= m < ts0.len() && db.tasks@[k] == ts0[m];
                assert(0 < ts0[m].id < old(db).next_task_id);
            }
            assert forall|k: int|
                0 <= k < db.tasks@.len() implies has_story(
                db.stories@,
                (#[trigger] db.tasks@[k]).story_id,
            ) by {
                let sid = db.tasks@[k].story_id;
                assert(sid != id);
                let m = choose|m: int| 0 <= m < ts0.len() && db.tasks@[k] == ts0[m];
                assert(has_story(ss0, ts0[m].story_id));
                lemma_without_story_keeps_others(ss0, id, sid);
            }
        }
        if found {
            Ok(1)
        } else {
            Ok(0)
        }
    }
}


/// Task-side repository: a handle for issuing task statements against the
/// store handed to each call.
#[derive(Clone, Copy, Debug)]
pub struct TaskRepo;

impl TaskRepo {
    /// Create a task repository handle.
    pub fn new() -> TaskRepo {
        TaskRepo
    }

    /// Get a task by id; not-found when no row matches.
    pub fn fetch(&self, db: &Store, id: i32) -> (r: Result<Task, Error>)
        ensures
            has_task(db.tasks@, id) ==> (r matches Ok(t) && find_task(db.tasks@, id) == Some(t)),
            !has_task(db.tasks@, id) ==> (r matches Err(e) && e is NotFound),
    {
        let n = db.tasks.len();
        let mut i: usize = 0;
        while i < n
            invariant
                n == db.tasks@.len(),
                0 <= i <= n,
                forall|k: int| 0 <= k < i ==> (#[trigger] db.tasks@[k]).id != id,
            decreases n - i,
        {
            if db.tasks[i].id == id {
                proof {
                    lemma_find_task_at(db.tasks@, id, i as int);
                }
                return Ok(db.tasks[i].clone());
            }
            i = i + 1;
        }
        proof {
            lemma_find_task_absent(db.tasks@, id);
        }
        Err(Error::not_found("task not found"))
    }

    /// Check whether a task exists. Best-effort against the real store; exact
    /// in the model, which has no store errors.
    pub fn task_exists(&self, db: &Store, id: i32) -> (r: bool)
        ensures
            r == has_task(db.tasks@, id),
    {
        let n = db.tasks.len();
        let mut i: usize = 0;
        while i < n
            invariant
                n == db.tasks@.len(),
                0 <= i <= n,
                forall|k: int| 0 <= k < i ==> (#[trigger] db.tasks@[k]).id != id,
            decreases n - i,
        {
            if db.tasks[i].id == id {
                proof {
                    lemma_find_task_at(db.tasks@, id, i as int);
                }
                return true;
            }
            i = i + 1;
        }
        proof {
            lemma_find_task_absent(db.tasks@, id);
        }
        false
    }

    /// Select the tasks of a story, in insertion order, capped at a thousand
    /// rows.
    pub fn list(&self, db: &Store, story_id: i32) -> (r: Result<Vec<Task>, Error>)
        ensures
            r matches Ok(v) && v@ == story_tasks(db.tasks@, story_id, 1000),
    {
        let ghost ts = db.tasks@;
        let n = db.tasks.len();
        let mut page: Vec<Task> = Vec::new();
        let mut i: usize = 0;
        proof {
            assert(ts.skip(0) =~= ts);
            assert(page@ + story_tasks(ts, story_id, 1000) =~= story_tasks(ts, story_id, 1000));
        }
        while i < n && page.len() < 1000
            invariant
                ts == db.tasks@,
                n == ts.len(),
                0 <= i <= n,
                page@.len() <= 1000,
                story_tasks(ts, story_id, 1000) == page@ + story_tasks(
                    ts.skip(i as int),
                    story_id,
                    1000 - page@.len(),
                ),
            decreases n - i,
        {
            proof {
                assert(ts.skip(i as int)[0] == ts[i as int]);
                assert(ts.skip(i as int).skip(1) =~= ts.skip(i as int + 1));
            }
            let t = &db.tasks[i];
            if t.story_id == story_id {
                let ghost before = page@;
                page.push(t.clone());
                proof {
                    assert(before + (seq![ts[i as int]] + story_tasks(
                        ts.skip(i as int + 1),
                        story_id,
                        1000 - before.len() - 1,
                    )) =~= page@ + story_tasks(
                        ts.skip(i as int + 1),
                        story_id,
                        1000 - page@.len(),
                    ));
                }
            }
            i = i + 1;
        }
        proof {
            if i == n {
                assert(ts.skip(n as int) =~= Seq::<Task>::empty());
            }
            assert(story_tasks(ts.skip(i as int), story_id, 1000 - page@.len()) =~= Seq::<
                Task,
            >::empty());
            assert(page@ + Seq::<Task>::empty() =~= page@);
        }
        Ok(page)
    }

    /// Insert a new task under an existing story; the store assigns its id
    /// and timestamps, and the status defaults to incomplete. Inserting under
    /// a story that does not exist breaks the store's foreign key and is an
    /// internal error, leaving the store unchanged. The new id is fresh.
    pub fn create(&self, db: &mut Store, story_id: i32, name: String) -> (r: Result<Task, Error>)
        requires
            old(db).wf(),
            old(db).next_task_id < i32::MAX,
        ensures
            final(db).wf(),
            has_story(old(db).stories@, story_id) ==> (r matches Ok(t) && ({
                &&& t.id == old(db).next_task_id
                &&& t.story_id == story_id
                &&& t.name == name
                &&& t.status == Status::Incomplete
                &&& t.created_at == old(db).clock
                &&& t.updated_at == old(db).clock
                &&& final(db).tasks@ == old(db).tasks@.push(t)
                &&& final(db).stories@ == old(db).stories@
                &&& final(db).next_task_id == old(db).next_task_id + 1
                &&& final(db).next_story_id == old(db).next_story_id
                &&& final(db).next_seqno == old(db).next_seqno
                &&& final(db).clock == old(db).clock
            })),
            !has_story(old(db).stories@, story_id) ==> (r matches Err(e) && e is Internal && *final(db) == *old(db)),
            r matches Ok(t) ==> forall|k: int|
                0 <= k < old(db).tasks@.len() ==> (#[trigger] old(db).tasks@[k]).id != t.id,
    {
        let sn = db.stories.len();
        let mut j: usize = 0;
        let mut story_found = false;
        while j < sn && !story_found
            invariant
                sn == db.stories@.len(),
                0 <= j <= sn,
                !story_found ==> forall|k: int|
                    0 <= k < j ==> (#[trigger] db.stories@[k]).id != story_id,
                story_found ==> has_story(db.stories@, story_id),
            decreases sn - j,
        {
            if db.stories[j].id == story_id {
                proof {
                    lemma_find_story_at(db.stories@, story_id, j as int);
                }
                story_found = true;
            }
            j = j + 1;
        }
        if !story_found {
            proof {
                lemma_find_story_absent(db.stories@, story_id);
            }
            return Err(Error::internal("task insert violates story foreign key"));
        }
        let task = Task {
            id: db.next_task_id,
            story_id,
            name,
            status: Status::Incomplete,
            created_at: db.clock,
            updated_at: db.clock,
        };
        let returned = task.clone();
        db.tasks.push(task);
        db.next_task_id = db.next_task_id + 1;
        proof {
            let ts = old(db).tasks@;
            let t = db.tasks@.last();
            assert(db.tasks@ == ts.push(t));
        }
        Ok(returned)
    }

    /// Overwrite a task's name and status by id; not-found (zero rows
    /// affected) when no row matches, leaving the store unchanged.
    pub fn update(&self, db: &mut Store, id: i32, name: String, status: Status) -> (r: Result<
        Task,
        Error,
    >)
        requires
            old(db).wf(),
        ensures
            final(db).wf(),
            final(db).stories@ == old(db).stories@,
            final(db).next_story_id == old(db).next_story_id,
            final(db).next_seqno == old(db).next_seqno,
            final(db).next_task_id == old(db).next_task_id,
            final(db).clock == old(db).clock,
            has_task(old(db).tasks@, id) ==> (r matches Ok(t) && t == updated_task(
                find_task(old(db).tasks@, id).unwrap(),
                name,
                status,
                old(db).clock,
            ) && final(db).tasks@ == with_task_updated(
                old(db).tasks@,
                id,
                name,
                status,
                old(db).clock,
            )),
            !has_task(old(db).tasks@, id) ==> (r matches Err(e) && e is NotFound && final(db).tasks@ == old(db).tasks@),
    {
        let ghost target = with_task_updated(old(db).tasks@, id, name, status, old(db).clock);
        let n = db.tasks.len();
        let mut updated: Vec<Task> = Vec::new();
        let mut result: Option<Task> = None;
        let mut i: usize = 0;
        while i < n
            invariant
                n == db.tasks@.len(),
                0 <= i <= n,
                *db == *old(db),
                target == with_task_updated(old(db).tasks@, id, name, status, old(db).clock),
                updated@.len() == i,
                forall|k: int| 0 <= k < i ==> updated@[k] == target[k],
                result is None ==> forall|k: int|
                    0 <= k < i ==> (#[trigger] db.tasks@[k]).id != id,
                result matches Some(u) ==> has_task(db.tasks@, id) && u == updated_task(
                    find_task(db.tasks@, id).unwrap(),
                    name,
                    status,
                    db.clock,
                ),
            decreases n - i,
        {
            let t = &db.tasks[i];
            if t.id == id {
                let u = Task {
                    id: t.id,
                    story_id: t.story_id,
                    name: name.clone(),
                    status,
                    created_at: t.created_at,
                    updated_at: db.clock,
                };
                if result.is_none() {
                    proof {
                        lemma_find_task_at(db.tasks@, id, i as int);
                    }
                    result = Some(u.clone());
                }
                updated.push(u);
            } else {
                updated.push(t.clone());
            }
            proof {
                assert(updated@[i as int] == target[i as int]);
            }
            i = i + 1;
        }
        match result {
            Some(u) => {
                db.tasks = updated;
                proof {
                    assert(db.tasks@ =~= target);
                    assert forall|a: int|
                        0 <= a < db.tasks@.len() implies (#[trigger] db.tasks@[a]).id == old(db).tasks@[a].id && db.tasks@[a].story_id == old(db).tasks@[a].story_id by {}
                }
                Ok(u)
            },
            None => {
                proof {
                    lemma_find_task_absent(db.tasks@, id);
                }
                Err(Error::not_found("task not found"))
            },
        }
    }

    /// Delete a task by id; the returned count is the rows deleted.
    pub fn delete(&self, db: &mut Store, id: i32) -> (r: Result<u64, Error>)
        requires
            old(db).wf(),
        ensures
            final(db).wf(),
            final(db).stories@ == old(db).stories@,
            final(db).tasks@ == without_task(old(db).tasks@, id),
            final(db).next_story_id == old(db).next_story_id,
            final(db).next_seqno == old(db).next_seqno,
            final(db).next_task_id == old(db).next_task_id,
            final(db).clock == old(db).clock,
            r matches Ok(n) && n == (if has_task(old(db).tasks@, id) {
                1u64
            } else {
                0u64
            }),
    {
        let ghost ts0 = db.tasks@;
        let tn = db.tasks.len();
        let mut kept: Vec<Task> = Vec::new();
        let mut found = false;
        let mut i: usize = 0;
        proof {
            assert(ts0.skip(0) =~= ts0);
            assert(kept@ + without_task(ts0, id) =~= without_task(ts0, id));
        }
        while i < tn
            invariant
                *db == *old(db),
                ts0 == db.tasks@,
                old(db).wf(),
                tn == ts0.len(),
                0 <= i <= tn,
                without_task(ts0, id) == kept@ + without_task(ts0.skip(i as int), id),
                forall|k: int|
                    0 <= k < kept@.len() ==> exists|j: int|
                        0 <= j < i && #[trigger] kept@[k] == ts0[j],
                forall|a: int, b: int|
                    0 <= a < b < kept@.len() ==> (#[trigger] kept@[a]).id < (
                    #[trigger] kept@[b]).id,
                found <==> exists|m: int| 0 <= m < i && (#[trigger] ts0[m]).id == id,
            decreases tn - i,
        {
            proof {
                assert(ts0.skip(i as int)[0] == ts0[i as int]);
                assert(ts0.skip(i as int).skip(1) =~= ts0.skip(i as int + 1));
            }
            let t = &db.tasks[i];
            if t.id != id {
                let ghost before = kept@;
                kept.push(t.clone());
                proof {
                    assert(before + (seq![ts0[i as int]] + without_task(
                        ts0.skip(i as int + 1),
                        id,
                    )) =~= kept@ + without_task(ts0.skip(i as int + 1), id));
                    assert forall|a: int, b: int|
                        0 <= a < b < kept@.len() implies (#[trigger] kept@[a]).id < (
                    #[trigger] kept@[b]).id by {
                        if b == kept@.len() - 1 {
                            let j = choose|j: int| 0 <= j < i && #[trigger] before[a] == ts0[j];
                            assert(ts0[j].id < ts0[i as int].id);
                        }
                    }
                }
            } else {
                found = true;
            }
            i = i + 1;
        }
        proof {
            assert(ts0.skip(tn as int) =~= Seq::<Task>::empty());
            assert(kept@ + Seq::<Task>::empty() =~= kept@);
        }
        db.tasks = kept;
        proof {
            lemma_find_task_spec(ts0, id);
            assert forall|k: int|
                0 <= k < db.tasks@.len() implies 0 < (#[trigger] db.tasks@[k]).id
                < db.next_task_id && has_story(db.stories@, db.tasks@[k].story_id) by {
                let j = choose|j: int| 0 <= j < ts0.len() && db.tasks@[k] == ts0[j];
                assert(0 < ts0[j].id < old(db).next_task_id);
                assert(has_story(old(db).stories@, ts0[j].story_id));
            }
        }
        if found {
            Ok(1)
        } else {
            Ok(0)
        }
    }
}

} // verus!
