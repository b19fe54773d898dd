//! The model of the backing relational store: the rows it holds, the serial
//! counters it assigns ids and ordering keys from, and the meaning of each
//! statement the repository layer issues against it. Well-formedness captures
//! the store's standing invariants: unique ids, a strictly increasing
//! ordering key, and no orphaned tasks.
use vstd::prelude::*;
use crate::domain::{Status, Story, Task};

verus! {

/// The first story in insertion order bearing the given id, if any.
pub open spec fn find_story(ss: Seq<Story>, id: i32) -> Option<Story>
    decreases ss.len(),
{
    if ss.len() == 0 {
        None
    } else if ss[0].id == id {
        Some(ss[0])
    } else {
        find_story(ss.skip(1), id)
    }
}

/// Whether a story with the given id exists.
pub open spec fn has_story(ss: Seq<Story>, id: i32) -> bool {
    find_story(ss, id) is Some
}

/// The first task in insertion order bearing the given id, if any.
pub open spec fn find_task(ts: Seq<Task>, id: i32) -> Option<Task>
    decreases ts.len(),
{
    if ts.len() == 0 {
        None
    } else if ts[0].id == id {
        Some(ts[0])
    } else {
        find_task(ts.skip(1), id)
    }
}

/// Whether a task with the given id exists.
pub open spec fn has_task(ts: Seq<Task>, id: i32) -> bool {
    find_task(ts, id) is Some
}

/// The page of stories whose ordering key is at most `cursor`, newest first,
/// holding at most `n` entries.
pub open spec fn story_page(ss: Seq<Story>, cursor: i32, n: int) -> Seq<Story>
    decreases ss.len(),
{
    if ss.len() == 0 || n <= 0 {
        Seq::empty()
    } else if ss.last().seqno <= cursor {
        seq![ss.last()] + story_page(ss.drop_last(), cursor, n - 1)
    } else {
        story_page(ss.drop_last(), cursor, n)
    }
}

/// The tasks owned by a story, in insertion order, holding at most `n`
/// entries.
pub open spec fn story_tasks(ts: Seq<Task>, story_id: i32, n: int) -> Seq<Task>
    decreases ts.len(),
{
    if ts.len() == 0 || n <= 0 {
        Seq::empty()
    } else if ts[0].story_id == story_id {
        seq![ts[0]] + story_tasks(ts.skip(1), story_id, n - 1)
    } else {
        story_tasks(ts.skip(1), story_id, n)
    }
}

/// The stories left after deleting the story with the given id.
pub open spec fn without_story(ss: Seq<Story>, id: i32) -> Seq<Story>
    decreases ss.len(),
{
    if ss.len() == 0 {
        Seq::empty()
    } else if ss[0].id == id {
        without_story(ss.skip(1), id)
    } else {
        seq![ss[0]] + without_story(ss.skip(1), id)
    }
}

/// The tasks left after deleting every task owned by the given story.
pub open spec fn without_story_tasks(ts: Seq<Task>, story_id: i32) -> Seq<Task>
    decreases ts.len(),
{
    if ts.len() == 0 {
        Seq::empty()
    } else if ts[0].story_id == story_id {
        without_story_tasks(ts.skip(1), story_id)
    } else {
        seq![ts[0]] + without_story_tasks(ts.skip(1), story_id)
    }
}

/// The tasks left after deleting the task with the given id.
pub open spec fn without_task(ts: Seq<Task>, id: i32) -> Seq<Task>
    decreases ts.len(),
{
    if ts.len() == 0 {
        Seq::empty()
    } else if ts[0].id == id {
        without_task(ts.skip(1), id)
    } else {
        seq![ts[0]] + without_task(ts.skip(1), id)
    }
}

/// A story renamed at update time `at`, all other fields kept.
pub open spec fn renamed_story(s: Story, name: String, at: u64) -> Story {
    Story { id: s.id, name: name, seqno: s.seqno, created_at: s.created_at, updated_at: at }
}

/// The stories after overwriting the name of the story with the given id.
pub open spec fn with_story_renamed(ss: Seq<Story>, id: i32, name: String, at: u64) -> Seq<
    Story,
> {
    ss.map_values(
        |s: Story|
            if s.id == id {
                renamed_story(s, name, at)
            } else {
                s
            },
    )
}

/// A task with its name and status overwritten at update time `at`, all other
/// fields kept.
pub open spec fn updated_task(t: Task, name: String, status: Status, at: u64) -> Task {
    Task {
        id: t.id,
        story_id: t.story_id,
        name: name,
        status: status,
        created_at: t.created_at,
        updated_at: at,
    }
}

/// The tasks after overwriting the name and status of the task with the given
/// id.
pub open spec fn with_task_updated(
    ts: Seq<Task>,
    id: i32,
    name: String,
    status: Status,
    at: u64,
) -> Seq<Task> {
    ts.map_values(
        |t: Task|
            if t.id == id {
                updated_task(t, name, status, at)
            } else {
                t
            },
    )
}

/// If no story in the sequence bears the id, none is found.
pub proof fn lemma_find_story_absent(ss: Seq<Story>, id: i32)
    requires
        forall|k: int| 0 <= k < ss.len() ==> (#[trigger] ss[k]).id != id,
    ensures
        !has_story(ss, id),
    decreases ss.len(),
{
    if ss.len() > 0 {
        assert(forall|k: int|
            0 <= k < ss.skip(1).len() ==> (#[trigger] ss.skip(1)[k]).id != id);
        lemma_find_story_absent(ss.skip(1), id);
    }
}

/// If the first story bearing the id stands at index `i`, it is what finding
/// by that id yields.
pub proof fn lemma_find_story_at(ss: Seq<Story>, id: i32, i: int)
    requires
        0 <= i < ss.len(),
        ss[i].id == id,
        forall|k: int| 0 <= k < i ==> (#[trigger] ss[k]).id != id,
    ensures
        find_story(ss, id) == Some(ss[i]),
    decreases i,
{
    if i > 0 {
        assert(forall|k: int|
            0 <= k < i - 1 ==> (#[trigger] ss.skip(1)[k]).id != id);
        lemma_find_story_at(ss.skip(1), id, i - 1);
        assert(ss.skip(1)[i - 1] == ss[i]);
    }
}

/// A story is found by id exactly when some story bears that id, and what is
/// found bears the id and is a member of the sequence.
pub proof fn lemma_find_story_spec(ss: Seq<Story>, id: i32)
    ensures
        has_story(ss, id) <==> exists|k: int| 0 <= k < ss.len() && (#[trigger] ss[k]).id == id,
        has_story(ss, id) ==> find_story(ss, id).unwrap().id == id && exists|k: int|
            0 <= k < ss.len() && #[trigger] ss[k] == find_story(ss, id).unwrap(),
    decreases ss.len(),
{
    if ss.len() > 0 {
        lemma_find_story_spec(ss.skip(1), id);
        if ss[0].id != id {
            if has_story(ss.skip(1), id) {
                let k = choose|k: int|
                    0 <= k < ss.skip(1).len() && #[trigger] ss.skip(1)[k] == find_story(
                        ss.skip(1),
                        id,
                    ).unwrap();
                assert(ss[k + 1] == find_story(ss, id).unwrap());
            }
            if exists|k: int| 0 <= k < ss.len() && (#[trigger] ss[k]).id == id {
                let k = choose|k: int| 0 <= k < ss.len() && (#[trigger] ss[k]).id == id;
                assert(ss.skip(1)[k - 1].id == id);
            }
        }
    }
}

/// If no task in the sequence bears the id, none is found.
pub proof fn lemma_find_task_absent(ts: Seq<Task>, id: i32)
    requires
        forall|k: int| 0 <= k < ts.len() ==> (#[trigger] ts[k]).id != id,
    ensures
        !has_task(ts, id),
    decreases ts.len(),
{
    if ts.len() > 0 {
        assert(forall|k: int|
            0 <= k < ts.skip(1).len() ==> (#[trigger] ts.skip(1)[k]).id != id);
        lemma_find_task_absent(ts.skip(1), id);
    }
}

/// If the first task bearing the id stands at index `i`, it is what finding
/// by that id yields.
pub proof fn lemma_find_task_at(ts: Seq<Task>, id: i32, i: int)
    requires
        0 <= i < ts.len(),
        ts[i].id == id,
        forall|k: int| 0 <= k < i ==> (#[trigger] ts[k]).id != id,
    ensures
        find_task(ts, id) == Some(ts[i]),
    decreases i,
{
    if i > 0 {
        assert(forall|k: int|
            0 <= k < i - 1 ==> (#[trigger] ts.skip(1)[k]).id != id);
        lemma_find_task_at(ts.skip(1), id, i - 1);
        assert(ts.skip(1)[i - 1] == ts[i]);
    }
}

/// A task is found by id exactly when some task bears that id, and what is
/// found bears the id and is a member of the sequence.
pub proof fn lemma_find_task_spec(ts: Seq<Task>, id: i32)
    ensures
        has_task(ts, id) <==> exists|k: int| 0 <= k < ts.len() && (#[trigger] ts[k]).id == id,
        has_task(ts, id) ==> find_task(ts, id).unwrap().id == id && exists|k: int|
            0 <= k < ts.len() && #[trigger] ts[k] == find_task(ts, id).unwrap(),
    decreases ts.len(),
{
    if ts.len() > 0 {
        lemma_find_task_spec(ts.skip(1), id);
        if ts[0].id != id {
            if has_task(ts.skip(1), id) {
                let k = choose|k: int|
                    0 <= k < ts.skip(1).len() && #[trigger] ts.skip(1)[k] == find_task(
                        ts.skip(1),
                        id,
                    ).unwrap();
                assert(ts[k + 1] == find_task(ts, id).unwrap());
            }
            if exists|k: int| 0 <= k < ts.len() && (#[trigger] ts[k]).id == id {
                let k = choose|k: int| 0 <= k < ts.len() && (#[trigger] ts[k]).id == id;
                assert(ts.skip(1)[k - 1].id == id);
            }
        }
    }
}

/// Every story kept by a delete is a member of the original sequence and does
/// not bear the deleted id.
pub proof fn lemma_without_story_members(ss: Seq<Story>, id: i32)
    ensures
        forall|k: int|
            0 <= k < without_story(ss, id).len() ==> ((#[trigger] without_story(ss, id)[k]).id
                != id && exists|j: int| 0 <= j < ss.len() && without_story(ss, id)[k] == ss[j]),
    decreases ss.len(),
{
    if ss.len() > 0 {
        lemma_without_story_members(ss.skip(1), id);
        let res = without_story(ss, id);
        let sub = without_story(ss.skip(1), id);
        assert forall|k: int| 0 <= k < res.len() implies ((#[trigger] res[k]).id != id
            && exists|j: int| 0 <= j < ss.len() && res[k] == ss[j]) by {
            if ss[0].id == id {
                let j = choose|j: int| 0 <= j < ss.skip(1).len() && res[k] == ss.skip(1)[j];
                assert(res[k] == ss[j + 1]);
            } else {
                if k == 0 {
                    assert(res[0] == ss[0]);
                } else {
                    assert(res[k] == sub[k - 1]);
                    let j = choose|j: int|
                        0 <= j < ss.skip(1).len() && sub[k - 1] == ss.skip(1)[j];
                    assert(res[k] == ss[j + 1]);
                }
            }
        }
    }
}

/// Deleting a story by id does not change what finding any other id yields.
pub proof fn lemma_without_story_keeps_others(ss: Seq<Story>, id: i32, other: i32)
    requires
        other != id,
    ensures
        find_story(without_story(ss, id), other) == find_story(ss, other),
    decreases ss.len(),
{
    if ss.len() > 0 {
        lemma_without_story_keeps_others(ss.skip(1), id, other);
        if ss[0].id != id {
            let res = without_story(ss, id);
            assert(res[0] == ss[0]);
            assert(res.skip(1) =~= without_story(ss.skip(1), id));
        }
    }
}

/// Every task kept by a cascade is a member of the original sequence and is
/// not owned by the deleted story.
pub proof fn lemma_without_story_tasks_members(ts: Seq<Task>, story_id: i32)
    ensures
        forall|k: int|
            0 <= k < without_story_tasks(ts, story_id).len() ==> ((#[trigger] without_story_tasks(
                ts,
                story_id,
            )[k]).story_id != story_id && exists|j: int|
                0 <= j < ts.len() && without_story_tasks(ts, story_id)[k] == ts[j]),
    decreases ts.len(),
{
    if ts.len() > 0 {
        lemma_without_story_tasks_members(ts.skip(1), story_id);
        let res = without_story_tasks(ts, story_id);
        let sub = without_story_tasks(ts.skip(1), story_id);
        assert forall|k: int| 0 <= k < res.len() implies ((#[trigger] res[k]).story_id
            != story_id && exists|j: int| 0 <= j < ts.len() && res[k] == ts[j]) by {
            if ts[0].story_id == story_id {
                let j = choose|j: int| 0 <= j < ts.skip(1).len() && res[k] == ts.skip(1)[j];
                assert(res[k] == ts[j + 1]);
            } else {
                if k == 0 {
                    assert(res[0] == ts[0]);
                } else {
                    assert(res[k] == sub[k - 1]);
                    let j = choose|j: int|
                        0 <= j < ts.skip(1).len() && sub[k - 1] == ts.skip(1)[j];
                    assert(res[k] == ts[j + 1]);
                }
            }
        }
    }
}


/// Appending a story does not change what finding any already-present id
/// yields, and a fresh id finds the appended story.
pub proof fn lemma_find_story_push(ss: Seq<Story>, s: Story, id: i32)
    ensures
        find_story(ss.push(s), id) == (if has_story(ss, id) {
            find_story(ss, id)
        } else if s.id == id {
            Some(s)
        } else {
            None::<Story>
        }),
    decreases ss.len(),
{
    if ss.len() == 0 {
        assert(ss.push(s)[0] == s);
        assert(ss.push(s).skip(1) =~= Seq::<Story>::empty());
        assert(!has_story(ss, id));
        if s.id == id {
            assert(find_story(ss.push(s), id) == Some(s));
        } else {
            assert(find_story(ss.push(s), id) == find_story(Seq::<Story>::empty(), id));
            assert(find_story(ss.push(s), id) is None);
        }
    } else {
        assert(ss.push(s)[0] == ss[0]);
        assert(ss.push(s).skip(1) =~= ss.skip(1).push(s));
        lemma_find_story_push(ss.skip(1), s, id);
        if ss[0].id == id {
            assert(find_story(ss.push(s), id) == Some(ss[0]));
            assert(find_story(ss, id) == Some(ss[0]));
        } else {
            assert(find_story(ss.push(s), id) == find_story(ss.skip(1).push(s), id));
            assert(find_story(ss, id) == find_story(ss.skip(1), id));
        }
    }
}


/// After a story is deleted, no story bears its id.
pub proof fn lemma_delete_story_gone(ss: Seq<Story>, id: i32)
    ensures
        !has_story(without_story(ss, id), id),
{
    lemma_without_story_members(ss, id);
    lemma_find_story_absent(without_story(ss, id), id);
}

/// Cascading-delete law: when every task id is unique and the task bearing
/// `task_id`, if present, is owned by the deleted story, that task cannot be
/// found once the story's tasks are deleted — the store never keeps an
/// orphaned task.
pub proof fn lemma_cascade_delete(ts: Seq<Task>, story_id: i32, task_id: i32)
    requires
        forall|i: int, j: int| 0 <= i < j < ts.len() ==> ts[i].id != ts[j].id,
        find_task(ts, task_id) matches Some(t) ==> t.story_id == story_id,
    ensures
        !has_task(without_story_tasks(ts, story_id), task_id),
{
    let res = without_story_tasks(ts, story_id);
    lemma_without_story_tasks_members(ts, story_id);
    lemma_find_task_spec(ts, task_id);
    assert forall|k: int| 0 <= k < res.len() implies (#[trigger] res[k]).id != task_id by {
        if res[k].id == task_id {
            let j = choose|j: int| 0 <= j < ts.len() && res[k] == ts[j];
            assert(ts[j].id == task_id);
            assert(has_task(ts, task_id));
            let t = find_task(ts, task_id).unwrap();
            let j0 = choose|j0: int| 0 <= j0 < ts.len() && #[trigger] ts[j0] == t;
            if j != j0 {
                if j < j0 {
                    assert(ts[j].id != ts[j0].id);
                } else {
                    assert(ts[j0].id != ts[j].id);
                }
            }
            assert(res[k].story_id == story_id);
        }
    }
    lemma_find_task_absent(res, task_id);
}

/// Cascading-delete law over a well-formed store: after a story is deleted,
/// neither the story itself nor any task it owned can be found — either both
/// disappear together or, if the transaction never commits, neither does.
pub proof fn lemma_store_cascade_delete(db: Store, story_id: i32, task_id: i32)
    requires
        db.wf(),
        find_task(db.tasks@, task_id) matches Some(t) ==> t.story_id == story_id,
    ensures
        !has_story(without_story(db.stories@, story_id), story_id),
        !has_task(without_story_tasks(db.tasks@, story_id), task_id),
{
    lemma_delete_story_gone(db.stories@, story_id);
    assert forall|i: int, j: int|
        0 <= i < j < db.tasks@.len() implies db.tasks@[i].id != db.tasks@[j].id by {
        assert((#[trigger] db.tasks@[i]).id < (#[trigger] db.tasks@[j]).id);
    }
    lemma_cascade_delete(db.tasks@, story_id, task_id);
}

/// Freshness law: in a well-formed store, no existing story bears the id the
/// store will assign next, and no existing task bears the next task id.
pub proof fn lemma_created_ids_fresh(db: Store)
    requires
        db.wf(),
    ensures
        !has_story(db.stories@, db.next_story_id),
        !has_task(db.tasks@, db.next_task_id),
{
    lemma_find_story_absent(db.stories@, db.next_story_id);
    lemma_find_task_absent(db.tasks@, db.next_task_id);
}

/// Pagination law: when ordering keys strictly increase with insertion order,
/// a page holds at most `n` stories, each with ordering key at most the
/// cursor, strictly descending, every one a member of the listed sequence.
pub proof fn lemma_story_page_properties(ss: Seq<Story>, cursor: i32, n: int)
    requires
        forall|i: int, j: int| 0 <= i < j < ss.len() ==> ss[i].seqno < ss[j].seqno,
    ensures
        n >= 0 ==> story_page(ss, cursor, n).len() <= n,
        forall|k: int|
            0 <= k < story_page(ss, cursor, n).len() ==> (#[trigger] story_page(ss, cursor, n)[k]).seqno
                <= cursor,
        forall|k1: int, k2: int|
            0 <= k1 < k2 < story_page(ss, cursor, n).len() ==> story_page(ss, cursor, n)[k1].seqno
                > story_page(ss, cursor, n)[k2].seqno,
        forall|k: int|
            0 <= k < story_page(ss, cursor, n).len() ==> exists|j: int|
                0 <= j < ss.len() && #[trigger] story_page(ss, cursor, n)[k] == ss[j],
    decreases ss.len(),
{
    if ss.len() > 0 && n > 0 {
        let page = story_page(ss, cursor, n);
        if ss.last().seqno <= cursor {
            lemma_story_page_properties(ss.drop_last(), cursor, n - 1);
            let sub = story_page(ss.drop_last(), cursor, n - 1);
            assert(page == seq![ss.last()] + sub);
            assert(page[0] == ss.last());
            assert forall|k: int| 0 <= k < page.len() implies exists|j: int|
                0 <= j < ss.len() && #[trigger] page[k] == ss[j] by {
                if k == 0 {
                    assert(page[0] == ss[ss.len() - 1]);
                } else {
                    assert(page[k] == sub[k - 1]);
                    let j = choose|j: int|
                        0 <= j < ss.drop_last().len() && #[trigger] sub[k - 1]
                            == ss.drop_last()[j];
                    assert(page[k] == ss[j]);
                }
            }
            assert forall|k1: int, k2: int| 0 <= k1 < k2 < page.len() implies page[k1].seqno
                > page[k2].seqno by {
                if k1 == 0 {
                    let j = choose|j: int|
                        0 <= j < ss.drop_last().len() && #[trigger] sub[k2 - 1]
                            == ss.drop_last()[j];
                    assert(ss[j].seqno < ss[ss.len() - 1].seqno);
                } else {
                    assert(page[k1] == sub[k1 - 1] && page[k2] == sub[k2 - 1]);
                }
            }
        } else {
            lemma_story_page_properties(ss.drop_last(), cursor, n);
            let sub = story_page(ss.drop_last(), cursor, n);
            assert forall|k: int| 0 <= k < page.len() implies exists|j: int|
                0 <= j < ss.len() && #[trigger] page[k] == ss[j] by {
                let j = choose|j: int|
                    0 <= j < ss.drop_last().len() && #[trigger] sub[k] == ss.drop_last()[j];
                assert(page[k] == ss[j]);
            }
        }
    }
}


/// The backing store: stories and tasks in insertion order, the serial
/// counters the store assigns identifiers and ordering keys from, and the
/// clock it stamps rows with.
#[derive(Debug)]
pub struct Store {
    pub stories: Vec<Story>,
    pub tasks: Vec<Task>,
    pub next_story_id: i32,
    pub next_seqno: i32,
    pub next_task_id: i32,
    pub clock: u64,
}

impl Store {
    /// The store's standing invariants: serial counters are positive and
    /// above every assigned id; story ids are unique and their ordering keys
    /// strictly increase with insertion order, so the key is never reused or
    /// decremented; task ids strictly increase with insertion order; and
    /// every task's owning story exists.
    pub open spec fn wf(&self) -> bool {
        &&& 0 < self.next_story_id
        &&& 0 < self.next_seqno
        &&& 0 < self.next_task_id
        &&& forall|i: int|
            0 <= i < self.stories@.len() ==> 0 < (#[trigger] self.stories@[i]).id
                < self.next_story_id && 0 < self.stories@[i].seqno < self.next_seqno
        &&& forall|i: int, j: int|
            0 <= i < j < self.stories@.len() ==> (#[trigger] self.stories@[i]).seqno < (
            #[trigger] self.stories@[j]).seqno && self.stories@[i].id != self.stories@[j].id
        &&& forall|i: int|
            0 <= i < self.tasks@.len() ==> 0 < (#[trigger] self.tasks@[i]).id < self.next_task_id
        &&& forall|i: int, j: int|
            0 <= i < j < self.tasks@.len() ==> (#[trigger] self.tasks@[i]).id < (
            #[trigger] self.tasks@[j]).id
        &&& forall|i: int|
            0 <= i < self.tasks@.len() ==> has_story(
                self.stories@,
                (#[trigger] self.tasks@[i]).story_id,
            )
    }

    /// A fresh, empty store.
    pub fn new() -> (r: Store)
        ensures
            r.wf(),
            r.stories@ == Seq::<Story>::empty(),
            r.tasks@ == Seq::<Task>::empty(),
            r.next_story_id == 1,
            r.next_seqno == 1,
            r.next_task_id == 1,
            r.clock == 0,
    {
        Store {
            stories: Vec::new(),
            tasks: Vec::new(),
            next_story_id: 1,
            next_seqno: 1,
            next_task_id: 1,
            clock: 0,
        }
    }

    /// Move the store's clock; rows created or updated afterwards are stamped
    /// with the new time.
    pub fn set_clock(&mut self, at: u64)
        ensures
            final(self).clock == at,
            final(self).stories@ == old(self).stories@,
            final(self).tasks@ == old(self).tasks@,
            final(self).next_story_id == old(self).next_story_id,
            final(self).next_seqno == old(self).next_seqno,
            final(self).next_task_id == old(self).next_task_id,
            old(self).wf() ==> final(self).wf(),
    {
        self.clock = at;
    }
}

} // verus!
