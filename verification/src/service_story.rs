//! Story use-cases and their service. Each use-case is a single-purpose
//! operation with a fixed contract; mutating use-cases follow the
//! fetch-then-mutate protocol — an existence check first, the mutation only
//! if it succeeds, the not-found error propagated otherwise. The service is
//! pure aggregation: it groups the story use-cases behind one handle and adds
//! no logic of its own.
use vstd::prelude::*;
use crate::domain::Story;
use crate::error::Error;
use crate::repo::Repo;
use crate::store::{
    Store,
    find_story,
    has_story,
    story_page,
    without_story,
    without_story_tasks,
    with_story_renamed,
    renamed_story,
    lemma_story_page_properties,
};

verus! {

/// Creates stories.
pub struct CreateStory {
    pub repo: Repo,
}

impl CreateStory {
    /// Create a story; the store assigns its id, ordering key, and
    /// timestamps.
    pub fn execute(&self, db: &mut Store, name: String) -> (r: Result<Story, Error>)
        requires
            old(db).wf(),
            old(db).next_story_id < i32::MAX,
            old(db).next_seqno < i32::MAX,
        ensures
            final(db).wf(),
            r matches Ok(s) && ({
                &&& s.id == old(db).next_story_id
                &&& s.seqno == old(db).next_seqno
                &&& s.name == name
                &&& s.created_at == old(db).clock
                &&& s.updated_at == old(db).clock
                &&& final(db).stories@ == old(db).stories@.push(s)
                &&& final(db).tasks@ == old(db).tasks@
                &&& final(db).next_story_id == old(db).next_story_id + 1
                &&& final(db).next_seqno == old(db).next_seqno + 1
                &&& final(db).next_task_id == old(db).next_task_id
                &&& final(db).clock == old(db).clock
            }),
            r matches Ok(s) ==> forall|k: int|
                0 <= k < old(db).stories@.len() ==> (#[trigger] old(db).stories@[k]).id != s.id,
    {
        self.repo.create_story(db, name)
    }
}

/// Deletes stories, cascading to their tasks.
pub struct DeleteStory {
    pub repo: Repo,
}

impl DeleteStory {
    /// Delete a story if it exists: fetch first, then run the cascading
    /// delete; a missing story short-circuits to not-found with no mutation.
    pub fn execute(&self, db: &mut Store, id: i32) -> (r: Result<(), Error>)
        requires
            old(db).wf(),
        ensures
            final(db).wf(),
            final(db).next_story_id == old(db).next_story_id,
            final(db).next_seqno == old(db).next_seqno,
            final(db).next_task_id == old(db).next_task_id,
            final(db).clock == old(db).clock,
            has_story(old(db).stories@, id) ==> (r is Ok && final(db).stories@ == without_story(
                old(db).stories@,
                id,
            ) && final(db).tasks@ == without_story_tasks(old(db).tasks@, id)),
            !has_story(old(db).stories@, id) ==> (r matches Err(e) && e is NotFound && *final(db)
                == *old(db)),
    {
        match self.repo.fetch_story(db, id) {
            Err(e) => Err(e),
            Ok(_) => {
                match self.repo.delete_story(db, id) {
                    Err(e) => Err(e),
                    Ok(_) => Ok(()),
                }
            },
        }
    }
}

/// Gets one story.
pub struct GetStory {
    pub repo: Repo,
}

impl GetStory {
    /// Get a story by id; not-found when it does not exist.
    pub fn execute(&self, db: &Store, id: i32) -> (r: Result<Story, Error>)
        ensures
            has_story(db.stories@, id) ==> (r matches Ok(s) && find_story(db.stories@, id)
                == Some(s)),
            !has_story(db.stories@, id) ==> (r matches Err(e) && e is NotFound),
    {
        self.repo.fetch_story(db, id)
    }
}

/// Gets a page of stories.
pub struct GetStories {
    pub repo: Repo,
}

impl GetStories {
    /// Get the page of stories at the cursor, newest first, and the cursor
    /// for the page after it: one less than the smallest ordering key
    /// returned when the page is full, or a non-positive sentinel when there
    /// are no further pages.
    pub fn execute(&self, db: &Store, cursor: i32, page_size: i32) -> (r: Result<
        (i32, Vec<Story>),
        Error,
    >)
        requires
            db.wf(),
            0 < page_size <= 1000,
        ensures
            r matches Ok(p) && ({
                &&& p.1@ == story_page(db.stories@, cursor, page_size as int)
                &&& p.1@.len() == page_size ==> p.0 == p.1@.last().seqno - 1
                &&& p.1@.len() < page_size ==> p.0 == 0
                &&& p.0 >= 0
                &&& forall|k: int| 0 <= k < p.1@.len() ==> (#[trigger] p.1@[k]).seqno > p.0
            }),
    {
        let stories = match self.repo.list_stories(db, cursor, page_size) {
            Ok(v) => v,
            Err(e) => { return Err(e) },
        };
        proof {
            lemma_story_page_properties(db.stories@, cursor, page_size as int);
        }
        if stories.len() == page_size as usize {
            let last = &stories[stories.len() - 1];
            proof {
                let page = stories@;
                let j = choose|j: int|
                    0 <= j < db.stories@.len() && #[trigger] page[page.len() - 1]
                        == db.stories@[j];
                assert(db.stories@[j].seqno >= 1);
                assert forall|k: int|
                    0 <= k < page.len() implies (#[trigger] page[k]).seqno > page.last().seqno
                    - 1 by {
                    if k < page.len() - 1 {
                        assert(page[k].seqno > page[page.len() - 1].seqno);
                    }
                }
            }
            Ok((last.seqno - 1, stories))
        } else {
            Ok((0, stories))
        }
    }
}

/// Updates stories.
pub struct UpdateStory {
    pub repo: Repo,
}

impl UpdateStory {
    /// Update a story's name if it exists: fetch first, then overwrite; a
    /// missing story short-circuits to not-found with no mutation.
    pub fn execute(&self, db: &mut Store, id: i32, name: String) -> (r: Result<Story, Error>)
        requires
            old(db).wf(),
        ensures
            final(db).wf(),
            final(db).tasks@ == old(db).tasks@,
            final(db).next_story_id == old(db).next_story_id,
            final(db).next_seqno == old(db).next_seqno,
            final(db).next_task_id == old(db).next_task_id,
            final(db).clock == old(db).clock,
            has_story(old(db).stories@, id) ==> (r matches Ok(s) && s == renamed_story(
                find_story(old(db).stories@, id).unwrap(),
                name,
                old(db).clock,
            ) && final(db).stories@ == with_story_renamed(
                old(db).stories@,
                id,
                name,
                old(db).clock,
            )),
            !has_story(old(db).stories@, id) ==> (r matches Err(e) && e is NotFound && final(db).stories@ == old(db).stories@),
    {
        match self.repo.fetch_story(db, id) {
            Err(e) => Err(e),
            Ok(_) => self.repo.update_story(db, id, name),
        }
    }
}

/// Aggregates the story use-cases into a unified, entity-oriented API.
pub struct StoryService {
    pub create_story: CreateStory,
    pub delete_story: DeleteStory,
    pub get_story: GetStory,
    pub get_stories: GetStories,
    pub update_story: UpdateStory,
}

impl StoryService {
    /// Create a new story service over one repository handle.
    pub fn new(repo: Repo) -> (r: StoryService)
        ensures
            r.create_story.repo == repo,
            r.delete_story.repo == repo,
            r.get_story.repo == repo,
            r.get_stories.repo == repo,
            r.update_story.repo == repo,
    {
        StoryService {
            create_story: CreateStory { repo },
            delete_story: DeleteStory { repo },
            get_story: GetStory { repo },
            get_stories: GetStories { repo },
            update_story: UpdateStory { repo },
        }
    }

    /// Create a story.
    pub fn create(&self, db: &mut Store, name: String) -> (r: Result<Story, Error>)
        requires
            old(db).wf(),
            old(db).next_story_id < i32::MAX,
            old(db).next_seqno < i32::MAX,
        ensures
            final(db).wf(),
            r matches Ok(s) && ({
                &&& s.id == old(db).next_story_id
                &&& s.seqno == old(db).next_seqno
                &&& s.name == name
                &&& s.created_at == old(db).clock
                &&& s.updated_at == old(db).clock
                &&& final(db).stories@ == old(db).stories@.push(s)
                &&& final(db).tasks@ == old(db).tasks@
                &&& final(db).next_story_id == old(db).next_story_id + 1
                &&& final(db).next_seqno == old(db).next_seqno + 1
                &&& final(db).next_task_id == old(db).next_task_id
                &&& final(db).clock == old(db).clock
            }),
            r matches Ok(s) ==> forall|k: int|
                0 <= k < old(db).stories@.len() ==> (#[trigger] old(db).stories@[k]).id != s.id,
    {
        self.create_story.execute(db, name)
    }

    /// Delete a story, cascading to its tasks.
    pub fn delete(&self, db: &mut Store, id: i32) -> (r: Result<(), Error>)
        requires
            old(db).wf(),
        ensures
            final(db).wf(),
            final(db).next_story_id == old(db).next_story_id,
            final(db).next_seqno == old(db).next_seqno,
            final(db).next_task_id == old(db).next_task_id,
            final(db).clock == old(db).clock,
            has_story(old(db).stories@, id) ==> (r is Ok && final(db).stories@ == without_story(
                old(db).stories@,
                id,
            ) && final(db).tasks@ == without_story_tasks(old(db).tasks@, id)),
            !has_story(old(db).stories@, id) ==> (r matches Err(e) && e is NotFound && *final(db)
                == *old(db)),
    {
        self.delete_story.execute(db, id)
    }

    /// Get a story.
    pub fn get(&self, db: &Store, id: i32) -> (r: Result<Story, Error>)
        ensures
            has_story(db.stories@, id) ==> (r matches Ok(s) && find_story(db.stories@, id)
                == Some(s)),
            !has_story(db.stories@, id) ==> (r matches Err(e) && e is NotFound),
    {
        self.get_story.execute(db, id)
    }

    /// Get a page of recent stories and the cursor for the next page.
    pub fn list(&self, db: &Store, cursor: i32, page_size: i32) -> (r: Result<
        (i32, Vec<Story>),
        Error,
    >)
        requires
            db.wf(),
            0 < page_size <= 1000,
        ensures
            r matches Ok(p) && ({
                &&& p.1@ == story_page(db.stories@, cursor, page_size as int)
                &&& p.1@.len() == page_size ==> p.0 == p.1@.last().seqno - 1
                &&& p.1@.len() < page_size ==> p.0 == 0
                &&& p.0 >= 0
                &&& forall|k: int| 0 <= k < p.1@.len() ==> (#[trigger] p.1@[k]).seqno > p.0
            }),
    {
        self.get_stories.execute(db, cursor, page_size)
    }

    /// Update a story's name.
    pub fn update(&self, db: &mut Store, id: i32, name: String) -> (r: Result<Story, Error>)
        requires
            old(db).wf(),
        ensures
            final(db).wf(),
            final(db).tasks@ == old(db).tasks@,
            final(db).next_story_id == old(db).next_story_id,
            final(db).next_seqno == old(db).next_seqno,
            final(db).next_task_id == old(db).next_task_id,
            final(db).clock == old(db).clock,
            has_story(old(db).stories@, id) ==> (r matches Ok(s) && s == renamed_story(
                find_story(old(db).stories@, id).unwrap(),
                name,
                old(db).clock,
            ) && final(db).stories@ == with_story_renamed(
                old(db).stories@,
                id,
                name,
                old(db).clock,
            )),
            !has_story(old(db).stories@, id) ==> (r matches Err(e) && e is NotFound && final(db).stories@ == old(db).stories@),
    {
        self.update_story.execute(db, id, name)
    }
}

} // verus!
