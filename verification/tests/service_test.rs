use backlog::domain::Status;
use backlog::error::Error;
use backlog::page::PageToken;
use backlog::repo::{Repo, TaskRepo};
use backlog::service_story::StoryService;
use backlog::service_task::TaskService;
use backlog::store::Store;

fn services() -> (Store, StoryService, TaskService) {
    let db = Store::new();
    let stories = StoryService::new(Repo::new());
    let tasks = TaskService::new(Repo::new(), TaskRepo::new());
    (db, stories, tasks)
}

#[test]
fn end_to_end_scenario() {
    let (mut db, stories, tasks) = services();

    // Create story "Books To Read".
    let story = stories
        .create(&mut db, "Books To Read".to_string())
        .unwrap();
    assert_eq!(story.name, "Books To Read");

    // Create task "Suttree" under it; expect status Incomplete.
    let task = tasks
        .create(&mut db, story.id, "Suttree".to_string())
        .unwrap();
    assert_eq!(task.status, Status::Incomplete);
    assert_eq!(task.story_id, story.id);

    // Update task status to Complete.
    let updated = tasks
        .update(&mut db, task.id, None, Some(Status::Complete))
        .unwrap();
    assert_eq!(updated.status, Status::Complete);
    assert_eq!(updated.name, "Suttree");

    // Fetch task; expect status Complete.
    let fetched = tasks.get(&db, task.id).unwrap();
    assert_eq!(fetched.status, Status::Complete);

    // List tasks for the story; expect length 1.
    let listed = tasks.list(&db, story.id).unwrap();
    assert_eq!(listed.len(), 1);

    // Delete the task, then fetch; expect not-found.
    tasks.delete(&mut db, task.id).unwrap();
    assert!(matches!(
        tasks.get(&db, task.id),
        Err(Error::NotFound { .. })
    ));
}

#[test]
fn partial_update_with_no_fields_is_invalid_args_without_mutation() {
    let (mut db, stories, tasks) = services();
    let story = stories.create(&mut db, "s".to_string()).unwrap();
    let task = tasks.create(&mut db, story.id, "t".to_string()).unwrap();

    let before_tasks = db.tasks.clone();
    let r = tasks.update(&mut db, task.id, None, None);
    assert!(matches!(r, Err(Error::InvalidArgs { .. })));
    // No store mutation happened.
    assert_eq!(db.tasks.len(), before_tasks.len());
    let after = tasks.get(&db, task.id).unwrap();
    assert_eq!(after.name, "t");
    assert_eq!(after.status, Status::Incomplete);
    assert_eq!(after.updated_at, task.updated_at);
}

#[test]
fn updating_nonexistent_task_is_not_found_without_mutation() {
    let (mut db, stories, tasks) = services();
    let story = stories.create(&mut db, "s".to_string()).unwrap();
    let task = tasks.create(&mut db, story.id, "t".to_string()).unwrap();

    // An id never issued by create.
    let missing = task.id + 1000;
    let r = tasks.update(
        &mut db,
        missing,
        Some("renamed".to_string()),
        Some(Status::Complete),
    );
    assert!(matches!(r, Err(Error::NotFound { .. })));
    // The existing task is untouched.
    let after = tasks.get(&db, task.id).unwrap();
    assert_eq!(after.name, "t");
    assert_eq!(after.status, Status::Incomplete);
}

#[test]
fn partial_update_merges_the_omitted_field() {
    let (mut db, stories, tasks) = services();
    let story = stories.create(&mut db, "s".to_string()).unwrap();
    let task = tasks.create(&mut db, story.id, "old name".to_string()).unwrap();

    // Supply only the name: status is kept.
    let renamed = tasks
        .update(&mut db, task.id, Some("new name".to_string()), None)
        .unwrap();
    assert_eq!(renamed.name, "new name");
    assert_eq!(renamed.status, Status::Incomplete);

    // Supply only the status: name is kept.
    let completed = tasks
        .update(&mut db, task.id, None, Some(Status::Complete))
        .unwrap();
    assert_eq!(completed.name, "new name");
    assert_eq!(completed.status, Status::Complete);
}

#[test]
fn creating_task_under_missing_story_is_not_found() {
    let (mut db, _stories, tasks) = services();
    let r = tasks.create(&mut db, 77, "t".to_string());
    assert!(matches!(r, Err(Error::NotFound { .. })));
    assert!(db.tasks.is_empty());
}

#[test]
fn service_delete_cascades_and_is_not_found_for_missing() {
    let (mut db, stories, tasks) = services();
    let story = stories.create(&mut db, "s".to_string()).unwrap();
    let t1 = tasks.create(&mut db, story.id, "a".to_string()).unwrap();
    let t2 = tasks.create(&mut db, story.id, "b".to_string()).unwrap();

    stories.delete(&mut db, story.id).unwrap();
    assert!(matches!(
        stories.get(&db, story.id),
        Err(Error::NotFound { .. })
    ));
    for id in [t1.id, t2.id] {
        assert!(matches!(tasks.get(&db, id), Err(Error::NotFound { .. })));
    }

    let r = stories.delete(&mut db, story.id);
    assert!(matches!(r, Err(Error::NotFound { .. })));
}

#[test]
fn listing_tasks_of_missing_story_is_not_found() {
    let (db, _stories, tasks) = services();
    assert!(matches!(tasks.list(&db, 5), Err(Error::NotFound { .. })));
}

#[test]
fn service_list_pages_through_stories_with_tokens() {
    let (mut db, stories, _tasks) = services();
    for i in 0..7 {
        stories.create(&mut db, format!("story {}", i)).unwrap();
    }

    // First request: no token supplied, fall back to the newest.
    let cursor = PageToken::decode_or(&None, i32::MAX).unwrap();
    let (next, page) = stories.list(&db, cursor, 3).unwrap();
    assert_eq!(page.len(), 3);
    assert_eq!(page[0].name, "story 6");
    assert!(next > 0);
    for s in &page {
        assert!(s.seqno > next);
    }

    // Follow the opaque token to the second page.
    let token = PageToken::encode(next);
    let cursor = PageToken::decode_or(&token, i32::MAX).unwrap();
    let (next2, page2) = stories.list(&db, cursor, 3).unwrap();
    assert_eq!(page2.len(), 3);
    assert_eq!(page2[0].name, "story 3");

    // Third page is partial: no further pages, so no token.
    let token2 = PageToken::encode(next2);
    let cursor = PageToken::decode_or(&token2, i32::MAX).unwrap();
    let (next3, page3) = stories.list(&db, cursor, 3).unwrap();
    assert_eq!(page3.len(), 1);
    assert_eq!(page3[0].name, "story 0");
    assert_eq!(next3, 0);
    assert!(PageToken::encode(next3).is_none());
}

#[test]
fn update_story_renames_and_missing_story_is_not_found() {
    let (mut db, stories, _tasks) = services();
    let story = stories.create(&mut db, "Books To Read".to_string()).unwrap();
    let renamed = stories
        .update(&mut db, story.id, "Books".to_string())
        .unwrap();
    assert_eq!(renamed.name, "Books");
    assert_eq!(renamed.id, story.id);
    assert!(matches!(
        stories.update(&mut db, story.id + 9, "x".to_string()),
        Err(Error::NotFound { .. })
    ));
}
