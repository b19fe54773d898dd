use backlog::domain::Status;
use backlog::error::Error;
use backlog::repo::{Repo, TaskRepo};
use backlog::store::Store;

#[test]
fn story_integration_test() {
    // Set up an in-memory store backed repo
    let mut db = Store::new();
    let repo = Repo::new();

    // Create story
    let name = "Books To Read".to_string();
    let story = repo.create_story(&mut db, name.clone()).unwrap();
    assert_eq!(name, story.name);

    // Assert the story exists
    assert!(repo.story_exists(&db, story.id));

    // Query stories page
    let stories = repo.list_stories(&db, i32::MAX, 10).unwrap();
    assert_eq!(stories.len(), 1);

    // Update the name
    let updated_name = "Books".to_string();
    repo.update_story(&mut db, story.id, updated_name).unwrap();

    // Fetch and verify new name
    let story = repo.fetch_story(&db, story.id).unwrap();
    assert_eq!(story.name, "Books");

    // Delete the story
    let rows = repo.delete_story(&mut db, story.id).unwrap();
    assert_eq!(rows, 1);

    // Assert story was deleted
    assert!(!repo.story_exists(&db, story.id));
}

#[test]
fn task_integration_test() {
    // Set up an in-memory store backed repo
    let mut db = Store::new();
    let story_repo = Repo::new();

    // Set up repo under test
    let task_repo = TaskRepo::new();

    // Set up a story to put tasks under
    let name = "Books To Read".to_string();
    let story_id = story_repo.create_story(&mut db, name.clone()).unwrap().id;

    // Create task, ensuring status is incomplete
    let task = task_repo
        .create(&mut db, story_id, "Suttree".to_string())
        .unwrap();
    assert_eq!(task.status, Status::Incomplete);

    // Assert task exists
    assert!(task_repo.task_exists(&db, task.id));

    // Set task status to complete
    task_repo
        .update(&mut db, task.id, task.name, Status::Complete)
        .unwrap();

    // Fetch task and assert status was updated
    let task = task_repo.fetch(&db, task.id).unwrap();
    assert_eq!(task.status, Status::Complete);

    // Query tasks for story.
    let tasks = task_repo.list(&db, story_id).unwrap();
    assert_eq!(tasks.len(), 1);

    // Delete the task
    let rows = task_repo.delete(&mut db, task.id).unwrap();
    assert_eq!(rows, 1);

    // Assert task was deleted
    assert!(!task_repo.task_exists(&db, task.id));

    // Cleanup
    assert!(story_repo.delete_story(&mut db, story_id).unwrap() > 0);
}

#[test]
fn created_ids_are_unique_and_ordering_keys_increase() {
    let mut db = Store::new();
    let repo = Repo::new();
    let mut ids = Vec::new();
    let mut seqnos = Vec::new();
    for i in 0..20 {
        let story = repo
            .create_story(&mut db, format!("story {}", i))
            .unwrap();
        assert!(!ids.contains(&story.id));
        if let Some(last) = seqnos.last() {
            assert!(story.seqno > *last);
        }
        ids.push(story.id);
        seqnos.push(story.seqno);
    }
}

#[test]
fn task_ids_are_unique_against_prior_tasks() {
    let mut db = Store::new();
    let repo = Repo::new();
    let task_repo = TaskRepo::new();
    let sid = repo.create_story(&mut db, "s".to_string()).unwrap().id;
    let mut ids = Vec::new();
    for i in 0..10 {
        let t = task_repo
            .create(&mut db, sid, format!("task {}", i))
            .unwrap();
        assert!(!ids.contains(&t.id));
        ids.push(t.id);
    }
}

#[test]
fn pagination_is_bounded_descending_with_smaller_next_cursor() {
    let mut db = Store::new();
    let repo = Repo::new();
    for i in 0..25 {
        repo.create_story(&mut db, format!("story {}", i)).unwrap();
    }
    let page = repo.list_stories(&db, i32::MAX, 10).unwrap();
    assert_eq!(page.len(), 10);
    for w in page.windows(2) {
        assert!(w[0].seqno > w[1].seqno);
    }
    // Resume one below the smallest ordering key of the page.
    let next = page.last().unwrap().seqno - 1;
    for s in &page {
        assert!(s.seqno > next);
    }
    let second = repo.list_stories(&db, next, 10).unwrap();
    assert_eq!(second.len(), 10);
    // No overlap between consecutive pages.
    for s in &second {
        assert!(s.seqno <= next);
        assert!(!page.iter().any(|p| p.id == s.id));
    }
    // Last partial page.
    let next2 = second.last().unwrap().seqno - 1;
    let third = repo.list_stories(&db, next2, 10).unwrap();
    assert_eq!(third.len(), 5);
}

#[test]
fn page_size_caps_the_rows_returned() {
    let mut db = Store::new();
    let repo = Repo::new();
    for i in 0..4 {
        repo.create_story(&mut db, format!("s{}", i)).unwrap();
    }
    assert_eq!(repo.list_stories(&db, i32::MAX, 2).unwrap().len(), 2);
    assert_eq!(repo.list_stories(&db, i32::MAX, 10).unwrap().len(), 4);
    assert_eq!(repo.list_stories(&db, i32::MAX, 0).unwrap().len(), 0);
}

#[test]
fn cascading_delete_removes_story_and_all_its_tasks() {
    let mut db = Store::new();
    let repo = Repo::new();
    let task_repo = TaskRepo::new();
    let keep = repo.create_story(&mut db, "keep".to_string()).unwrap();
    let doomed = repo.create_story(&mut db, "doomed".to_string()).unwrap();
    let kept_task = task_repo
        .create(&mut db, keep.id, "survives".to_string())
        .unwrap();
    let mut doomed_tasks = Vec::new();
    for i in 0..3 {
        let t = task_repo
            .create(&mut db, doomed.id, format!("t{}", i))
            .unwrap();
        doomed_tasks.push(t);
    }

    let rows = repo.delete_story(&mut db, doomed.id).unwrap();
    assert_eq!(rows, 1);

    // The story itself is not found.
    assert!(matches!(
        repo.fetch_story(&db, doomed.id),
        Err(Error::NotFound { .. })
    ));
    // Every one of its tasks yields not-found.
    for t in &doomed_tasks {
        assert!(matches!(
            task_repo.fetch(&db, t.id),
            Err(Error::NotFound { .. })
        ));
    }
    // The other story and its task are untouched.
    assert!(repo.story_exists(&db, keep.id));
    assert!(task_repo.task_exists(&db, kept_task.id));
}

#[test]
fn delete_missing_story_affects_zero_rows() {
    let mut db = Store::new();
    let repo = Repo::new();
    assert_eq!(repo.delete_story(&mut db, 12345).unwrap(), 0);
}

#[test]
fn repo_update_missing_rows_is_not_found() {
    let mut db = Store::new();
    let repo = Repo::new();
    let task_repo = TaskRepo::new();
    assert!(matches!(
        repo.update_story(&mut db, 9, "x".to_string()),
        Err(Error::NotFound { .. })
    ));
    assert!(matches!(
        task_repo.update(&mut db, 9, "x".to_string(), Status::Complete),
        Err(Error::NotFound { .. })
    ));
}

#[test]
fn task_create_under_missing_story_is_internal_error() {
    let mut db = Store::new();
    let task_repo = TaskRepo::new();
    assert!(matches!(
        task_repo.create(&mut db, 42, "orphan".to_string()),
        Err(Error::Internal { .. })
    ));
    assert!(db.tasks.is_empty());
}
