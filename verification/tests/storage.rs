use rustiq::{Job, JobStatus, MockStorage, RustiqError};
use serde_json::Value;

fn json(text: &str) -> Value {
    serde_json::from_str(text).unwrap()
}

#[test]
fn test_mock_storage_save_and_get() {
    let mut storage = MockStorage::new();
    let job = Job::new("test-queue", json(r#"{"payload": 123}"#));
    let id = job.id;

    // Verify get returns None initially
    let get_init = storage.get_job(id).unwrap();
    assert!(get_init.is_none());

    // Save and verify get returns job
    storage.save_job(&job).unwrap();
    let get_after = storage.get_job(id).unwrap().unwrap();
    assert_eq!(get_after.id, id);
    assert_eq!(get_after.queue, "test-queue");
}

#[test]
fn test_mock_storage_delete() {
    let mut storage = MockStorage::new();
    let job = Job::new("test-queue", json("{}"));
    let id = job.id;

    storage.save_job(&job).unwrap();
    storage.delete_job(id).unwrap();

    assert!(storage.get_job(id).unwrap().is_none());

    let err = storage.delete_job(id).unwrap_err();
    match err {
        RustiqError::JobNotFound(err_id) => assert_eq!(err_id, id),
        _ => panic!("Expected JobNotFound error"),
    }
}

#[test]
fn test_mock_storage_update_status() {
    let mut storage = MockStorage::new();
    let job = Job::new("test-queue", json("{}"));
    let id = job.id;

    storage.save_job(&job).unwrap();
    storage.update_job_status(id, JobStatus::Processing).unwrap();

    let updated_job = storage.get_job(id).unwrap().unwrap();
    assert_eq!(updated_job.status, JobStatus::Processing);

    let random_id = uuid::Uuid::new_v4().as_u128();
    let err = storage.update_job_status(random_id, JobStatus::Done).unwrap_err();
    match err {
        RustiqError::JobNotFound(err_id) => assert_eq!(err_id, random_id),
        _ => panic!("Expected JobNotFound error"),
    }
}

#[test]
fn test_mock_storage_get_jobs_by_queue() {
    let mut storage = MockStorage::new();
    let job1 = Job::new("queue-a", json("{}"));
    let job2 = Job::new("queue-a", json("{}"));
    let job3 = Job::new("queue-b", json("{}"));

    storage.save_job(&job1).unwrap();
    storage.save_job(&job2).unwrap();
    storage.save_job(&job3).unwrap();

    let jobs_a = storage.get_jobs_by_queue("queue-a").unwrap();
    assert_eq!(jobs_a.len(), 2);
    assert!(jobs_a.iter().any(|j| j.id == job1.id));
    assert!(jobs_a.iter().any(|j| j.id == job2.id));

    let jobs_b = storage.get_jobs_by_queue("queue-b").unwrap();
    assert_eq!(jobs_b.len(), 1);
    assert_eq!(jobs_b[0].id, job3.id);

    let jobs_c = storage.get_jobs_by_queue("queue-c").unwrap();
    assert!(jobs_c.is_empty());
}

#[test]
fn test_mock_storage_get_all_jobs() {
    let mut storage = MockStorage::new();
    let job1 = Job::new("queue-a", json("{}"));
    let job2 = Job::new("queue-b", json("{}"));

    storage.save_job(&job1).unwrap();
    storage.save_job(&job2).unwrap();

    let all = storage.get_all_jobs().unwrap();
    assert_eq!(all.len(), 2);
    assert!(all.iter().any(|j| j.id == job1.id));
    assert!(all.iter().any(|j| j.id == job2.id));
}

#[test]
fn test_mock_storage_clear_queue() {
    let mut storage = MockStorage::new();
    let job1 = Job::new("queue-a", json("{}"));
    let job2 = Job::new("queue-a", json("{}"));
    let job3 = Job::new("queue-b", json("{}"));

    storage.save_job(&job1).unwrap();
    storage.save_job(&job2).unwrap();
    storage.save_job(&job3).unwrap();

    storage.clear_queue("queue-a").unwrap();

    let jobs_a = storage.get_jobs_by_queue("queue-a").unwrap();
    assert!(jobs_a.is_empty());

    let jobs_b = storage.get_jobs_by_queue("queue-b").unwrap();
    assert_eq!(jobs_b.len(), 1);
    assert_eq!(jobs_b[0].id, job3.id);
}

#[test]
fn default_storage_is_empty() {
    let storage = MockStorage::default();
    assert!(storage.get_all_jobs().unwrap().is_empty());
}

#[test]
fn get_returns_the_saved_job_whole() {
    let mut storage = MockStorage::new();
    let mut job = Job::new("mail", json(r#"{"to": "a@b.c"}"#));
    job.priority = 7;
    job.result = Some(json("[1, 2]"));
    job.error = Some("boom".to_string());
    storage.save_job(&job).unwrap();
    let back = storage.get_job(job.id).unwrap().unwrap();
    assert_eq!(back.priority, 7);
    assert_eq!(back.payload, json(r#"{"to": "a@b.c"}"#));
    assert_eq!(back.result, Some(json("[1, 2]")));
    assert_eq!(back.error, Some("boom".to_string()));
    assert_eq!(back.created_at, job.created_at);
}

#[test]
fn save_replaces_job_with_same_id() {
    let mut storage = MockStorage::new();
    let mut job = Job::new("q", json("{}"));
    storage.save_job(&job).unwrap();
    job.retry_count = 2;
    storage.save_job(&job).unwrap();
    assert_eq!(storage.get_all_jobs().unwrap().len(), 1);
    assert_eq!(storage.get_job(job.id).unwrap().unwrap().retry_count, 2);
}

#[test]
fn status_update_keeps_other_fields_and_jobs() {
    let mut storage = MockStorage::new();
    let job = Job::new("q", json(r#"{"n": 1}"#));
    let other = Job::new("q", json("{}"));
    storage.save_job(&job).unwrap();
    storage.save_job(&other).unwrap();
    storage.update_job_status(job.id, JobStatus::Failed).unwrap();
    let back = storage.get_job(job.id).unwrap().unwrap();
    assert_eq!(back.status, JobStatus::Failed);
    assert_eq!(back.payload, json(r#"{"n": 1}"#));
    assert_eq!(back.queue, "q");
    assert_eq!(storage.get_job(other.id).unwrap().unwrap().status, JobStatus::Queued);
}

#[test]
fn delete_leaves_other_jobs() {
    let mut storage = MockStorage::new();
    let a = Job::new("q", json("{}"));
    let b = Job::new("q", json("{}"));
    storage.save_job(&a).unwrap();
    storage.save_job(&b).unwrap();
    storage.delete_job(a.id).unwrap();
    assert!(storage.get_job(a.id).unwrap().is_none());
    assert_eq!(storage.get_job(b.id).unwrap().unwrap().id, b.id);
}

#[test]
fn all_jobs_has_one_entry_per_job() {
    let mut storage = MockStorage::new();
    for _ in 0..5 {
        storage.save_job(&Job::new("q", json("{}"))).unwrap();
    }
    let all = storage.get_all_jobs().unwrap();
    assert_eq!(all.len(), 5);
    for i in 0..all.len() {
        for j in (i + 1)..all.len() {
            assert_ne!(all[i].id, all[j].id);
        }
    }
}

#[test]
fn clearing_a_missing_queue_keeps_everything() {
    let mut storage = MockStorage::new();
    let a = Job::new("queue-a", json("{}"));
    storage.save_job(&a).unwrap();
    storage.clear_queue("nope").unwrap();
    assert_eq!(storage.get_all_jobs().unwrap().len(), 1);
}

#[test]
fn queue_listing_is_the_full_listing_filtered() {
    let mut storage = MockStorage::new();
    for q in ["a", "b", "a", "c", "a"] {
        storage.save_job(&Job::new(q, json("{}"))).unwrap();
    }
    let all = storage.get_all_jobs().unwrap();
    let mut filtered: Vec<u128> = all.iter().filter(|j| j.queue == "a").map(|j| j.id).collect();
    let mut listed: Vec<u128> = storage.get_jobs_by_queue("a").unwrap().iter().map(|j| j.id).collect();
    filtered.sort();
    listed.sort();
    assert_eq!(filtered.len(), 3);
    assert_eq!(filtered, listed);
}
