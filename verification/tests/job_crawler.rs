use zeroresume::job_crawler::JobCrawler;
use zeroresume::models::{JobInfo, ResumeError};

fn create_crawler() -> JobCrawler {
    JobCrawler::new_in_memory().unwrap()
}

fn sample_job(platform: &str, title: &str) -> JobInfo {
    JobInfo {
        platform: platform.to_string(),
        job_title: title.to_string(),
        company_name: "测试公司".to_string(),
        jd_text: "负责前端开发".to_string(),
        salary_range: "15k-25k".to_string(),
        location: "北京".to_string(),
        skills_required: vec!["React".to_string(), "TypeScript".to_string()],
        experience_req: "3年".to_string(),
        education_req: "本科".to_string(),
    }
}

#[test]
fn save_and_retrieve_job() {
    let mut crawler = create_crawler();
    let info = sample_job("boss", "前端工程师");
    let saved = crawler.save_job(info).unwrap();

    assert!(saved.id > 0);
    assert_eq!(saved.platform, "boss");
    assert_eq!(saved.job_title, "前端工程师");
    assert_eq!(saved.skills_required, vec!["React", "TypeScript"]);
    assert!(!saved.is_expired);
}

#[test]
fn list_jobs_by_platform() {
    let mut crawler = create_crawler();
    crawler.save_job(sample_job("boss", "前端工程师")).unwrap();
    crawler.save_job(sample_job("boss", "后端工程师")).unwrap();
    crawler.save_job(sample_job("zhaopin", "全栈工程师")).unwrap();

    let boss_jobs = crawler.list_jobs(Some("boss")).unwrap();
    assert_eq!(boss_jobs.len(), 2);

    let all_jobs = crawler.list_jobs(None).unwrap();
    assert_eq!(all_jobs.len(), 3);
}

#[test]
fn mark_job_expired() {
    let mut crawler = create_crawler();
    let job = crawler.save_job(sample_job("boss", "前端工程师")).unwrap();

    crawler.mark_expired(job.id).unwrap();
    let retrieved = crawler.get_job(job.id).unwrap();
    assert!(retrieved.is_expired);

    let active_jobs = crawler.list_jobs(None).unwrap();
    assert_eq!(active_jobs.len(), 0);
}

#[test]
fn expire_old_jobs() {
    // A second connection to the same in-memory database moves the crawl
    // time back, as an older crawl would have stamped it.
    let uri = "file:expire_old_jobs_test?mode=memory&cache=shared";
    let flags = rusqlite::OpenFlags::SQLITE_OPEN_READ_WRITE
        | rusqlite::OpenFlags::SQLITE_OPEN_CREATE
        | rusqlite::OpenFlags::SQLITE_OPEN_URI;
    let conn = rusqlite::Connection::open_with_flags(uri, flags).unwrap();
    let mut crawler = JobCrawler::with_connection(conn).unwrap();
    crawler.save_job(sample_job("boss", "前端工程师")).unwrap();

    let other = rusqlite::Connection::open_with_flags(uri, flags).unwrap();
    other
        .execute("UPDATE jobs SET crawl_time = datetime('now', '-10 days') WHERE id = 1", [])
        .unwrap();

    let expired_count = crawler.expire_old_jobs(7).unwrap();
    assert_eq!(expired_count, 1);

    let active_jobs = crawler.list_jobs(None).unwrap();
    assert_eq!(active_jobs.len(), 0);
}

#[test]
fn integer_score_is_kept_as_real() {
    let mut crawler = create_crawler();
    let job = crawler.save_job(sample_job("boss", "前端工程师")).unwrap();
    crawler.update_match_score(job.id, rusqlite::types::Value::Integer(1), serde_json::Value::Null).unwrap();
    let updated = crawler.get_job(job.id).unwrap();
    assert_eq!(updated.match_score, Some(rusqlite::types::Value::Real(1.0)));
    assert_eq!(updated.score_details, Some(serde_json::Value::Null));
}

#[test]
fn saved_jobs_get_growing_ids() {
    let mut crawler = create_crawler();
    let a = crawler.save_job(sample_job("boss", "一")).unwrap();
    let b = crawler.save_job(sample_job("boss", "二")).unwrap();
    assert!(0 < a.id && a.id < b.id);
}

#[test]
fn update_match_score() {
    let mut crawler = create_crawler();
    let job = crawler.save_job(sample_job("boss", "前端工程师")).unwrap();

    let mut m = serde_json::Map::new();
    m.insert("skills".to_string(), serde_json::Value::from(0.9));
    m.insert("experience".to_string(), serde_json::Value::from(0.7));
    let details = serde_json::Value::Object(m);
    crawler.update_match_score(job.id, rusqlite::types::Value::Real(0.85), details).unwrap();

    let updated = crawler.get_job(job.id).unwrap();
    let score = match updated.match_score {
        Some(rusqlite::types::Value::Real(f)) => f,
        other => panic!("unexpected score {:?}", other),
    };
    assert!((score - 0.85).abs() < 0.001);
    assert_eq!(updated.score_details.as_ref().unwrap()["skills"], 0.9);
}

#[test]
fn get_job_not_found() {
    let crawler = create_crawler();
    let result = crawler.get_job(999);
    assert!(matches!(result, Err(ResumeError::NotFound(999))));
}

#[test]
fn fresh_jobs_are_not_old_enough_to_expire() {
    let mut crawler = create_crawler();
    crawler.save_job(sample_job("boss", "前端工程师")).unwrap();
    crawler.save_job(sample_job("boss", "后端工程师")).unwrap();
    assert_eq!(crawler.expire_old_jobs(7).unwrap(), 0);
    assert_eq!(crawler.list_jobs(None).unwrap().len(), 2);
}

#[test]
fn negative_age_is_no_valid_modifier_and_expires_nothing() {
    let mut crawler = create_crawler();
    crawler.save_job(sample_job("boss", "前端工程师")).unwrap();
    // "--1 days" is not a date modifier SQLite reads, so no crawl time is
    // older than it.
    assert_eq!(crawler.expire_old_jobs(-1).unwrap(), 0);
    assert_eq!(crawler.list_jobs(None).unwrap().len(), 1);
}

#[test]
fn zero_days_back_expires_only_older_jobs() {
    let mut crawler = create_crawler();
    crawler.save_job(sample_job("boss", "前端工程师")).unwrap();
    // A job stamped this second is not older than "now".
    assert!(crawler.expire_old_jobs(0).unwrap() <= 1);
    let a = crawler.save_job(sample_job("boss", "后端工程师")).unwrap();
    crawler.mark_expired(a.id).unwrap();
    assert_eq!(crawler.expire_old_jobs(36500).unwrap(), 0);
}

#[test]
fn mark_expired_not_found() {
    let mut crawler = create_crawler();
    assert!(matches!(crawler.mark_expired(42), Err(ResumeError::NotFound(42))));
}

#[test]
fn update_match_score_not_found() {
    let mut crawler = create_crawler();
    let result = crawler.update_match_score(7, rusqlite::types::Value::Real(0.5), serde_json::Value::Null);
    assert!(matches!(result, Err(ResumeError::NotFound(7))));
}

#[test]
fn new_job_has_no_score_yet() {
    let mut crawler = create_crawler();
    let job = crawler.save_job(sample_job("liepin", "测试")).unwrap();
    assert_eq!(job.match_score, None);
    assert!(job.score_details.is_none());
    assert_eq!(job.company_name, "测试公司");
    assert_eq!(job.salary_range, "15k-25k");
    assert_eq!(job.experience_req, "3年");
    assert_eq!(job.education_req, "本科");
    assert!(!job.crawl_time.is_empty());
}

#[test]
fn platform_listing_filters_and_skips_expired() {
    let mut crawler = create_crawler();
    let a = crawler.save_job(sample_job("boss", "一")).unwrap();
    crawler.save_job(sample_job("boss", "二")).unwrap();
    crawler.save_job(sample_job("lagou", "三")).unwrap();
    crawler.mark_expired(a.id).unwrap();
    let boss = crawler.list_jobs(Some("boss")).unwrap();
    assert_eq!(boss.len(), 1);
    assert_eq!(boss[0].job_title, "二");
    assert!(boss.iter().all(|j| j.platform == "boss" && !j.is_expired));
    assert_eq!(crawler.list_jobs(Some("nowhere")).unwrap().len(), 0);
    assert_eq!(crawler.list_jobs(None).unwrap().len(), 2);
}

#[test]
fn malformed_json_columns_read_as_defaults() {
    let uri = "file:malformed_json_columns_test?mode=memory&cache=shared";
    let flags = rusqlite::OpenFlags::SQLITE_OPEN_READ_WRITE
        | rusqlite::OpenFlags::SQLITE_OPEN_CREATE
        | rusqlite::OpenFlags::SQLITE_OPEN_URI;
    let conn = rusqlite::Connection::open_with_flags(uri, flags).unwrap();
    let mut crawler = JobCrawler::with_connection(conn).unwrap();
    let job = crawler.save_job(sample_job("boss", "前端工程师")).unwrap();

    let other = rusqlite::Connection::open_with_flags(uri, flags).unwrap();
    other
        .execute(
            "UPDATE jobs SET skills_required = 'not json', score_details = '{bad' WHERE id = ?1",
            [job.id],
        )
        .unwrap();

    let read = crawler.get_job(job.id).unwrap();
    assert!(read.skills_required.is_empty());
    assert!(read.score_details.is_none());
    assert_eq!(read.job_title, "前端工程师");
}
