//! The store of crawled job postings: saving them, listing the ones still
//! open, expiring them, and recording match scores.
use vstd::prelude::*;
use rusqlite::Connection;
use crate::json::{
    decode_strings, json_of_strings, json_text_of_value, json_to_value, strings_of_json, strings_or_empty, value_of_json,
    value_to_json, views,
};
use crate::models::{Job, JobInfo, JobRow, JobView, ResumeError};
use crate::store::{
    DbView, StoredJob, aged, create_job_table, db_view, expire_aged, expire_jobs_before, holds_all,
    insert_job, inserted_fresh, is_empty_db, kept_ids, last_insert_rowid, score_column_value, sqlite_datetime, law_narrower_listing_within, lists_exactly,
    mark_job_expired, open_in_memory, select_active_jobs, select_active_jobs_on, select_job, text_lt,
    update_job_score,
};
use crate::text::{decimal, push_signed_decimal, signed_decimal};

verus! {

/// The job `get_job` reads from a stored row `row` with id `id`: the skills
/// list decoded (empty when its text does not read as JSON), the match
/// score as stored, the score details its text reads as (none when the text
/// is missing or does not parse), and expired when the flag is not zero.
pub open spec fn job_view_of(id: i64, row: JobRow) -> JobView {
    JobView {
        id,
        platform: row.platform,
        job_title: row.job_title,
        company_name: row.company_name,
        jd_text: row.jd_text,
        salary_range: row.salary_range,
        location: row.location,
        skills_required: decode_strings(row.skills_json),
        experience_req: row.experience_req,
        education_req: row.education_req,
        match_score: row.match_score,
        score_details: match row.score_details_json {
            Some(t) => value_of_json(t),
            None => None,
        },
        crawl_time: row.crawl_time,
        is_expired: row.is_expired != 0,
    }
}

/// The job `get_job(id)` reads from the database `d`, if the id is there.
pub open spec fn read_job(d: DbView, id: i64) -> Option<JobView> {
    if d.jobs.contains_key(id) {
        Some(job_view_of(id, d.jobs[id]))
    } else {
        None
    }
}

/// The stored columns for the posting `info`, crawled at `crawl_time`, with
/// no match score, not expired.
pub open spec fn job_row_of(info: JobInfo, crawl_time: Seq<char>) -> JobRow {
    JobRow {
        platform: info.platform@,
        job_title: info.job_title@,
        company_name: info.company_name@,
        jd_text: info.jd_text@,
        salary_range: info.salary_range@,
        location: info.location@,
        skills_json: json_of_strings(views(info.skills_required@)),
        experience_req: info.experience_req@,
        education_req: info.education_req@,
        match_score: None,
        score_details_json: None,
        crawl_time,
        is_expired: 0,
    }
}

/// Which stored jobs `list_jobs(platform)` lists: those not expired, and of
/// the platform when one is given.
pub open spec fn listed(platform: Option<Seq<char>>) -> spec_fn(JobRow) -> bool {
    |row: JobRow| row.is_expired == 0 && match platform {
        Some(p) => row.platform == p,
        None => true,
    }
}

/// `jobs` lists, once each, exactly the stored jobs of `table` that `keep`
/// selects, each as `get_job` reads it, latest crawl time first.
pub open spec fn lists_jobs(jobs: Seq<JobView>, table: Map<i64, JobRow>, keep: spec_fn(JobRow) -> bool) -> bool {
    &&& forall|i: int| 0 <= i < jobs.len() ==> {
        &&& table.contains_key(#[trigger] jobs[i].id)
        &&& jobs[i] == job_view_of(jobs[i].id, table[jobs[i].id])
        &&& keep(table[jobs[i].id])
    }
    &&& forall|i: int, j: int| 0 <= i < j < jobs.len() ==> #[trigger] jobs[i].id != #[trigger] jobs[j].id
    &&& forall|id: i64| #[trigger] table.contains_key(id) && keep(table[id]) ==>
        exists|i: int| 0 <= i < jobs.len() && #[trigger] jobs[i].id == id
    &&& forall|i: int, j: int| 0 <= i < j < jobs.len() ==> !text_lt(#[trigger] jobs[i].crawl_time, #[trigger] jobs[j].crawl_time)
}

/// The date modifier that reaches `days` days back: `-<days> days`.
pub open spec fn days_back(days: i64) -> Seq<char> {
    seq!['-'] + signed_decimal(days as int) + " days"@
}

/// The store of crawled job postings: a SQLite database holding the jobs table.
pub struct JobCrawler {
    conn: Connection,
}

impl View for JobCrawler {
    type V = DbView;

    closed spec fn view(&self) -> DbView {
        db_view(self.conn)
    }
}

/// The date modifier that reaches `days` days back.
fn days_back_modifier(days: i64) -> (r: String)
    ensures
        r@ == days_back(days),
{
    let mut r = String::new();
    r.append("-");
    push_signed_decimal(&mut r, days);
    r.append(" days");
    proof {
        reveal_strlit("-");
    }
    assert(r@ =~= days_back(days));
    r
}

/// The job a stored row reads as.
fn row_to_job(row: StoredJob) -> (j: Job)
    ensures
        j@ == job_view_of(row.id, row.row()),
{
    let skills_required = strings_or_empty(row.skills_json.as_str());
    let score_details = match row.score_details_json {
        Some(t) => match json_to_value(t.as_str()) {
            Ok(v) => Some(v),
            Err(_) => None,
        },
        None => None,
    };
    Job {
        id: row.id,
        platform: row.platform,
        job_title: row.job_title,
        company_name: row.company_name,
        jd_text: row.jd_text,
        salary_range: row.salary_range,
        location: row.location,
        skills_required,
        experience_req: row.experience_req,
        education_req: row.education_req,
        match_score: row.match_score,
        score_details,
        crawl_time: row.crawl_time,
        is_expired: row.is_expired != 0,
    }
}

/// The jobs stored rows read as, in the same order.
fn rows_to_jobs(rows: Vec<StoredJob>, Ghost(table): Ghost<Map<i64, JobRow>>, Ghost(keep): Ghost<spec_fn(JobRow) -> bool>) -> (r: Vec<Job>)
    requires
        lists_exactly(rows@.map_values(|j: StoredJob| (j.id, j.row())), table, keep),
        forall|i: int, j: int| 0 <= i < j < rows@.len() ==> !text_lt(#[trigger] rows@[i].crawl_time@, #[trigger] rows@[j].crawl_time@),
    ensures
        lists_jobs(r@.map_values(|j: Job| j@), table, keep),
{
    let ghost pairs = rows@.map_values(|j: StoredJob| (j.id, j.row()));
    let ghost n = rows@.len();
    let ghost orig = rows@;
    let mut rows = rows;
    let mut out: Vec<Job> = Vec::new();
    let mut rest: Vec<Job> = Vec::new();
    // Take the rows from the back, then restore their order.
    while rows.len() > 0
        invariant
            orig.len() == n,
            pairs == orig.map_values(|j: StoredJob| (j.id, j.row())),
            rows@.len() + rest@.len() == n,
            forall|k: int| 0 <= k < rows@.len() ==> #[trigger] rows@[k] == orig[k],
            forall|k: int| 0 <= k < rest@.len() ==>
                #[trigger] rest@[k]@ == job_view_of(pairs[n - 1 - k].0, pairs[n - 1 - k].1),
        decreases rows@.len(),
    {
        let row = rows.pop().unwrap();
        let job = row_to_job(row);
        rest.push(job);
    }
    while rest.len() > 0
        invariant
            pairs.len() == n,
            out@.len() + rest@.len() == n,
            forall|k: int| 0 <= k < rest@.len() ==>
                #[trigger] rest@[k]@ == job_view_of(pairs[n - 1 - k].0, pairs[n - 1 - k].1),
            forall|k: int| 0 <= k < out@.len() ==> #[trigger] out@[k]@ == job_view_of(pairs[k].0, pairs[k].1),
        decreases rest@.len(),
    {
        let job = rest.pop().unwrap();
        out.push(job);
    }
    let ghost views = out@.map_values(|j: Job| j@);
    assert forall|i: int| 0 <= i < views.len() implies views[i].id == pairs[i].0 by {}
    assert forall|id: i64| #[trigger] table.contains_key(id) && keep(table[id]) implies
        exists|i: int| 0 <= i < views.len() && #[trigger] views[i].id == id by {
        let i = choose|i: int| 0 <= i < pairs.len() && #[trigger] pairs[i].0 == id;
        assert(views[i].id == id);
    }
    assert forall|i: int, j: int| 0 <= i < j < views.len() implies !text_lt(#[trigger] views[i].crawl_time, #[trigger] views[j].crawl_time) by {
        assert(views[i].crawl_time == orig[i].crawl_time@);
        assert(views[j].crawl_time == orig[j].crawl_time@);
    }
    out
}

impl JobCrawler {
    /// A job store over an already open database, whose jobs table is created
    /// if it is missing; the rows already there are kept.
    ///
    /// The store takes the connection over: its contracts hold while no other
    /// connection writes the same database.
    pub fn with_connection(conn: Connection) -> (r: Result<JobCrawler, ResumeError>)
        ensures
            match r {
                Ok(c) => c@ == db_view(conn),
                Err(ResumeError::Database(_)) => true,
                Err(_) => false,
            },
    {
        let mut conn = conn;
        match create_job_table(&mut conn) {
            Ok(()) => Ok(JobCrawler { conn }),
            Err(e) => Err(ResumeError::Database(e)),
        }
    }

    /// A job store over a new database held in memory, with no rows.
    pub fn new_in_memory() -> (r: Result<JobCrawler, ResumeError>)
        ensures
            match r {
                Ok(c) => is_empty_db(c@),
                Err(ResumeError::Database(_)) => true,
                Err(_) => false,
            },
    {
        match open_in_memory() {
            Ok(conn) => JobCrawler::with_connection(conn),
            Err(e) => Err(ResumeError::Database(e)),
        }
    }

    /// Stores a crawled posting, not expired and with no match score, and
    /// returns it as read back, with the id it was given (positive and above
    /// every id of a stored job) and the crawl time the database stamped on
    /// it. Nothing else changes. After a database error either nothing has
    /// changed or the posting was stored and could not be read back.
    pub fn save_job(&mut self, info: JobInfo) -> (r: Result<Job, ResumeError>)
        ensures
            match r {
                Ok(j) => {
                    &&& inserted_fresh(old(self)@.jobs, final(self)@.jobs, j.id, job_row_of(info, j.crawl_time@))
                    &&& final(self)@ == (DbView { jobs: final(self)@.jobs, ..old(self)@ })
                    &&& j@ == (JobView {
                        id: j.id,
                        platform: info.platform@,
                        job_title: info.job_title@,
                        company_name: info.company_name@,
                        jd_text: info.jd_text@,
                        salary_range: info.salary_range@,
                        location: info.location@,
                        skills_required: views(info.skills_required@),
                        experience_req: info.experience_req@,
                        education_req: info.education_req@,
                        match_score: None,
                        score_details: None,
                        crawl_time: j.crawl_time@,
                        is_expired: false,
                    })
                },
                Err(ResumeError::Database(_)) => final(self)@ == old(self)@ || (
                    final(self)@ == (DbView { jobs: final(self)@.jobs, ..old(self)@ })
                    && exists|id: i64, t: Seq<char>| #[trigger] inserted_fresh(old(self)@.jobs, final(self)@.jobs, id, job_row_of(info, t))),
                Err(_) => false,
            },
    {
        let skills_json = match info.skills_json() {
            Ok(t) => t,
            Err(e) => return Err(ResumeError::Serialization(e)),
        };
        match insert_job(
            &mut self.conn,
            info.platform.as_str(),
            info.job_title.as_str(),
            info.company_name.as_str(),
            info.jd_text.as_str(),
            info.salary_range.as_str(),
            info.location.as_str(),
            skills_json.as_str(),
            info.experience_req.as_str(),
            info.education_req.as_str(),
        ) {
            Ok(_) => {},
            Err(e) => return Err(ResumeError::Database(e)),
        }
        let id = last_insert_rowid(&self.conn);
        let ghost ct = self@.jobs[id].crawl_time;
        assert(self@.jobs[id] == job_row_of(info, ct));
        match self.get_job(id) {
            Ok(j) => {
                assert(j@.crawl_time == ct);
                assert(j@.skills_required == views(info.skills_required@));
                Ok(j)
            },
            Err(e) => {
                assert(inserted_fresh(old(self)@.jobs, self@.jobs, id, job_row_of(info, ct)));
                Err(e)
            },
        }
    }

    /// The job with id `id`, or `NotFound(id)` if there is none. A skills
    /// list that does not read as JSON comes back empty, and score details
    /// that do not parse come back as `None`.
    pub fn get_job(&self, id: i64) -> (r: Result<Job, ResumeError>)
        ensures
            match r {
                Ok(j) => read_job(self@, id) == Some(j@),
                Err(ResumeError::NotFound(x)) => x == id && read_job(self@, id) is None,
                Err(ResumeError::Database(_)) => true,
                Err(ResumeError::Serialization(_)) => false,
            },
    {
        match select_job(&self.conn, id) {
            Ok(Some(row)) => Ok(row_to_job(row)),
            Ok(None) => Err(ResumeError::NotFound(id)),
            Err(e) => Err(ResumeError::Database(e)),
        }
    }

    /// The jobs not expired, of the platform `platform` when one is given,
    /// each once, latest crawl time first.
    pub fn list_jobs(&self, platform: Option<&str>) -> (r: Result<Vec<Job>, ResumeError>)
        ensures
            match r {
                Ok(v) => lists_jobs(
                    v@.map_values(|j: Job| j@),
                    self@.jobs,
                    listed(match platform {
                        Some(p) => Some(p@),
                        None => None,
                    }),
                ),
                Err(ResumeError::Database(_)) => true,
                Err(_) => false,
            },
    {
        let ghost keep = listed(match platform {
            Some(p) => Some(p@),
            None => None,
        });
        let rows = match platform {
            Some(p) => {
                let rows = select_active_jobs_on(&self.conn, p);
                assert(keep =~= |row: JobRow| row.is_expired == 0 && row.platform == p@);
                rows
            },
            None => {
                let rows = select_active_jobs(&self.conn);
                assert(keep =~= |row: JobRow| row.is_expired == 0);
                rows
            },
        };
        match rows {
            Ok(rows) => Ok(rows_to_jobs(rows, Ghost(self@.jobs), Ghost(keep))),
            Err(e) => Err(ResumeError::Database(e)),
        }
    }

    /// Marks the job `id` expired, or answers `NotFound(id)` with nothing
    /// changed if there is none.
    pub fn mark_expired(&mut self, id: i64) -> (r: Result<(), ResumeError>)
        ensures
            match r {
                Ok(()) => old(self)@.jobs.contains_key(id) && final(self)@ == (DbView {
                    jobs: old(self)@.jobs.insert(id, JobRow { is_expired: 1, ..old(self)@.jobs[id] }),
                    ..old(self)@
                }),
                Err(ResumeError::NotFound(x)) => x == id && !old(self)@.jobs.contains_key(id)
                    && final(self)@ == old(self)@,
                Err(ResumeError::Database(_)) => final(self)@ == old(self)@,
                Err(ResumeError::Serialization(_)) => false,
            },
    {
        let rows = match mark_job_expired(&mut self.conn, id) {
            Ok(n) => n,
            Err(e) => return Err(ResumeError::Database(e)),
        };
        if rows == 0 {
            return Err(ResumeError::NotFound(id));
        }
        Ok(())
    }

    /// Marks expired the jobs not yet expired that were crawled more than
    /// `days` days ago, and returns how many it marked. The cutoff is what
    /// SQLite's `datetime` makes of the clock, read once for the whole call,
    /// and the modifier `-<days> days` (none when SQLite cannot form it):
    /// exactly the open jobs whose crawl time sorts before it become expired,
    /// nothing else changes, and the count is the number of those jobs.
    pub fn expire_old_jobs(&mut self, days: i64) -> (r: Result<usize, ResumeError>)
        ensures
            match r {
                Ok(n) => {
                    &&& old(self)@.jobs.dom().finite()
                    &&& exists|now: int| {
                        &&& #[trigger] expire_aged(old(self)@.jobs, sqlite_datetime(now, days_back(days))) == final(self)@.jobs
                        &&& n == kept_ids(old(self)@.jobs, aged(sqlite_datetime(now, days_back(days)))).len()
                    }
                    &&& final(self)@ == (DbView { jobs: final(self)@.jobs, ..old(self)@ })
                },
                Err(ResumeError::Database(_)) => final(self)@ == old(self)@,
                Err(_) => false,
            },
    {
        let modifier = days_back_modifier(days);
        match expire_jobs_before(&mut self.conn, modifier.as_str()) {
            Ok(n) => Ok(n),
            Err(e) => Err(ResumeError::Database(e)),
        }
    }

    /// Records the match score `score` of the job `id` and its details, or
    /// answers `NotFound(id)` with nothing changed if there is none. The job
    /// then holds the score as its `REAL` column keeps it
    /// (`score_column_value`) and the details as JSON text.
    pub fn update_match_score(&mut self, id: i64, score: rusqlite::types::Value, details: serde_json::Value) -> (r: Result<(), ResumeError>)
        ensures
            match r {
                Ok(()) => {
                    &&& old(self)@.jobs.contains_key(id)
                    &&& final(self)@ == (DbView {
                        jobs: old(self)@.jobs.insert(id, JobRow {
                            match_score: score_column_value(score),
                            score_details_json: Some(json_text_of_value(details)),
                            ..old(self)@.jobs[id]
                        }),
                        ..old(self)@
                    })
                },
                Err(ResumeError::NotFound(x)) => x == id && !old(self)@.jobs.contains_key(id)
                    && final(self)@ == old(self)@,
                Err(ResumeError::Database(_)) => final(self)@ == old(self)@,
                Err(ResumeError::Serialization(_)) => false,
            },
    {
        let details_json = match value_to_json(&details) {
            Ok(t) => t,
            Err(e) => return Err(ResumeError::Serialization(e)),
        };
        let rows = match update_job_score(&mut self.conn, id, &score, details_json.as_str()) {
            Ok(n) => n,
            Err(e) => return Err(ResumeError::Database(e)),
        };
        if rows == 0 {
            return Err(ResumeError::NotFound(id));
        }
        Ok(())
    }
}

/// Law: a job read back right after it was saved holds what was crawled,
/// has no match score and is not expired, and every other job reads as before. The premise on
/// the JSON text is what `save_job` guarantees of the text it stores.
pub proof fn law_saved_job_reads_back(before: DbView, id: i64, info: JobInfo, crawl_time: Seq<char>)
    requires
        !before.jobs.contains_key(id),
        strings_of_json(job_row_of(info, crawl_time).skills_json) == Some(views(info.skills_required@)),
    ensures
        ({
            let after = DbView { jobs: before.jobs.insert(id, job_row_of(info, crawl_time)), ..before };
            &&& read_job(after, id) == Some(JobView {
                id,
                platform: info.platform@,
                job_title: info.job_title@,
                company_name: info.company_name@,
                jd_text: info.jd_text@,
                salary_range: info.salary_range@,
                location: info.location@,
                skills_required: views(info.skills_required@),
                experience_req: info.experience_req@,
                education_req: info.education_req@,
                match_score: None,
                score_details: None,
                crawl_time,
                is_expired: false,
            })
            &&& forall|other: i64| other != id ==> #[trigger] read_job(after, other) == read_job(before, other)
        }),
{
}

/// Law: once a job is marked expired it reads as expired and no listing of
/// open jobs, for any platform or for all, holds it.
pub proof fn law_expired_job_is_not_listed(before: DbView, id: i64, platform: Option<Seq<char>>, listing: Seq<JobView>)
    requires
        before.jobs.contains_key(id),
        lists_jobs(listing, before.jobs.insert(id, JobRow { is_expired: 1, ..before.jobs[id] }), listed(platform)),
    ensures
        read_job(DbView { jobs: before.jobs.insert(id, JobRow { is_expired: 1, ..before.jobs[id] }), ..before }, id)
            matches Some(v) && v.is_expired,
        forall|i: int| 0 <= i < listing.len() ==> #[trigger] listing[i].id != id,
{
    let t = before.jobs.insert(id, JobRow { is_expired: 1, ..before.jobs[id] });
    assert forall|i: int| 0 <= i < listing.len() implies #[trigger] listing[i].id != id by {
        if listing[i].id == id {
            assert(listed(platform)(t[id]));
        }
    }
}

/// `after` is the job `before` read as, possibly closed since; a job absent
/// before is absent after.
pub open spec fn closed_or_same(before: Option<JobView>, after: Option<JobView>) -> bool {
    match (before, after) {
        (Some(w), Some(v)) => v == (JobView { is_expired: v.is_expired, ..w }) && (w.is_expired ==> v.is_expired),
        (None, None) => true,
        _ => false,
    }
}

/// Law: expiring old jobs never revives an expired job nor touches any other
/// column, expires every open job crawled before the cutoff, and marks no
/// more jobs than were open.
pub proof fn law_expiry_only_closes_open_jobs(before: DbView, cutoff: Option<Seq<char>>, n: nat)
    requires
        before.jobs.dom().finite(),
        n == kept_ids(before.jobs, aged(cutoff)).len(),
    ensures
        ({
            let after = DbView { jobs: expire_aged(before.jobs, cutoff), ..before };
            &&& forall|id: i64| #[trigger] read_job(before, id) matches Some(v) && v.is_expired ==> read_job(after, id) == read_job(before, id)
            &&& forall|id: i64| #[trigger] closed_or_same(read_job(before, id), read_job(after, id))
            &&& forall|id: i64| #[trigger] before.jobs.contains_key(id) && aged(cutoff)(before.jobs[id]) ==> (read_job(after, id) matches Some(v) && v.is_expired)
            &&& n <= kept_ids(before.jobs, listed(None)).len()
        }),
{
    let after = DbView { jobs: expire_aged(before.jobs, cutoff), ..before };
    let changed = kept_ids(before.jobs, aged(cutoff));
    let open = kept_ids(before.jobs, listed(None));
    assert(open =~= before.jobs.dom().filter(|id: i64| before.jobs[id].is_expired == 0));
    assert(changed.subset_of(open));
    vstd::set_lib::lemma_len_subset(changed, open);
    assert forall|id: i64| #[trigger] closed_or_same(read_job(before, id), read_job(after, id)) by {
        if before.jobs.contains_key(id) {
            assert(after.jobs.contains_key(id));
        }
    }
}

/// Law: a job read back right after its match score was recorded holds the
/// score as its column keeps it and the details its JSON text reads back as,
/// and is otherwise as before; every other job reads as before.
pub proof fn law_recorded_score_reads_back(before: DbView, id: i64, score: rusqlite::types::Value, details: serde_json::Value)
    requires
        before.jobs.contains_key(id),
    ensures
        ({
            let after = DbView {
                jobs: before.jobs.insert(id, JobRow {
                    match_score: score_column_value(score),
                    score_details_json: Some(json_text_of_value(details)),
                    ..before.jobs[id]
                }),
                ..before
            };
            &&& read_job(after, id) == Some(JobView {
                match_score: score_column_value(score),
                score_details: value_of_json(json_text_of_value(details)),
                ..job_view_of(id, before.jobs[id])
            })
            &&& forall|other: i64| other != id ==> #[trigger] read_job(after, other) == read_job(before, other)
        }),
{
}

/// Law: the open jobs listed for one platform are among the open jobs
/// listed for all platforms, and are no more of them.
pub proof fn law_platform_listing_within_all(
    on_platform: Seq<JobView>,
    all: Seq<JobView>,
    table: Map<i64, JobRow>,
    platform: Seq<char>,
)
    requires
        lists_jobs(on_platform, table, listed(Some(platform))),
        lists_jobs(all, table, listed(None)),
    ensures
        on_platform.len() <= all.len(),
        holds_all(all, on_platform),
{
    let pn = on_platform.map_values(|v: JobView| (v.id, table[v.id]));
    let pa = all.map_values(|v: JobView| (v.id, table[v.id]));
    assert forall|id: i64| #[trigger] table.contains_key(id) && listed(Some(platform))(table[id]) implies
        exists|i: int| 0 <= i < pn.len() && #[trigger] pn[i].0 == id by {
        let i = choose|i: int| 0 <= i < on_platform.len() && #[trigger] on_platform[i].id == id;
        assert(pn[i].0 == id);
    }
    assert forall|id: i64| #[trigger] table.contains_key(id) && listed(None)(table[id]) implies
        exists|i: int| 0 <= i < pa.len() && #[trigger] pa[i].0 == id by {
        let i = choose|i: int| 0 <= i < all.len() && #[trigger] all[i].id == id;
        assert(pa[i].0 == id);
    }
    assert forall|i: int, j: int| 0 <= i < j < pn.len() implies #[trigger] pn[i].0 != #[trigger] pn[j].0 by {
        assert(on_platform[i].id != on_platform[j].id);
    }
    assert forall|i: int, j: int| 0 <= i < j < pa.len() implies #[trigger] pa[i].0 != #[trigger] pa[j].0 by {
        assert(all[i].id != all[j].id);
    }
    assert(lists_exactly(pn, table, listed(Some(platform))));
    assert(lists_exactly(pa, table, listed(None)));
    law_narrower_listing_within(pn, pa, table, listed(Some(platform)), listed(None));
    assert forall|i: int| 0 <= i < on_platform.len() implies all.contains(#[trigger] on_platform[i]) by {
        assert(pa.contains(pn[i]));
        let j = choose|j: int| 0 <= j < pa.len() && pa[j] == pn[i];
        assert(all[j] == on_platform[i]);
    }
}

/// Law: for a number of days that is not negative, the date modifier
/// `expire_old_jobs` hands to SQLite is a minus sign, the number in decimal
/// digits, and the unit ` days`, so the cutoff lies that many whole days
/// back: `-7 days` for a week.
pub proof fn law_days_back_counts_days(d: i64)
    requires
        d >= 0,
    ensures
        days_back(d) == "-"@ + decimal(d as nat) + " days"@,
        days_back(7) == "-7 days"@,
{
    reveal_strlit("-");
    reveal_strlit("-7 days");
    reveal_strlit(" days");
    assert(days_back(d) =~= "-"@ + decimal(d as nat) + " days"@);
    assert(decimal(7) == seq!['7']);
    assert(days_back(7) =~= "-7 days"@);
}

} // verus!
