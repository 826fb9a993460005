//! The SQLite database behind the library, seen through `rusqlite`.
//!
//! Each table is modelled as a map from row id to the columns this library
//! reads back (`seeker_table`, `education_table`, ...), and the rowid of the
//! most recent insertion as `last_insert`. These are names for what a
//! `rusqlite::Connection` holds; a table the database lacks holds no rows.
//! The wrappers below state what each SQL statement the library runs does to
//! them. They rest on two things the library does not check: that this
//! connection is the only one that writes the database while the library
//! holds it, and that the tables, where they already existed, have the
//! schemas below (ids under `AUTOINCREMENT`). Each statement runs on its own
//! in SQLite's autocommit mode, so one that fails leaves the rows as they
//! were.
use vstd::prelude::*;
use vstd::set_lib::lemma_len_subset;
use rusqlite::{Connection, OptionalExtension};
use crate::models::{
    BaseResume, Education, EducationRow, JobRow, ProjectExperience, ProjectRow, ResumeRow,
    SeekerRow, WorkExperience, WorkRow, opt_view,
};

verus! {

/// `rusqlite::Connection`, an open SQLite database; opaque here.
#[verifier::external_type_specification]
#[verifier::external_body]
pub struct ExConnection(rusqlite::Connection);

/// `rusqlite::Error`; opaque here.
#[verifier::external_type_specification]
#[verifier::external_body]
pub struct ExSqlError(rusqlite::Error);

/// `rusqlite::types::Value`, a value of any SQL type; opaque here.
#[verifier::external_type_specification]
#[verifier::external_body]
pub struct ExSqlValue(rusqlite::types::Value);

/// The rows of the `job_seekers` table, by id.
pub uninterp spec fn seeker_table(db: Connection) -> Map<i64, SeekerRow>;

/// The rows of the `educations` table, by id.
pub uninterp spec fn education_table(db: Connection) -> Map<i64, EducationRow>;

/// The rows of the `work_experiences` table, by id.
pub uninterp spec fn work_table(db: Connection) -> Map<i64, WorkRow>;

/// The rows of the `project_experiences` table, by id.
pub uninterp spec fn project_table(db: Connection) -> Map<i64, ProjectRow>;

/// The rows of the `base_resumes` table, by id.
pub uninterp spec fn resume_table(db: Connection) -> Map<i64, ResumeRow>;

/// The rows of the `jobs` table, by id.
pub uninterp spec fn job_table(db: Connection) -> Map<i64, JobRow>;

/// The largest rowid the `base_resumes` table has ever held, as
/// `AUTOINCREMENT` records it in `sqlite_sequence` (0 before any).
pub uninterp spec fn resume_sequence(db: Connection) -> i64;

/// The rowid of the most recent successful `INSERT` on the connection.
pub uninterp spec fn last_insert(db: Connection) -> i64;

/// Everything the library models of a database.
pub struct DbView {
    pub seekers: Map<i64, SeekerRow>,
    pub educations: Map<i64, EducationRow>,
    pub works: Map<i64, WorkRow>,
    pub projects: Map<i64, ProjectRow>,
    pub resumes: Map<i64, ResumeRow>,
    pub jobs: Map<i64, JobRow>,
    /// The largest base resume id ever issued, deleted ones included.
    pub resume_seq: i64,
}

/// The model of the database behind `db`.
pub open spec fn db_view(db: Connection) -> DbView {
    DbView {
        seekers: seeker_table(db),
        educations: education_table(db),
        works: work_table(db),
        projects: project_table(db),
        resumes: resume_table(db),
        jobs: job_table(db),
        resume_seq: resume_sequence(db),
    }
}

/// A database with no rows in any table, which has never issued a base
/// resume id.
pub open spec fn is_empty_db(d: DbView) -> bool {
    &&& d.resume_seq == 0
    &&& d.seekers == Map::<i64, SeekerRow>::empty()
    &&& d.educations == Map::<i64, EducationRow>::empty()
    &&& d.works == Map::<i64, WorkRow>::empty()
    &&& d.projects == Map::<i64, ProjectRow>::empty()
    &&& d.resumes == Map::<i64, ResumeRow>::empty()
    &&& d.jobs == Map::<i64, JobRow>::empty()
}

/// `rows` lists, once each, exactly the rows of `table` that satisfy `keep`,
/// each paired with its id.
pub open spec fn lists_exactly<R>(rows: Seq<(i64, R)>, table: Map<i64, R>, keep: spec_fn(R) -> bool) -> bool {
    &&& forall|i: int| 0 <= i < rows.len() ==> {
        &&& table.contains_key(#[trigger] rows[i].0)
        &&& table[rows[i].0] == rows[i].1
        &&& keep(rows[i].1)
    }
    &&& forall|i: int, j: int| 0 <= i < j < rows.len() ==> #[trigger] rows[i].0 != #[trigger] rows[j].0
    &&& forall|id: i64| #[trigger] table.contains_key(id) && keep(table[id]) ==>
        exists|i: int| 0 <= i < rows.len() && #[trigger] rows[i].0 == id
}

/// The ids of `rows` strictly increase: the rows come in the order they
/// were inserted.
pub open spec fn ids_increasing<R>(rows: Seq<(i64, R)>) -> bool {
    forall|i: int, j: int| 0 <= i < j < rows.len() ==> #[trigger] rows[i].0 < #[trigger] rows[j].0
}

/// `a` sorts before `b` as text: compared character by character, with a
/// proper prefix first.
pub open spec fn text_lt(a: Seq<char>, b: Seq<char>) -> bool {
    exists|k: int| #![trigger a.take(k)] 0 <= k <= a.len() && k <= b.len() && a.take(k) == b.take(k) && (
        (k == a.len() && k < b.len()) || (k < a.len() && k < b.len() && (a[k] as u32) < (b[k] as u32)))
}

/// A job seeker row as read from the database.
pub struct StoredSeeker {
    pub id: i64,
    pub name: String,
    pub phone: String,
    pub email: String,
    pub job_intention_json: String,
    pub self_evaluation: String,
    pub custom_fields_json: String,
    pub photo_path: Option<String>,
}

impl StoredSeeker {
    /// The followed columns of this row.
    pub open spec fn row(&self) -> SeekerRow {
        SeekerRow {
            name: self.name@,
            phone: self.phone@,
            email: self.email@,
            job_intention_json: self.job_intention_json@,
            self_evaluation: self.self_evaluation@,
            custom_fields_json: self.custom_fields_json@,
            photo_path: opt_view(self.photo_path),
        }
    }
}

/// A job row as read from the database.
pub struct StoredJob {
    pub id: i64,
    pub platform: String,
    pub job_title: String,
    pub company_name: String,
    pub jd_text: String,
    pub salary_range: String,
    pub location: String,
    pub skills_json: String,
    pub experience_req: String,
    pub education_req: String,
    pub match_score: Option<rusqlite::types::Value>,
    pub score_details_json: Option<String>,
    pub crawl_time: String,
    pub is_expired: i32,
}

impl StoredJob {
    /// The followed columns of this row.
    pub open spec fn row(&self) -> JobRow {
        JobRow {
            platform: self.platform@,
            job_title: self.job_title@,
            company_name: self.company_name@,
            jd_text: self.jd_text@,
            salary_range: self.salary_range@,
            location: self.location@,
            skills_json: self.skills_json@,
            experience_req: self.experience_req@,
            education_req: self.education_req@,
            match_score: self.match_score,
            score_details_json: opt_view(self.score_details_json),
            crawl_time: self.crawl_time@,
            is_expired: self.is_expired,
        }
    }
}

/// Every id of `table` is below `id`.
pub open spec fn ids_below<R>(table: Map<i64, R>, id: i64) -> bool {
    forall|k: i64| #[trigger] table.contains_key(k) ==> k < id
}

/// A row `row` was inserted into `old` under the id `id`, which is positive
/// and above every id of `old`, as `AUTOINCREMENT` gives them.
pub open spec fn inserted_fresh<R>(old: Map<i64, R>, new: Map<i64, R>, id: i64, row: R) -> bool {
    0 < id && ids_below(old, id) && new == old.insert(id, row)
}

/// The tables of job seekers and of what their resumes are made of.
pub const RESUME_SCHEMA: &'static str = "CREATE TABLE IF NOT EXISTS job_seekers (
            id INTEGER PRIMARY KEY AUTOINCREMENT,
            name TEXT NOT NULL,
            phone TEXT NOT NULL DEFAULT '',
            email TEXT NOT NULL DEFAULT '',
            job_intention TEXT NOT NULL DEFAULT '[]',
            self_evaluation TEXT NOT NULL DEFAULT '',
            custom_fields TEXT NOT NULL DEFAULT '{}',
            photo_path TEXT,
            created_at DATETIME DEFAULT CURRENT_TIMESTAMP,
            updated_at DATETIME DEFAULT CURRENT_TIMESTAMP
        );

        CREATE TABLE IF NOT EXISTS educations (
            id INTEGER PRIMARY KEY AUTOINCREMENT,
            job_seeker_id INTEGER NOT NULL REFERENCES job_seekers(id),
            school TEXT NOT NULL,
            major TEXT NOT NULL DEFAULT '',
            degree TEXT NOT NULL DEFAULT '',
            start_date TEXT NOT NULL DEFAULT '',
            end_date TEXT NOT NULL DEFAULT ''
        );

        CREATE TABLE IF NOT EXISTS work_experiences (
            id INTEGER PRIMARY KEY AUTOINCREMENT,
            job_seeker_id INTEGER NOT NULL REFERENCES job_seekers(id),
            company TEXT NOT NULL,
            position TEXT NOT NULL DEFAULT '',
            start_date TEXT NOT NULL DEFAULT '',
            end_date TEXT NOT NULL DEFAULT '',
            description TEXT NOT NULL DEFAULT ''
        );

        CREATE TABLE IF NOT EXISTS project_experiences (
            id INTEGER PRIMARY KEY AUTOINCREMENT,
            job_seeker_id INTEGER NOT NULL REFERENCES job_seekers(id),
            project_name TEXT NOT NULL,
            tech_stack TEXT NOT NULL DEFAULT '',
            role TEXT NOT NULL DEFAULT '',
            achievements TEXT NOT NULL DEFAULT ''
        );

        CREATE TABLE IF NOT EXISTS base_resumes (
            id INTEGER PRIMARY KEY AUTOINCREMENT,
            name TEXT NOT NULL,
            job_seeker_id INTEGER NOT NULL REFERENCES job_seekers(id),
            created_at DATETIME DEFAULT CURRENT_TIMESTAMP,
            updated_at DATETIME DEFAULT CURRENT_TIMESTAMP
        );";

/// The table of crawled job postings.
pub const JOB_SCHEMA: &'static str = "CREATE TABLE IF NOT EXISTS jobs (
            id INTEGER PRIMARY KEY AUTOINCREMENT,
            platform TEXT NOT NULL,
            job_title TEXT NOT NULL,
            company_name TEXT NOT NULL,
            jd_text TEXT NOT NULL DEFAULT '',
            salary_range TEXT NOT NULL DEFAULT '',
            location TEXT NOT NULL DEFAULT '',
            skills_required TEXT NOT NULL DEFAULT '[]',
            experience_req TEXT NOT NULL DEFAULT '',
            education_req TEXT NOT NULL DEFAULT '',
            match_score REAL,
            score_details TEXT,
            crawl_time DATETIME DEFAULT CURRENT_TIMESTAMP,
            is_expired INTEGER NOT NULL DEFAULT 0
        );";

/// Calls `Connection::open_in_memory`: a new database, held in memory, with
/// no tables and so no rows.
#[verifier::external_body]
pub(crate) fn open_in_memory() -> (r: Result<Connection, rusqlite::Error>)
    ensures
        match r {
            Ok(db) => is_empty_db(db_view(db)),
            Err(_) => true,
        },
{
    Connection::open_in_memory()
}

/// Calls `Connection::last_insert_rowid`: the rowid of the most recent
/// successful `INSERT` on the connection.
#[verifier::external_body]
pub(crate) fn last_insert_rowid(db: &Connection) -> (r: i64)
    ensures
        r == last_insert(*db),
{
    db.last_insert_rowid()
}

/// Runs, through `Connection::execute_batch`, the `CREATE TABLE IF NOT
/// EXISTS` statements for the resume tables; no row changes.
#[verifier::external_body]
pub(crate) fn create_resume_tables(db: &mut Connection) -> (r: Result<(), rusqlite::Error>)
    ensures
        match r {
            Ok(()) => db_view(*final(db)) == db_view(*old(db)),
            Err(_) => db_view(*final(db)) == db_view(*old(db)),
        },
{
    db.execute_batch(RESUME_SCHEMA)
}

/// Runs, through `Connection::execute_batch`, the `CREATE TABLE IF NOT
/// EXISTS` statement for the jobs table; no row changes.
#[verifier::external_body]
pub(crate) fn create_job_table(db: &mut Connection) -> (r: Result<(), rusqlite::Error>)
    ensures
        match r {
            Ok(()) => db_view(*final(db)) == db_view(*old(db)),
            Err(_) => db_view(*final(db)) == db_view(*old(db)),
        },
{
    db.execute_batch(JOB_SCHEMA)
}

/// Runs `INSERT INTO job_seekers (...)` through `Connection::execute`: on
/// success one row is added under a new rowid, which becomes the last
/// inserted one, and nothing else changes. Under `AUTOINCREMENT` the new
/// rowid is positive and above every rowid the table holds.
#[verifier::external_body]
pub(crate) fn insert_seeker(
    db: &mut Connection,
    name: &str,
    phone: &str,
    email: &str,
    job_intention_json: &str,
    self_evaluation: &str,
    custom_fields_json: &str,
    photo_path: &Option<String>,
) -> (r: Result<usize, rusqlite::Error>)
    ensures
        match r {
            Ok(_) => {
                let before = db_view(*old(db));
                let id = last_insert(*final(db));
                let row = SeekerRow {
                    name: name@,
                    phone: phone@,
                    email: email@,
                    job_intention_json: job_intention_json@,
                    self_evaluation: self_evaluation@,
                    custom_fields_json: custom_fields_json@,
                    photo_path: opt_view(*photo_path),
                };
                &&& 0 < id && ids_below(before.seekers, id)
                &&& db_view(*final(db)) == (DbView { seekers: before.seekers.insert(id, row), ..before })
            },
            Err(_) => db_view(*final(db)) == db_view(*old(db)),
        },
{
    db.execute(
        "INSERT INTO job_seekers (name, phone, email, job_intention, self_evaluation, custom_fields, photo_path) VALUES (?1, ?2, ?3, ?4, ?5, ?6, ?7)",
        (name, phone, email, job_intention_json, self_evaluation, custom_fields_json, photo_path),
    )
}

/// Runs `SELECT ... FROM job_seekers WHERE id = ?1` through
/// `Connection::query_row`, with `optional` turning "no row" into `None`.
#[verifier::external_body]
pub(crate) fn select_seeker(db: &Connection, id: i64) -> (r: Result<Option<StoredSeeker>, rusqlite::Error>)
    ensures
        match r {
            Ok(None) => !seeker_table(*db).contains_key(id),
            Ok(Some(s)) => seeker_table(*db).contains_key(id) && s.id == id && s.row() == seeker_table(*db)[id],
            Err(_) => true,
        },
{
    db.query_row(
        "SELECT id, name, phone, email, job_intention, self_evaluation, custom_fields, photo_path FROM job_seekers WHERE id = ?1",
        (id,),
        |r| Ok(StoredSeeker { id: r.get(0)?, name: r.get(1)?, phone: r.get(2)?, email: r.get(3)?, job_intention_json: r.get(4)?, self_evaluation: r.get(5)?, custom_fields_json: r.get(6)?, photo_path: r.get(7)? }),
    ).optional()
}

/// Runs `UPDATE job_seekers SET ... WHERE id = ?8` through
/// `Connection::execute`: on success it reports one changed row and replaces
/// the row when the id is present, and reports none and changes nothing
/// otherwise.
#[verifier::external_body]
pub(crate) fn update_seeker(
    db: &mut Connection,
    id: i64,
    name: &str,
    phone: &str,
    email: &str,
    job_intention_json: &str,
    self_evaluation: &str,
    custom_fields_json: &str,
    photo_path: &Option<String>,
) -> (r: Result<usize, rusqlite::Error>)
    ensures
        match r {
            Ok(n) => {
                let before = db_view(*old(db));
                let row = SeekerRow {
                    name: name@,
                    phone: phone@,
                    email: email@,
                    job_intention_json: job_intention_json@,
                    self_evaluation: self_evaluation@,
                    custom_fields_json: custom_fields_json@,
                    photo_path: opt_view(*photo_path),
                };
                if before.seekers.contains_key(id) {
                    n == 1 && db_view(*final(db)) == (DbView { seekers: before.seekers.insert(id, row), ..before })
                } else {
                    n == 0 && db_view(*final(db)) == before
                }
            },
            Err(_) => db_view(*final(db)) == db_view(*old(db)),
        },
{
    db.execute(
        "UPDATE job_seekers SET name = ?1, phone = ?2, email = ?3, job_intention = ?4, self_evaluation = ?5, custom_fields = ?6, photo_path = ?7, updated_at = CURRENT_TIMESTAMP WHERE id = ?8",
        (name, phone, email, job_intention_json, self_evaluation, custom_fields_json, photo_path, id),
    )
}

/// Runs `INSERT INTO educations (...)` through `Connection::execute`: on
/// success one row is added under a new rowid, which becomes the last
/// inserted one, and nothing else changes. Under `AUTOINCREMENT` the new
/// rowid is positive and above every rowid the table holds.
#[verifier::external_body]
pub(crate) fn insert_education(
    db: &mut Connection,
    seeker_id: i64,
    school: &str,
    major: &str,
    degree: &str,
    start_date: &str,
    end_date: &str,
) -> (r: Result<usize, rusqlite::Error>)
    ensures
        match r {
            Ok(_) => {
                let before = db_view(*old(db));
                let id = last_insert(*final(db));
                let row = EducationRow {
                    job_seeker_id: seeker_id,
                    school: school@,
                    major: major@,
                    degree: degree@,
                    start_date: start_date@,
                    end_date: end_date@,
                };
                &&& 0 < id && ids_below(before.educations, id)
                &&& db_view(*final(db)) == (DbView { educations: before.educations.insert(id, row), ..before })
            },
            Err(_) => db_view(*final(db)) == db_view(*old(db)),
        },
{
    db.execute(
        "INSERT INTO educations (job_seeker_id, school, major, degree, start_date, end_date) VALUES (?1, ?2, ?3, ?4, ?5, ?6)",
        (seeker_id, school, major, degree, start_date, end_date),
    )
}

/// Runs `SELECT ... FROM educations WHERE job_seeker_id = ?1 ORDER BY id`
/// through `Statement::query_map`: on success the rows of that seeker, once
/// each, in the order of their ids.
#[verifier::external_body]
pub(crate) fn select_educations(db: &Connection, seeker_id: i64) -> (r: Result<Vec<Education>, rusqlite::Error>)
    ensures
        match r {
            Ok(v) => lists_exactly(
                v@.map_values(|e: Education| (e.id, e.row())),
                education_table(*db),
                |row: EducationRow| row.job_seeker_id == seeker_id,
            ) && ids_increasing(v@.map_values(|e: Education| (e.id, e.row()))),
            Err(_) => true,
        },
{
    let mut stmt = db.prepare(
        "SELECT id, job_seeker_id, school, major, degree, start_date, end_date FROM educations WHERE job_seeker_id = ?1 ORDER BY id",
    )?;
    let rows = stmt.query_map((seeker_id,), |r| {
        Ok(Education { id: r.get(0)?, job_seeker_id: r.get(1)?, school: r.get(2)?, major: r.get(3)?, degree: r.get(4)?, start_date: r.get(5)?, end_date: r.get(6)? })
    })?;
    rows.collect()
}

/// Runs `INSERT INTO work_experiences (...)` through `Connection::execute`:
/// on success one row is added under a new rowid, which becomes the last
/// inserted one, and nothing else changes. Under `AUTOINCREMENT` the new
/// rowid is positive and above every rowid the table holds.
#[verifier::external_body]
pub(crate) fn insert_work(
    db: &mut Connection,
    seeker_id: i64,
    company: &str,
    position: &str,
    start_date: &str,
    end_date: &str,
    description: &str,
) -> (r: Result<usize, rusqlite::Error>)
    ensures
        match r {
            Ok(_) => {
                let before = db_view(*old(db));
                let id = last_insert(*final(db));
                let row = WorkRow {
                    job_seeker_id: seeker_id,
                    company: company@,
                    position: position@,
                    start_date: start_date@,
                    end_date: end_date@,
                    description: description@,
                };
                &&& 0 < id && ids_below(before.works, id)
                &&& db_view(*final(db)) == (DbView { works: before.works.insert(id, row), ..before })
            },
            Err(_) => db_view(*final(db)) == db_view(*old(db)),
        },
{
    db.execute(
        "INSERT INTO work_experiences (job_seeker_id, company, position, start_date, end_date, description) VALUES (?1, ?2, ?3, ?4, ?5, ?6)",
        (seeker_id, company, position, start_date, end_date, description),
    )
}

/// Runs `SELECT ... FROM work_experiences WHERE job_seeker_id = ?1 ORDER BY id`
/// through `Statement::query_map`: on success the rows of that seeker, once
/// each, in the order of their ids.
#[verifier::external_body]
pub(crate) fn select_works(db: &Connection, seeker_id: i64) -> (r: Result<Vec<WorkExperience>, rusqlite::Error>)
    ensures
        match r {
            Ok(v) => lists_exactly(
                v@.map_values(|e: WorkExperience| (e.id, e.row())),
                work_table(*db),
                |row: WorkRow| row.job_seeker_id == seeker_id,
            ) && ids_increasing(v@.map_values(|e: WorkExperience| (e.id, e.row()))),
            Err(_) => true,
        },
{
    let mut stmt = db.prepare(
        "SELECT id, job_seeker_id, company, position, start_date, end_date, description FROM work_experiences WHERE job_seeker_id = ?1 ORDER BY id",
    )?;
    let rows = stmt.query_map((seeker_id,), |r| {
        Ok(WorkExperience { id: r.get(0)?, job_seeker_id: r.get(1)?, company: r.get(2)?, position: r.get(3)?, start_date: r.get(4)?, end_date: r.get(5)?, description: r.get(6)? })
    })?;
    rows.collect()
}

/// Runs `INSERT INTO project_experiences (...)` through
/// `Connection::execute`: on success one row is added under a new rowid,
/// which becomes the last inserted one, and nothing else changes. Under
/// `AUTOINCREMENT` the new rowid is positive and above every rowid the table
/// holds.
#[verifier::external_body]
pub(crate) fn insert_project(
    db: &mut Connection,
    seeker_id: i64,
    project_name: &str,
    tech_stack: &str,
    role: &str,
    achievements: &str,
) -> (r: Result<usize, rusqlite::Error>)
    ensures
        match r {
            Ok(_) => {
                let before = db_view(*old(db));
                let id = last_insert(*final(db));
                let row = ProjectRow {
                    job_seeker_id: seeker_id,
                    project_name: project_name@,
                    tech_stack: tech_stack@,
                    role: role@,
                    achievements: achievements@,
                };
                &&& 0 < id && ids_below(before.projects, id)
                &&& db_view(*final(db)) == (DbView { projects: before.projects.insert(id, row), ..before })
            },
            Err(_) => db_view(*final(db)) == db_view(*old(db)),
        },
{
    db.execute(
        "INSERT INTO project_experiences (job_seeker_id, project_name, tech_stack, role, achievements) VALUES (?1, ?2, ?3, ?4, ?5)",
        (seeker_id, project_name, tech_stack, role, achievements),
    )
}

/// Runs `SELECT ... FROM project_experiences WHERE job_seeker_id = ?1 ORDER BY id`
/// through `Statement::query_map`: on success the rows of that seeker, once
/// each, in the order of their ids.
#[verifier::external_body]
pub(crate) fn select_projects(db: &Connection, seeker_id: i64) -> (r: Result<Vec<ProjectExperience>, rusqlite::Error>)
    ensures
        match r {
            Ok(v) => lists_exactly(
                v@.map_values(|e: ProjectExperience| (e.id, e.row())),
                project_table(*db),
                |row: ProjectRow| row.job_seeker_id == seeker_id,
            ) && ids_increasing(v@.map_values(|e: ProjectExperience| (e.id, e.row()))),
            Err(_) => true,
        },
{
    let mut stmt = db.prepare(
        "SELECT id, job_seeker_id, project_name, tech_stack, role, achievements FROM project_experiences WHERE job_seeker_id = ?1 ORDER BY id",
    )?;
    let rows = stmt.query_map((seeker_id,), |r| {
        Ok(ProjectExperience { id: r.get(0)?, job_seeker_id: r.get(1)?, project_name: r.get(2)?, tech_stack: r.get(3)?, role: r.get(4)?, achievements: r.get(5)? })
    })?;
    rows.collect()
}

/// Runs `INSERT INTO base_resumes (name, job_seeker_id)` through
/// `Connection::execute`: on success one row is added under a new rowid,
/// which becomes the last inserted one, and nothing else changes. Under
/// `AUTOINCREMENT` the new rowid is positive and above every rowid the table
/// has ever held, and `sqlite_sequence` records it as the largest.
#[verifier::external_body]
pub(crate) fn insert_resume(db: &mut Connection, seeker_id: i64, name: &str) -> (r: Result<usize, rusqlite::Error>)
    ensures
        match r {
            Ok(_) => {
                let before = db_view(*old(db));
                let id = last_insert(*final(db));
                let row = ResumeRow { name: name@, job_seeker_id: seeker_id };
                &&& 0 < id && ids_below(before.resumes, id) && resume_sequence(*old(db)) < id
                &&& db_view(*final(db)) == (DbView { resumes: before.resumes.insert(id, row), resume_seq: id, ..before })
            },
            Err(_) => db_view(*final(db)) == db_view(*old(db)),
        },
{
    db.execute("INSERT INTO base_resumes (name, job_seeker_id) VALUES (?1, ?2)", (name, seeker_id))
}

/// Runs `SELECT ... FROM base_resumes WHERE job_seeker_id = ?1 ORDER BY id`
/// through `Statement::query_map`: on success the rows of that seeker, once
/// each, in the order of their ids.
#[verifier::external_body]
pub(crate) fn select_resumes(db: &Connection, seeker_id: i64) -> (r: Result<Vec<BaseResume>, rusqlite::Error>)
    ensures
        match r {
            Ok(v) => lists_exactly(
                v@.map_values(|e: BaseResume| (e.id, e.row())),
                resume_table(*db),
                |row: ResumeRow| row.job_seeker_id == seeker_id,
            ) && ids_increasing(v@.map_values(|e: BaseResume| (e.id, e.row()))),
            Err(_) => true,
        },
{
    let mut stmt = db.prepare("SELECT id, name, job_seeker_id FROM base_resumes WHERE job_seeker_id = ?1 ORDER BY id")?;
    let rows = stmt.query_map((seeker_id,), |r| {
        Ok(BaseResume { id: r.get(0)?, name: r.get(1)?, job_seeker_id: r.get(2)? })
    })?;
    rows.collect()
}

/// Runs `DELETE FROM base_resumes WHERE id = ?1` through
/// `Connection::execute`: on success it reports one deleted row and removes
/// it when the id is present, and reports none and changes nothing otherwise.
#[verifier::external_body]
pub(crate) fn delete_resume(db: &mut Connection, id: i64) -> (r: Result<usize, rusqlite::Error>)
    ensures
        match r {
            Ok(n) => {
                let before = db_view(*old(db));
                if before.resumes.contains_key(id) {
                    n == 1 && db_view(*final(db)) == (DbView { resumes: before.resumes.remove(id), ..before })
                } else {
                    n == 0 && db_view(*final(db)) == before
                }
            },
            Err(_) => db_view(*final(db)) == db_view(*old(db)),
        },
{
    db.execute("DELETE FROM base_resumes WHERE id = ?1", (id,))
}

/// `rows` runs from the latest crawl time to the earliest, crawl times being
/// compared as text.
pub open spec fn newest_first(rows: Seq<StoredJob>) -> bool {
    forall|i: int, j: int| 0 <= i < j < rows.len() ==> !text_lt(#[trigger] rows[i].crawl_time@, #[trigger] rows[j].crawl_time@)
}

/// Runs `INSERT INTO jobs (...)` through `Connection::execute`: on success one
/// row is added under a new rowid, which becomes the last inserted one and,
/// under `AUTOINCREMENT`, is positive and above every rowid the table holds.
/// The row holds the given columns, no match score and no score details, is
/// not expired, and has the crawl time SQLite stamped on it. Nothing else
/// changes.
#[verifier::external_body]
pub(crate) fn insert_job(
    db: &mut Connection,
    platform: &str,
    job_title: &str,
    company_name: &str,
    jd_text: &str,
    salary_range: &str,
    location: &str,
    skills_json: &str,
    experience_req: &str,
    education_req: &str,
) -> (r: Result<usize, rusqlite::Error>)
    ensures
        match r {
            Ok(_) => {
                let before = db_view(*old(db));
                let id = last_insert(*final(db));
                let row = job_table(*final(db))[id];
                &&& 0 < id && ids_below(before.jobs, id)
                &&& db_view(*final(db)) == (DbView { jobs: before.jobs.insert(id, row), ..before })
                &&& row == (JobRow {
                    platform: platform@,
                    job_title: job_title@,
                    company_name: company_name@,
                    jd_text: jd_text@,
                    salary_range: salary_range@,
                    location: location@,
                    skills_json: skills_json@,
                    experience_req: experience_req@,
                    education_req: education_req@,
                    match_score: None,
                    score_details_json: None,
                    crawl_time: row.crawl_time,
                    is_expired: 0,
                })
            },
            Err(_) => db_view(*final(db)) == db_view(*old(db)),
        },
{
    db.execute(
        "INSERT INTO jobs (platform, job_title, company_name, jd_text, salary_range, location, skills_required, experience_req, education_req) VALUES (?1, ?2, ?3, ?4, ?5, ?6, ?7, ?8, ?9)",
        (platform, job_title, company_name, jd_text, salary_range, location, skills_json, experience_req, education_req),
    )
}

/// Runs `SELECT ... FROM jobs WHERE id = ?1` through `Connection::query_row`,
/// with `optional` turning "no row" into `None`. The match score is read as
/// an SQL value of whatever type it holds.
#[verifier::external_body]
pub(crate) fn select_job(db: &Connection, id: i64) -> (r: Result<Option<StoredJob>, rusqlite::Error>)
    ensures
        match r {
            Ok(None) => !job_table(*db).contains_key(id),
            Ok(Some(j)) => job_table(*db).contains_key(id) && j.id == id && j.row() == job_table(*db)[id],
            Err(_) => true,
        },
{
    db.query_row(
        "SELECT id, platform, job_title, company_name, jd_text, salary_range, location, skills_required, experience_req, education_req, match_score, score_details, crawl_time, is_expired FROM jobs WHERE id = ?1",
        (id,),
        |r| Ok(StoredJob { id: r.get(0)?, platform: r.get(1)?, job_title: r.get(2)?, company_name: r.get(3)?, jd_text: r.get(4)?, salary_range: r.get(5)?, location: r.get(6)?, skills_json: r.get(7)?, experience_req: r.get(8)?, education_req: r.get(9)?, match_score: r.get(10)?, score_details_json: r.get(11)?, crawl_time: r.get(12)?, is_expired: r.get(13)? }),
    ).optional()
}

/// Runs `SELECT ... FROM jobs WHERE is_expired = 0 ORDER BY crawl_time DESC`
/// through `Statement::query_map`: on success the jobs not expired, once
/// each, latest crawl time first.
#[verifier::external_body]
pub(crate) fn select_active_jobs(db: &Connection) -> (r: Result<Vec<StoredJob>, rusqlite::Error>)
    ensures
        match r {
            Ok(v) => lists_exactly(
                v@.map_values(|j: StoredJob| (j.id, j.row())),
                job_table(*db),
                |row: JobRow| row.is_expired == 0,
            ) && newest_first(v@),
            Err(_) => true,
        },
{
    let mut stmt = db.prepare(
        "SELECT id, platform, job_title, company_name, jd_text, salary_range, location, skills_required, experience_req, education_req, match_score, score_details, crawl_time, is_expired FROM jobs WHERE is_expired = 0 ORDER BY crawl_time DESC",
    )?;
    let rows = stmt.query_map((), |r| {
        Ok(StoredJob { id: r.get(0)?, platform: r.get(1)?, job_title: r.get(2)?, company_name: r.get(3)?, jd_text: r.get(4)?, salary_range: r.get(5)?, location: r.get(6)?, skills_json: r.get(7)?, experience_req: r.get(8)?, education_req: r.get(9)?, match_score: r.get(10)?, score_details_json: r.get(11)?, crawl_time: r.get(12)?, is_expired: r.get(13)? })
    })?;
    rows.collect()
}

/// Runs `SELECT ... FROM jobs WHERE platform = ?1 AND is_expired = 0 ORDER BY
/// crawl_time DESC` through `Statement::query_map`: on success the jobs of
/// that platform not expired, once each, latest crawl time first.
#[verifier::external_body]
pub(crate) fn select_active_jobs_on(db: &Connection, platform: &str) -> (r: Result<Vec<StoredJob>, rusqlite::Error>)
    ensures
        match r {
            Ok(v) => lists_exactly(
                v@.map_values(|j: StoredJob| (j.id, j.row())),
                job_table(*db),
                |row: JobRow| row.is_expired == 0 && row.platform == platform@,
            ) && newest_first(v@),
            Err(_) => true,
        },
{
    let mut stmt = db.prepare(
        "SELECT id, platform, job_title, company_name, jd_text, salary_range, location, skills_required, experience_req, education_req, match_score, score_details, crawl_time, is_expired FROM jobs WHERE platform = ?1 AND is_expired = 0 ORDER BY crawl_time DESC",
    )?;
    let rows = stmt.query_map((platform,), |r| {
        Ok(StoredJob { id: r.get(0)?, platform: r.get(1)?, job_title: r.get(2)?, company_name: r.get(3)?, jd_text: r.get(4)?, salary_range: r.get(5)?, location: r.get(6)?, skills_json: r.get(7)?, experience_req: r.get(8)?, education_req: r.get(9)?, match_score: r.get(10)?, score_details_json: r.get(11)?, crawl_time: r.get(12)?, is_expired: r.get(13)? })
    })?;
    rows.collect()
}

/// Runs `UPDATE jobs SET is_expired = 1 WHERE id = ?1` through
/// `Connection::execute`: on success it reports one changed row and marks it
/// expired when the id is present, and reports none and changes nothing
/// otherwise.
#[verifier::external_body]
pub(crate) fn mark_job_expired(db: &mut Connection, id: i64) -> (r: Result<usize, rusqlite::Error>)
    ensures
        match r {
            Ok(n) => {
                let before = db_view(*old(db));
                if before.jobs.contains_key(id) {
                    n == 1 && db_view(*final(db)) == (DbView {
                        jobs: before.jobs.insert(id, JobRow { is_expired: 1, ..before.jobs[id] }),
                        ..before
                    })
                } else {
                    n == 0 && db_view(*final(db)) == before
                }
            },
            Err(_) => db_view(*final(db)) == db_view(*old(db)),
        },
{
    db.execute("UPDATE jobs SET is_expired = 1 WHERE id = ?1", (id,))
}

/// The open jobs crawled before the cutoff `cutoff`, crawl times being
/// compared as text; none when there is no cutoff.
pub open spec fn aged(cutoff: Option<Seq<char>>) -> spec_fn(JobRow) -> bool {
    |row: JobRow| row.is_expired == 0 && match cutoff {
        Some(t) => text_lt(row.crawl_time, t),
        None => false,
    }
}

/// The jobs of `jobs` after those that `aged(cutoff)` selects are marked
/// expired.
pub open spec fn expire_aged(jobs: Map<i64, JobRow>, cutoff: Option<Seq<char>>) -> Map<i64, JobRow> {
    Map::new(
        |id: i64| jobs.contains_key(id),
        |id: i64| if aged(cutoff)(jobs[id]) { JobRow { is_expired: 1, ..jobs[id] } } else { jobs[id] },
    )
}

/// What SQLite's `datetime(time, modifier)` gives for the moment `now`,
/// counted in milliseconds of the Julian day as SQLite keeps it: the shifted
/// moment as text (`YYYY-MM-DD HH:MM:SS`), or `None` (`NULL`) when the
/// modifier does not apply.
pub uninterp spec fn sqlite_datetime(now: int, modifier: Seq<char>) -> Option<Seq<char>>;

/// Runs `UPDATE jobs SET is_expired = 1 WHERE is_expired = 0 AND crawl_time <
/// datetime('now', ?1)` through `Connection::execute`, with `modifier` as the
/// date modifier. SQLite reads the clock once for the statement; the cutoff
/// is `datetime` of that moment and `modifier` (named `sqlite_datetime`),
/// and which moment it was is not known here. On success exactly the open
/// jobs crawled before the cutoff (none for `NULL`) become expired, nothing
/// else changes, and the count it reports is the number of those jobs.
#[verifier::external_body]
pub(crate) fn expire_jobs_before(db: &mut Connection, modifier: &str) -> (r: Result<usize, rusqlite::Error>)
    ensures
        match r {
            Ok(n) => {
                let before = db_view(*old(db));
                &&& before.jobs.dom().finite()
                &&& exists|now: int| {
                    &&& #[trigger] expire_aged(before.jobs, sqlite_datetime(now, modifier@)) == db_view(*final(db)).jobs
                    &&& n == kept_ids(before.jobs, aged(sqlite_datetime(now, modifier@))).len()
                }
                &&& db_view(*final(db)) == (DbView { jobs: db_view(*final(db)).jobs, ..before })
            },
            Err(_) => db_view(*final(db)) == db_view(*old(db)),
        },
{
    db.execute(
        "UPDATE jobs SET is_expired = 1 WHERE is_expired = 0 AND crawl_time < datetime('now', ?1)",
        (modifier,),
    )
}

/// The value the `REAL` column `match_score` holds after `v` is written to
/// it: SQLite's column affinity may turn an integer or a numeric text into a
/// floating-point value, and stores `NULL` (here `None`) for `NULL` and for
/// a NaN.
pub uninterp spec fn score_column_value(v: rusqlite::types::Value) -> Option<rusqlite::types::Value>;

/// Runs `UPDATE jobs SET match_score = ?1, score_details = ?2 WHERE id = ?3`
/// through `Connection::execute`: on success it reports one changed row when
/// the id is present, whose score becomes what the column makes of `score`
/// (named `score_column_value`) and whose details become the text
/// `details_json`; it reports none and changes nothing otherwise.
#[verifier::external_body]
pub(crate) fn update_job_score(
    db: &mut Connection,
    id: i64,
    score: &rusqlite::types::Value,
    details_json: &str,
) -> (r: Result<usize, rusqlite::Error>)
    ensures
        match r {
            Ok(n) => {
                let before = db_view(*old(db));
                if before.jobs.contains_key(id) {
                    n == 1 && db_view(*final(db)) == (DbView {
                        jobs: before.jobs.insert(id, JobRow {
                            match_score: score_column_value(*score),
                            score_details_json: Some(details_json@),
                            ..before.jobs[id]
                        }),
                        ..before
                    })
                } else {
                    n == 0 && db_view(*final(db)) == before
                }
            },
            Err(_) => db_view(*final(db)) == db_view(*old(db)),
        },
{
    db.execute(
        "UPDATE jobs SET match_score = ?1, score_details = ?2 WHERE id = ?3",
        (score, details_json, id),
    )
}

/// Every entry of `small` is an entry of `big`.
pub open spec fn holds_all<T>(big: Seq<T>, small: Seq<T>) -> bool {
    forall|i: int| 0 <= i < small.len() ==> big.contains(#[trigger] small[i])
}

/// The ids of the rows of `table` that satisfy `keep`.
pub open spec fn kept_ids<R>(table: Map<i64, R>, keep: spec_fn(R) -> bool) -> Set<i64> {
    Set::new(|id: i64| table.contains_key(id) && keep(table[id]))
}

/// The ids a listing holds.
pub open spec fn listed_ids<R>(rows: Seq<(i64, R)>) -> Seq<i64> {
    rows.map_values(|p: (i64, R)| p.0)
}

/// A listing holds each selected id once, so it is as long as the set of
/// selected ids, and that set is finite.
pub proof fn lemma_listing_len<R>(rows: Seq<(i64, R)>, table: Map<i64, R>, keep: spec_fn(R) -> bool)
    requires
        lists_exactly(rows, table, keep),
    ensures
        kept_ids(table, keep).finite(),
        rows.len() == kept_ids(table, keep).len(),
        listed_ids(rows).to_set() == kept_ids(table, keep),
{
    let ids = listed_ids(rows);
    assert(ids.no_duplicates()) by {
        assert forall|i: int, j: int| 0 <= i < ids.len() && 0 <= j < ids.len() && i != j implies ids[i] != ids[j] by {
            if i < j {
                assert(rows[i].0 != rows[j].0);
            } else {
                assert(rows[j].0 != rows[i].0);
            }
        }
    }
    assert forall|id: i64| #[trigger] ids.to_set().contains(id) == kept_ids(table, keep).contains(id) by {
        if ids.to_set().contains(id) {
            let i = choose|i: int| 0 <= i < ids.len() && ids[i] == id;
            assert(table.contains_key(rows[i].0));
        }
        if kept_ids(table, keep).contains(id) {
            let i = choose|i: int| 0 <= i < rows.len() && #[trigger] rows[i].0 == id;
            assert(ids[i] == id);
        }
    }
    assert(ids.to_set() =~= kept_ids(table, keep));
    ids.unique_seq_to_set();
    vstd::seq_lib::seq_to_set_is_finite(ids);
}

/// Law: adding a row that a listing selects makes the listing hold exactly
/// one more entry, the new row, besides all it held before.
pub proof fn law_listing_grows_by_insert<R>(
    before: Seq<(i64, R)>,
    after: Seq<(i64, R)>,
    table: Map<i64, R>,
    id: i64,
    row: R,
    keep: spec_fn(R) -> bool,
)
    requires
        !table.contains_key(id),
        keep(row),
        lists_exactly(before, table, keep),
        lists_exactly(after, table.insert(id, row), keep),
    ensures
        after.len() == before.len() + 1,
        exists|i: int| 0 <= i < after.len() && after[i] == (id, row),
        holds_all(after, before),
{
    lemma_listing_len(before, table, keep);
    lemma_listing_len(after, table.insert(id, row), keep);
    assert(kept_ids(table.insert(id, row), keep) =~= kept_ids(table, keep).insert(id));
    assert(table.insert(id, row).contains_key(id) && keep(table.insert(id, row)[id]));
    let k = choose|i: int| 0 <= i < after.len() && #[trigger] after[i].0 == id;
    assert(after[k] == (id, row));
    assert forall|i: int| 0 <= i < before.len() implies after.contains(#[trigger] before[i]) by {
        let bid = before[i].0;
        assert(table.contains_key(bid));
        assert(bid != id);
        assert(table.insert(id, row).contains_key(bid) && keep(table.insert(id, row)[bid]));
        let j = choose|j: int| 0 <= j < after.len() && #[trigger] after[j].0 == bid;
        assert(after[j] == before[i]);
    }
}

/// Law: adding a row that a listing does not select leaves the listing with
/// the same entries.
pub proof fn law_listing_ignores_unselected_insert<R>(
    before: Seq<(i64, R)>,
    after: Seq<(i64, R)>,
    table: Map<i64, R>,
    id: i64,
    row: R,
    keep: spec_fn(R) -> bool,
)
    requires
        !table.contains_key(id),
        !keep(row),
        lists_exactly(before, table, keep),
        lists_exactly(after, table.insert(id, row), keep),
    ensures
        after.len() == before.len(),
        holds_all(after, before),
{
    lemma_listing_len(before, table, keep);
    lemma_listing_len(after, table.insert(id, row), keep);
    assert(kept_ids(table.insert(id, row), keep) =~= kept_ids(table, keep));
    assert forall|i: int| 0 <= i < before.len() implies after.contains(#[trigger] before[i]) by {
        let bid = before[i].0;
        assert(table.contains_key(bid));
        assert(table.insert(id, row).contains_key(bid) && keep(table.insert(id, row)[bid]));
        let j = choose|j: int| 0 <= j < after.len() && #[trigger] after[j].0 == bid;
        assert(after[j] == before[i]);
    }
}

/// Law: removing a row that a listing selects makes the listing hold exactly
/// one entry fewer, and none for the removed id.
pub proof fn law_listing_shrinks_by_remove<R>(
    before: Seq<(i64, R)>,
    after: Seq<(i64, R)>,
    table: Map<i64, R>,
    id: i64,
    keep: spec_fn(R) -> bool,
)
    requires
        table.contains_key(id),
        keep(table[id]),
        lists_exactly(before, table, keep),
        lists_exactly(after, table.remove(id), keep),
    ensures
        after.len() + 1 == before.len(),
        forall|i: int| 0 <= i < after.len() ==> #[trigger] after[i].0 != id,
{
    lemma_listing_len(before, table, keep);
    lemma_listing_len(after, table.remove(id), keep);
    assert(kept_ids(table.remove(id), keep) =~= kept_ids(table, keep).remove(id));
    assert(kept_ids(table, keep).contains(id));
}

/// Law: a listing that selects fewer rows than another, over the same table,
/// holds only entries the other holds, and no more of them.
pub proof fn law_narrower_listing_within<R>(
    narrow: Seq<(i64, R)>,
    wide: Seq<(i64, R)>,
    table: Map<i64, R>,
    keep_narrow: spec_fn(R) -> bool,
    keep_wide: spec_fn(R) -> bool,
)
    requires
        forall|row: R| #[trigger] keep_narrow(row) ==> keep_wide(row),
        lists_exactly(narrow, table, keep_narrow),
        lists_exactly(wide, table, keep_wide),
    ensures
        narrow.len() <= wide.len(),
        holds_all(wide, narrow),
{
    lemma_listing_len(narrow, table, keep_narrow);
    lemma_listing_len(wide, table, keep_wide);
    assert(kept_ids(table, keep_narrow).subset_of(kept_ids(table, keep_wide)));
    lemma_len_subset(kept_ids(table, keep_narrow), kept_ids(table, keep_wide));
    assert forall|i: int| 0 <= i < narrow.len() implies wide.contains(#[trigger] narrow[i]) by {
        let nid = narrow[i].0;
        assert(keep_narrow(table[nid]));
        assert(table.contains_key(nid) && keep_wide(table[nid]));
        let j = choose|j: int| 0 <= j < wide.len() && #[trigger] wide[j].0 == nid;
        assert(wide[j] == narrow[i]);
    }
}

/// Two listings, in the order of their ids, of the same selected rows are
/// the same listing.
pub proof fn lemma_ordered_listing_unique<R>(a: Seq<(i64, R)>, b: Seq<(i64, R)>, table: Map<i64, R>, keep: spec_fn(R) -> bool)
    requires
        lists_exactly(a, table, keep),
        lists_exactly(b, table, keep),
        ids_increasing(a),
        ids_increasing(b),
    ensures
        a == b,
    decreases a.len(),
{
    lemma_listing_len(a, table, keep);
    lemma_listing_len(b, table, keep);
    if a.len() == 0 {
        assert(a =~= b);
    } else {
        let n = a.len() - 1;
        let x = a[n].0;
        let y = b[n].0;
        assert(table.contains_key(x) && keep(table[x]));
        assert(table.contains_key(y) && keep(table[y]));
        let i = choose|i: int| 0 <= i < b.len() && #[trigger] b[i].0 == x;
        let j = choose|j: int| 0 <= j < a.len() && #[trigger] a[j].0 == y;
        if i < n {
            assert(b[i].0 < b[n].0);
        }
        if j < n {
            assert(a[j].0 < a[n].0);
        }
        assert(x == y);
        let t = table.remove(x);
        let a1 = a.drop_last();
        let b1 = b.drop_last();
        assert forall|k: int| 0 <= k < a1.len() implies #[trigger] a1[k].0 < x by {
            assert(a[k].0 < a[n].0);
        }
        assert forall|k: int| 0 <= k < b1.len() implies #[trigger] b1[k].0 < x by {
            assert(b[k].0 < b[n].0);
        }
        assert(lists_exactly(a1, t, keep)) by {
            assert forall|id: i64| #[trigger] t.contains_key(id) && keep(t[id]) implies
                exists|k: int| 0 <= k < a1.len() && #[trigger] a1[k].0 == id by {
                let k = choose|k: int| 0 <= k < a.len() && #[trigger] a[k].0 == id;
                assert(a1[k].0 == id);
            }
            assert forall|k: int| 0 <= k < a1.len() implies #[trigger] t.contains_key(a1[k].0) by {
                assert(a1[k].0 < x);
            }
        }
        assert(lists_exactly(b1, t, keep)) by {
            assert forall|id: i64| #[trigger] t.contains_key(id) && keep(t[id]) implies
                exists|k: int| 0 <= k < b1.len() && #[trigger] b1[k].0 == id by {
                let k = choose|k: int| 0 <= k < b.len() && #[trigger] b[k].0 == id;
                assert(b1[k].0 == id);
            }
            assert forall|k: int| 0 <= k < b1.len() implies #[trigger] t.contains_key(b1[k].0) by {
                assert(b1[k].0 < x);
            }
        }
        lemma_ordered_listing_unique(a1, b1, t, keep);
        assert(a[n] == b[n]);
        assert(a =~= b1.push(b[n]));
        assert(b =~= b1.push(b[n]));
    }
}

/// Law: a listing in the order of ids, taken after a row was inserted under
/// an id above every earlier one, is the listing taken before, followed by
/// the new row if the listing selects it.
pub proof fn law_listing_after_insert<R>(
    before: Seq<(i64, R)>,
    after: Seq<(i64, R)>,
    table: Map<i64, R>,
    id: i64,
    row: R,
    keep: spec_fn(R) -> bool,
)
    requires
        ids_below(table, id),
        lists_exactly(before, table, keep),
        ids_increasing(before),
        lists_exactly(after, table.insert(id, row), keep),
        ids_increasing(after),
    ensures
        after == (if keep(row) { before.push((id, row)) } else { before }),
{
    let t = table.insert(id, row);
    let c = if keep(row) { before.push((id, row)) } else { before };
    assert forall|k: int| 0 <= k < before.len() implies #[trigger] before[k].0 < id by {
        assert(table.contains_key(before[k].0));
    }
    assert forall|k: int| 0 <= k < c.len() implies {
        &&& t.contains_key(#[trigger] c[k].0)
        &&& t[c[k].0] == c[k].1
        &&& keep(c[k].1)
    } by {
        if k < before.len() {
            assert(c[k] == before[k]);
            assert(before[k].0 < id);
        }
    }
    assert forall|i: int, j: int| 0 <= i < j < c.len() implies #[trigger] c[i].0 < #[trigger] c[j].0 by {
        if j < before.len() {
            assert(c[i] == before[i] && c[j] == before[j]);
        } else {
            assert(c[i] == before[i]);
        }
    }
    assert forall|k: i64| #[trigger] t.contains_key(k) && keep(t[k]) implies
        exists|i: int| 0 <= i < c.len() && #[trigger] c[i].0 == k by {
        if k == id {
            assert(c[before.len() as int].0 == k);
        } else {
            assert(table.contains_key(k) && keep(table[k]));
            let i = choose|i: int| 0 <= i < before.len() && #[trigger] before[i].0 == k;
            assert(c[i] == before[i]);
        }
    }
    assert(lists_exactly(c, t, keep));
    lemma_ordered_listing_unique(after, c, t, keep);
}

/// Law: rows inserted one after the other get positive, growing ids, and
/// the later insertion keeps the earlier row.
pub proof fn law_fresh_ids_grow<R>(t0: Map<i64, R>, t1: Map<i64, R>, t2: Map<i64, R>, a: i64, ra: R, b: i64, rb: R)
    requires
        inserted_fresh(t0, t1, a, ra),
        inserted_fresh(t1, t2, b, rb),
    ensures
        0 < a < b,
        t2.contains_key(a) && t2[a] == ra,
        t2.contains_key(b) && t2[b] == rb,
{
    assert(t1.contains_key(a));
}

} // verus!
