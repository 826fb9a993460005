//! The store of job seekers and of what their resumes are made of:
//! education, work and project experience, and named base resumes.
use vstd::prelude::*;
use rusqlite::Connection;
use crate::json::{
    decode_strings, decode_value, json_of_strings, json_text_of_value, strings_of_json, strings_or_empty, value_or_null,
    views,
};
use crate::models::{
    BaseResume, Education, JobSeeker, JobSeekerInfo, JobSeekerView, ProjectExperience,
    ResumeError, ResumeRow, SeekerRow, WorkExperience, opt_view,
};
use crate::store::{
    DbView, create_resume_tables, db_view, delete_resume, insert_education, insert_project,
    insert_resume, insert_seeker, insert_work, inserted_fresh, is_empty_db, last_insert_rowid,
    ids_increasing, lists_exactly, open_in_memory, select_educations, select_projects, select_resumes,
    select_seeker, select_works, update_seeker,
};

verus! {

/// The stored columns for the seeker details `info`: its job intentions
/// and custom fields written as JSON text.
pub open spec fn seeker_row_of(info: JobSeekerInfo) -> SeekerRow {
    SeekerRow {
        name: info.name@,
        phone: info.phone@,
        email: info.email@,
        job_intention_json: json_of_strings(views(info.job_intention@)),
        self_evaluation: info.self_evaluation@,
        custom_fields_json: json_text_of_value(info.custom_fields),
        photo_path: opt_view(info.photo_path),
    }
}

/// The job seeker read from the stored row `row` with id `id`: the job
/// intentions decoded (empty when their text does not read as a list of
/// strings) and the custom fields decoded (`null` when their text does not
/// parse).
pub open spec fn seeker_view_of(id: i64, row: SeekerRow) -> JobSeekerView {
    JobSeekerView {
        id,
        name: row.name,
        phone: row.phone,
        email: row.email,
        job_intention: decode_strings(row.job_intention_json),
        self_evaluation: row.self_evaluation,
        custom_fields: decode_value(row.custom_fields_json),
        photo_path: row.photo_path,
    }
}

/// The job seeker `get_job_seeker(id)` reads from the database `d`, if the
/// id is there.
pub open spec fn read_seeker(d: DbView, id: i64) -> Option<JobSeekerView> {
    if d.seekers.contains_key(id) {
        Some(seeker_view_of(id, d.seekers[id]))
    } else {
        None
    }
}

/// Keeps the education rows of one seeker.
pub open spec fn of_seeker_edu(seeker_id: i64) -> spec_fn(crate::models::EducationRow) -> bool {
    |row: crate::models::EducationRow| row.job_seeker_id == seeker_id
}

/// Keeps the work rows of one seeker.
pub open spec fn of_seeker_work(seeker_id: i64) -> spec_fn(crate::models::WorkRow) -> bool {
    |row: crate::models::WorkRow| row.job_seeker_id == seeker_id
}

/// Keeps the project rows of one seeker.
pub open spec fn of_seeker_project(seeker_id: i64) -> spec_fn(crate::models::ProjectRow) -> bool {
    |row: crate::models::ProjectRow| row.job_seeker_id == seeker_id
}

/// Keeps the base resume rows of one seeker.
pub open spec fn of_seeker_resume(seeker_id: i64) -> spec_fn(crate::models::ResumeRow) -> bool {
    |row: crate::models::ResumeRow| row.job_seeker_id == seeker_id
}

/// The resume store: a SQLite database holding the resume tables.
pub struct ResumeEngine {
    conn: Connection,
}

impl View for ResumeEngine {
    type V = DbView;

    closed spec fn view(&self) -> DbView {
        db_view(self.conn)
    }
}

impl ResumeEngine {
    /// A store over an already open database, whose resume tables are created
    /// if they are missing; the rows already there are kept.
    ///
    /// The store takes the connection over: its contracts hold while no other
    /// connection writes the same database.
    pub fn with_connection(conn: Connection) -> (r: Result<ResumeEngine, ResumeError>)
        ensures
            match r {
                Ok(e) => e@ == db_view(conn),
                Err(ResumeError::Database(_)) => true,
                Err(_) => false,
            },
    {
        let mut conn = conn;
        match create_resume_tables(&mut conn) {
            Ok(()) => Ok(ResumeEngine { conn }),
            Err(e) => Err(ResumeError::Database(e)),
        }
    }

    /// A store over a new database held in memory, with no rows.
    pub fn new_in_memory() -> (r: Result<ResumeEngine, ResumeError>)
        ensures
            match r {
                Ok(e) => is_empty_db(e@),
                Err(ResumeError::Database(_)) => true,
                Err(_) => false,
            },
    {
        match open_in_memory() {
            Ok(conn) => ResumeEngine::with_connection(conn),
            Err(e) => Err(ResumeError::Database(e)),
        }
    }

    /// Stores a new job seeker and returns it with the id it was given: a
    /// positive id above every id of a stored seeker. Nothing else changes,
    /// and after a database error nothing has changed.
    pub fn create_job_seeker(&mut self, info: JobSeekerInfo) -> (r: Result<JobSeeker, ResumeError>)
        ensures
            match r {
                Ok(s) => {
                    &&& s@ == info.with_id(s.id)
                    &&& inserted_fresh(old(self)@.seekers, final(self)@.seekers, s.id, seeker_row_of(info))
                    &&& final(self)@ == (DbView { seekers: final(self)@.seekers, ..old(self)@ })
                    &&& strings_of_json(seeker_row_of(info).job_intention_json) == Some(views(info.job_intention@))
                },
                Err(ResumeError::Database(_)) => final(self)@ == old(self)@,
                Err(_) => false,
            },
    {
        let intention_json = match info.job_intention_json() {
            Ok(t) => t,
            Err(e) => return Err(ResumeError::Serialization(e)),
        };
        let custom_json = match info.custom_fields_json() {
            Ok(t) => t,
            Err(e) => return Err(ResumeError::Serialization(e)),
        };
        match insert_seeker(
            &mut self.conn,
            info.name.as_str(),
            info.phone.as_str(),
            info.email.as_str(),
            intention_json.as_str(),
            info.self_evaluation.as_str(),
            custom_json.as_str(),
            &info.photo_path,
        ) {
            Ok(_) => {},
            Err(e) => return Err(ResumeError::Database(e)),
        }
        let id = last_insert_rowid(&self.conn);
        Ok(JobSeeker {
            id,
            name: info.name,
            phone: info.phone,
            email: info.email,
            job_intention: info.job_intention,
            self_evaluation: info.self_evaluation,
            custom_fields: info.custom_fields,
            photo_path: info.photo_path,
        })
    }

    /// The job seeker with id `id`, or `NotFound(id)` if there is none. A
    /// job intention list that does not read as JSON comes back empty, and
    /// custom fields that do not parse come back as JSON `null`.
    pub fn get_job_seeker(&self, id: i64) -> (r: Result<JobSeeker, ResumeError>)
        ensures
            match r {
                Ok(s) => read_seeker(self@, id) == Some(s@),
                Err(ResumeError::NotFound(x)) => x == id && read_seeker(self@, id) is None,
                Err(ResumeError::Database(_)) => true,
                Err(ResumeError::Serialization(_)) => false,
            },
    {
        match select_seeker(&self.conn, id) {
            Ok(Some(row)) => {
                let job_intention = strings_or_empty(row.job_intention_json.as_str());
                let custom_fields = value_or_null(row.custom_fields_json.as_str());
                Ok(JobSeeker {
                    id: row.id,
                    name: row.name,
                    phone: row.phone,
                    email: row.email,
                    job_intention,
                    self_evaluation: row.self_evaluation,
                    custom_fields,
                    photo_path: row.photo_path,
                })
            },
            Ok(None) => Err(ResumeError::NotFound(id)),
            Err(e) => Err(ResumeError::Database(e)),
        }
    }

    /// Replaces the details of the job seeker `id` and returns the seeker as
    /// read back, or `NotFound(id)` with nothing changed if there is none.
    pub fn update_job_seeker(&mut self, id: i64, info: JobSeekerInfo) -> (r: Result<JobSeeker, ResumeError>)
        ensures
            match r {
                Ok(s) => {
                    &&& old(self)@.seekers.contains_key(id)
                    &&& final(self)@ == (DbView { seekers: old(self)@.seekers.insert(id, seeker_row_of(info)), ..old(self)@ })
                    &&& s@ == seeker_read_back(info, id)
                },
                Err(ResumeError::NotFound(x)) => x == id && !old(self)@.seekers.contains_key(id)
                    && final(self)@ == old(self)@,
                Err(ResumeError::Database(_)) => final(self)@ == old(self)@ || (old(self)@.seekers.contains_key(id)
                    && final(self)@ == (DbView { seekers: old(self)@.seekers.insert(id, seeker_row_of(info)), ..old(self)@ })),
                Err(ResumeError::Serialization(_)) => false,
            },
    {
        let intention_json = match info.job_intention_json() {
            Ok(t) => t,
            Err(e) => return Err(ResumeError::Serialization(e)),
        };
        let custom_json = match info.custom_fields_json() {
            Ok(t) => t,
            Err(e) => return Err(ResumeError::Serialization(e)),
        };
        let rows = match update_seeker(
            &mut self.conn,
            id,
            info.name.as_str(),
            info.phone.as_str(),
            info.email.as_str(),
            intention_json.as_str(),
            info.self_evaluation.as_str(),
            custom_json.as_str(),
            &info.photo_path,
        ) {
            Ok(n) => n,
            Err(e) => return Err(ResumeError::Database(e)),
        };
        if rows == 0 {
            return Err(ResumeError::NotFound(id));
        }
        self.get_job_seeker(id)
    }

    /// Stores an education of the seeker `seeker_id` and returns it with
    /// the id it was given, positive and above every id of a stored
    /// education.
    pub fn add_education(
        &mut self,
        seeker_id: i64,
        school: &str,
        major: &str,
        degree: &str,
        start_date: &str,
        end_date: &str,
    ) -> (r: Result<Education, ResumeError>)
        ensures
            match r {
                Ok(e) => {
                    &&& e.job_seeker_id == seeker_id && e.school@ == school@ && e.major@ == major@
                    &&& e.degree@ == degree@ && e.start_date@ == start_date@ && e.end_date@ == end_date@
                    &&& inserted_fresh(old(self)@.educations, final(self)@.educations, e.id, e.row())
                    &&& final(self)@ == (DbView { educations: final(self)@.educations, ..old(self)@ })
                },
                Err(ResumeError::Database(_)) => final(self)@ == old(self)@,
                Err(_) => false,
            },
    {
        match insert_education(&mut self.conn, seeker_id, school, major, degree, start_date, end_date) {
            Ok(_) => {},
            Err(e) => return Err(ResumeError::Database(e)),
        }
        Ok(Education {
            id: last_insert_rowid(&self.conn),
            job_seeker_id: seeker_id,
            school: school.to_owned(),
            major: major.to_owned(),
            degree: degree.to_owned(),
            start_date: start_date.to_owned(),
            end_date: end_date.to_owned(),
        })
    }

    /// The educations of the seeker `seeker_id`, each once, in the order
    /// they were stored.
    pub fn list_educations(&self, seeker_id: i64) -> (r: Result<Vec<Education>, ResumeError>)
        ensures
            match r {
                Ok(v) => lists_exactly(
                    v@.map_values(|e: Education| (e.id, e.row())),
                    self@.educations,
                    of_seeker_edu(seeker_id),
                ) && ids_increasing(v@.map_values(|e: Education| (e.id, e.row()))),
                Err(ResumeError::Database(_)) => true,
                Err(_) => false,
            },
    {
        match select_educations(&self.conn, seeker_id) {
            Ok(v) => {
                assert(of_seeker_edu(seeker_id) =~= |row: crate::models::EducationRow| row.job_seeker_id == seeker_id);
                Ok(v)
            },
            Err(e) => Err(ResumeError::Database(e)),
        }
    }

    /// Stores a work experience of the seeker `seeker_id` and returns it
    /// with the id it was given, positive and above every id of a stored work
    /// experience.
    pub fn add_work_experience(
        &mut self,
        seeker_id: i64,
        company: &str,
        position: &str,
        start_date: &str,
        end_date: &str,
        description: &str,
    ) -> (r: Result<WorkExperience, ResumeError>)
        ensures
            match r {
                Ok(e) => {
                    &&& e.job_seeker_id == seeker_id && e.company@ == company@ && e.position@ == position@
                    &&& e.start_date@ == start_date@ && e.end_date@ == end_date@ && e.description@ == description@
                    &&& inserted_fresh(old(self)@.works, final(self)@.works, e.id, e.row())
                    &&& final(self)@ == (DbView { works: final(self)@.works, ..old(self)@ })
                },
                Err(ResumeError::Database(_)) => final(self)@ == old(self)@,
                Err(_) => false,
            },
    {
        match insert_work(&mut self.conn, seeker_id, company, position, start_date, end_date, description) {
            Ok(_) => {},
            Err(e) => return Err(ResumeError::Database(e)),
        }
        Ok(WorkExperience {
            id: last_insert_rowid(&self.conn),
            job_seeker_id: seeker_id,
            company: company.to_owned(),
            position: position.to_owned(),
            start_date: start_date.to_owned(),
            end_date: end_date.to_owned(),
            description: description.to_owned(),
        })
    }

    /// The work experiences of the seeker `seeker_id`, each once, in the
    /// order they were stored.
    pub fn list_work_experiences(&self, seeker_id: i64) -> (r: Result<Vec<WorkExperience>, ResumeError>)
        ensures
            match r {
                Ok(v) => lists_exactly(
                    v@.map_values(|e: WorkExperience| (e.id, e.row())),
                    self@.works,
                    of_seeker_work(seeker_id),
                ) && ids_increasing(v@.map_values(|e: WorkExperience| (e.id, e.row()))),
                Err(ResumeError::Database(_)) => true,
                Err(_) => false,
            },
    {
        match select_works(&self.conn, seeker_id) {
            Ok(v) => {
                assert(of_seeker_work(seeker_id) =~= |row: crate::models::WorkRow| row.job_seeker_id == seeker_id);
                Ok(v)
            },
            Err(e) => Err(ResumeError::Database(e)),
        }
    }

    /// Stores a project experience of the seeker `seeker_id` and returns it
    /// with the id it was given, positive and above every id of a stored
    /// project experience.
    pub fn add_project_experience(
        &mut self,
        seeker_id: i64,
        project_name: &str,
        tech_stack: &str,
        role: &str,
        achievements: &str,
    ) -> (r: Result<ProjectExperience, ResumeError>)
        ensures
            match r {
                Ok(e) => {
                    &&& e.job_seeker_id == seeker_id && e.project_name@ == project_name@
                    &&& e.tech_stack@ == tech_stack@ && e.role@ == role@ && e.achievements@ == achievements@
                    &&& inserted_fresh(old(self)@.projects, final(self)@.projects, e.id, e.row())
                    &&& final(self)@ == (DbView { projects: final(self)@.projects, ..old(self)@ })
                },
                Err(ResumeError::Database(_)) => final(self)@ == old(self)@,
                Err(_) => false,
            },
    {
        match insert_project(&mut self.conn, seeker_id, project_name, tech_stack, role, achievements) {
            Ok(_) => {},
            Err(e) => return Err(ResumeError::Database(e)),
        }
        Ok(ProjectExperience {
            id: last_insert_rowid(&self.conn),
            job_seeker_id: seeker_id,
            project_name: project_name.to_owned(),
            tech_stack: tech_stack.to_owned(),
            role: role.to_owned(),
            achievements: achievements.to_owned(),
        })
    }

    /// The project experiences of the seeker `seeker_id`, each once, in the
    /// order they were stored.
    pub fn list_project_experiences(&self, seeker_id: i64) -> (r: Result<Vec<ProjectExperience>, ResumeError>)
        ensures
            match r {
                Ok(v) => lists_exactly(
                    v@.map_values(|e: ProjectExperience| (e.id, e.row())),
                    self@.projects,
                    of_seeker_project(seeker_id),
                ) && ids_increasing(v@.map_values(|e: ProjectExperience| (e.id, e.row()))),
                Err(ResumeError::Database(_)) => true,
                Err(_) => false,
            },
    {
        match select_projects(&self.conn, seeker_id) {
            Ok(v) => {
                assert(of_seeker_project(seeker_id) =~= |row: crate::models::ProjectRow| row.job_seeker_id == seeker_id);
                Ok(v)
            },
            Err(e) => Err(ResumeError::Database(e)),
        }
    }

    /// Stores a base resume named `name` for the seeker `seeker_id` and
    /// returns it with the id it was given: positive and above every id ever
    /// given to a resume, deleted ones included.
    pub fn create_base_resume(&mut self, seeker_id: i64, name: &str) -> (r: Result<BaseResume, ResumeError>)
        ensures
            match r {
                Ok(b) => {
                    &&& b.job_seeker_id == seeker_id && b.name@ == name@
                    &&& inserted_fresh(old(self)@.resumes, final(self)@.resumes, b.id, b.row())
                    &&& old(self)@.resume_seq < b.id
                    &&& final(self)@ == (DbView { resumes: final(self)@.resumes, resume_seq: b.id, ..old(self)@ })
                },
                Err(ResumeError::Database(_)) => final(self)@ == old(self)@,
                Err(_) => false,
            },
    {
        match insert_resume(&mut self.conn, seeker_id, name) {
            Ok(_) => {},
            Err(e) => return Err(ResumeError::Database(e)),
        }
        Ok(BaseResume { id: last_insert_rowid(&self.conn), name: name.to_owned(), job_seeker_id: seeker_id })
    }

    /// The base resumes of the seeker `seeker_id`, each once, in the order
    /// they were stored.
    pub fn list_base_resumes(&self, seeker_id: i64) -> (r: Result<Vec<BaseResume>, ResumeError>)
        ensures
            match r {
                Ok(v) => lists_exactly(
                    v@.map_values(|e: BaseResume| (e.id, e.row())),
                    self@.resumes,
                    of_seeker_resume(seeker_id),
                ) && ids_increasing(v@.map_values(|e: BaseResume| (e.id, e.row()))),
                Err(ResumeError::Database(_)) => true,
                Err(_) => false,
            },
    {
        match select_resumes(&self.conn, seeker_id) {
            Ok(v) => {
                assert(of_seeker_resume(seeker_id) =~= |row: crate::models::ResumeRow| row.job_seeker_id == seeker_id);
                Ok(v)
            },
            Err(e) => Err(ResumeError::Database(e)),
        }
    }

    /// Deletes the base resume `id`, or answers `NotFound(id)` with nothing
    /// changed if there is none.
    pub fn delete_base_resume(&mut self, id: i64) -> (r: Result<(), ResumeError>)
        ensures
            match r {
                Ok(()) => old(self)@.resumes.contains_key(id)
                    && final(self)@ == (DbView { resumes: old(self)@.resumes.remove(id), ..old(self)@ }),
                Err(ResumeError::NotFound(x)) => x == id && !old(self)@.resumes.contains_key(id)
                    && final(self)@ == old(self)@,
                Err(ResumeError::Database(_)) => final(self)@ == old(self)@,
                Err(ResumeError::Serialization(_)) => false,
            },
    {
        let rows = match delete_resume(&mut self.conn, id) {
            Ok(n) => n,
            Err(e) => return Err(ResumeError::Database(e)),
        };
        if rows == 0 {
            return Err(ResumeError::NotFound(id));
        }
        Ok(())
    }
}

/// Law: the id of a deleted base resume is never given again: a resume
/// created after it was deleted gets a larger id, and the deleted one stays
/// gone.
pub proof fn law_deleted_resume_id_not_reused(d0: DbView, a: i64, ra: ResumeRow, b: i64)
    requires
        d0.resume_seq < a,
    ensures
        ({
            let d1 = DbView { resumes: d0.resumes.insert(a, ra), resume_seq: a, ..d0 };
            let d2 = DbView { resumes: d1.resumes.remove(a), ..d1 };
            &&& !d2.resumes.contains_key(a)
            &&& d2.resume_seq < b ==> a < b
        }),
{
}

/// The job seeker the details `info` read back as under the id `id`: as
/// written, with the custom fields as their JSON text reads back.
pub open spec fn seeker_read_back(info: JobSeekerInfo, id: i64) -> JobSeekerView {
    JobSeekerView { custom_fields: decode_value(json_text_of_value(info.custom_fields)), ..info.with_id(id) }
}

/// Law: a job seeker read back right after it was created holds what was
/// written, and every other seeker reads as before. The premise on the
/// JSON text is what `create_job_seeker` guarantees of the text it stores.
pub proof fn law_created_seeker_reads_back(before: DbView, after: DbView, id: i64, info: JobSeekerInfo)
    requires
        inserted_fresh(before.seekers, after.seekers, id, seeker_row_of(info)),
        strings_of_json(seeker_row_of(info).job_intention_json) == Some(views(info.job_intention@)),
    ensures
        read_seeker(after, id) == Some(seeker_read_back(info, id)),
        forall|other: i64| other != id ==> #[trigger] read_seeker(after, other) == read_seeker(before, other),
{
    assert(read_seeker(after, id) == Some(seeker_read_back(info, id)));
}

/// Law: a job seeker read back right after an update holds the new details,
/// and every other seeker reads as before. The premise on the JSON text is
/// what `update_job_seeker` guarantees of the text it stores.
pub proof fn law_updated_seeker_reads_back(before: DbView, id: i64, info: JobSeekerInfo)
    requires
        before.seekers.contains_key(id),
        strings_of_json(seeker_row_of(info).job_intention_json) == Some(views(info.job_intention@)),
    ensures
        read_seeker(DbView { seekers: before.seekers.insert(id, seeker_row_of(info)), ..before }, id)
            == Some(seeker_read_back(info, id)),
        forall|other: i64| other != id ==> #[trigger] read_seeker(
            DbView { seekers: before.seekers.insert(id, seeker_row_of(info)), ..before },
            other,
        ) == read_seeker(before, other),
{
    let after = DbView { seekers: before.seekers.insert(id, seeker_row_of(info)), ..before };
    assert(read_seeker(after, id) == Some(seeker_read_back(info, id)));
}

} // verus!
