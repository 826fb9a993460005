//! The records the library stores and hands out, with their views: the
//! spec-level values the contracts speak of.
use vstd::prelude::*;
use crate::json::{json_of_strings, json_text_of_value, strings_of_json, strings_to_json, value_to_json, views};

verus! {

/// The view of an optional string.
pub open spec fn opt_view(o: Option<String>) -> Option<Seq<char>> {
    match o {
        Some(s) => Some(s@),
        None => None,
    }
}

/// A job seeker as stored, with the id the database gave it.
#[derive(Debug)]
pub struct JobSeeker {
    pub id: i64,
    pub name: String,
    pub phone: String,
    pub email: String,
    pub job_intention: Vec<String>,
    pub self_evaluation: String,
    pub custom_fields: serde_json::Value,
    pub photo_path: Option<String>,
}

/// What the contracts see of a job seeker.
pub struct JobSeekerView {
    pub id: i64,
    pub name: Seq<char>,
    pub phone: Seq<char>,
    pub email: Seq<char>,
    pub job_intention: Seq<Seq<char>>,
    pub self_evaluation: Seq<char>,
    pub custom_fields: serde_json::Value,
    pub photo_path: Option<Seq<char>>,
}

impl View for JobSeeker {
    type V = JobSeekerView;

    open spec fn view(&self) -> JobSeekerView {
        JobSeekerView {
            id: self.id,
            name: self.name@,
            phone: self.phone@,
            email: self.email@,
            job_intention: views(self.job_intention@),
            self_evaluation: self.self_evaluation@,
            custom_fields: self.custom_fields,
            photo_path: opt_view(self.photo_path),
        }
    }
}

/// The details of a job seeker, before the database gives it an id.
#[derive(Debug)]
pub struct JobSeekerInfo {
    pub name: String,
    pub phone: String,
    pub email: String,
    pub job_intention: Vec<String>,
    pub self_evaluation: String,
    pub custom_fields: serde_json::Value,
    pub photo_path: Option<String>,
}

impl JobSeekerInfo {
    /// The seeker these details describe once given the id `id`, as the
    /// contracts see it.
    pub open spec fn with_id(&self, id: i64) -> JobSeekerView {
        JobSeekerView {
            id,
            name: self.name@,
            phone: self.phone@,
            email: self.email@,
            job_intention: views(self.job_intention@),
            self_evaluation: self.self_evaluation@,
            custom_fields: self.custom_fields,
            photo_path: opt_view(self.photo_path),
        }
    }
}

impl JobSeekerInfo {
    /// The job intentions as JSON text: an array of strings, which reads back
    /// as the same list. It never fails.
    pub fn job_intention_json(&self) -> (r: Result<String, serde_json::Error>)
        ensures
            r is Ok,
            r matches Ok(t) ==> t@ == json_of_strings(views(self.job_intention@))
                && strings_of_json(t@) == Some(views(self.job_intention@)),
    {
        strings_to_json(&self.job_intention)
    }

    /// The custom fields as JSON text. It never fails.
    pub fn custom_fields_json(&self) -> (r: Result<String, serde_json::Error>)
        ensures
            r is Ok,
            r matches Ok(t) ==> t@ == json_text_of_value(self.custom_fields),
    {
        value_to_json(&self.custom_fields)
    }
}

/// The stored columns of a job seeker row, the two JSON columns as their
/// text.
pub struct SeekerRow {
    pub name: Seq<char>,
    pub phone: Seq<char>,
    pub email: Seq<char>,
    pub job_intention_json: Seq<char>,
    pub self_evaluation: Seq<char>,
    pub custom_fields_json: Seq<char>,
    pub photo_path: Option<Seq<char>>,
}

/// A school attended by a job seeker.
#[derive(Debug, Clone)]
pub struct Education {
    pub id: i64,
    pub job_seeker_id: i64,
    pub school: String,
    pub major: String,
    pub degree: String,
    pub start_date: String,
    pub end_date: String,
}

/// The stored columns of an education row.
pub struct EducationRow {
    pub job_seeker_id: i64,
    pub school: Seq<char>,
    pub major: Seq<char>,
    pub degree: Seq<char>,
    pub start_date: Seq<char>,
    pub end_date: Seq<char>,
}

impl Education {
    /// The columns this record stores.
    pub open spec fn row(&self) -> EducationRow {
        EducationRow {
            job_seeker_id: self.job_seeker_id,
            school: self.school@,
            major: self.major@,
            degree: self.degree@,
            start_date: self.start_date@,
            end_date: self.end_date@,
        }
    }
}

/// A job or internship held by a job seeker.
#[derive(Debug, Clone)]
pub struct WorkExperience {
    pub id: i64,
    pub job_seeker_id: i64,
    pub company: String,
    pub position: String,
    pub start_date: String,
    pub end_date: String,
    pub description: String,
}

/// The stored columns of a work experience row.
pub struct WorkRow {
    pub job_seeker_id: i64,
    pub company: Seq<char>,
    pub position: Seq<char>,
    pub start_date: Seq<char>,
    pub end_date: Seq<char>,
    pub description: Seq<char>,
}

impl WorkExperience {
    /// The columns this record stores.
    pub open spec fn row(&self) -> WorkRow {
        WorkRow {
            job_seeker_id: self.job_seeker_id,
            company: self.company@,
            position: self.position@,
            start_date: self.start_date@,
            end_date: self.end_date@,
            description: self.description@,
        }
    }
}

/// A project a job seeker took part in.
#[derive(Debug, Clone)]
pub struct ProjectExperience {
    pub id: i64,
    pub job_seeker_id: i64,
    pub project_name: String,
    pub tech_stack: String,
    pub role: String,
    pub achievements: String,
}

/// The stored columns of a project experience row.
pub struct ProjectRow {
    pub job_seeker_id: i64,
    pub project_name: Seq<char>,
    pub tech_stack: Seq<char>,
    pub role: Seq<char>,
    pub achievements: Seq<char>,
}

impl ProjectExperience {
    /// The columns this record stores.
    pub open spec fn row(&self) -> ProjectRow {
        ProjectRow {
            job_seeker_id: self.job_seeker_id,
            project_name: self.project_name@,
            tech_stack: self.tech_stack@,
            role: self.role@,
            achievements: self.achievements@,
        }
    }
}

/// A named base resume of a job seeker.
#[derive(Debug, Clone)]
pub struct BaseResume {
    pub id: i64,
    pub name: String,
    pub job_seeker_id: i64,
}

/// The stored columns of a base resume row.
pub struct ResumeRow {
    pub name: Seq<char>,
    pub job_seeker_id: i64,
}

impl BaseResume {
    /// The columns this record stores.
    pub open spec fn row(&self) -> ResumeRow {
        ResumeRow { name: self.name@, job_seeker_id: self.job_seeker_id }
    }
}

/// A crawled job posting as stored.
#[derive(Debug)]
pub struct Job {
    pub id: i64,
    pub platform: String,
    pub job_title: String,
    pub company_name: String,
    pub jd_text: String,
    pub salary_range: String,
    pub location: String,
    pub skills_required: Vec<String>,
    pub experience_req: String,
    pub education_req: String,
    /// The stored match score: `None` (SQL `NULL`) until one is recorded.
    pub match_score: Option<rusqlite::types::Value>,
    pub score_details: Option<serde_json::Value>,
    pub crawl_time: String,
    pub is_expired: bool,
}

/// What the contracts see of a job posting.
pub struct JobView {
    pub id: i64,
    pub platform: Seq<char>,
    pub job_title: Seq<char>,
    pub company_name: Seq<char>,
    pub jd_text: Seq<char>,
    pub salary_range: Seq<char>,
    pub location: Seq<char>,
    pub skills_required: Seq<Seq<char>>,
    pub experience_req: Seq<char>,
    pub education_req: Seq<char>,
    pub match_score: Option<rusqlite::types::Value>,
    pub score_details: Option<serde_json::Value>,
    pub crawl_time: Seq<char>,
    pub is_expired: bool,
}

impl View for Job {
    type V = JobView;

    open spec fn view(&self) -> JobView {
        JobView {
            id: self.id,
            platform: self.platform@,
            job_title: self.job_title@,
            company_name: self.company_name@,
            jd_text: self.jd_text@,
            salary_range: self.salary_range@,
            location: self.location@,
            skills_required: views(self.skills_required@),
            experience_req: self.experience_req@,
            education_req: self.education_req@,
            match_score: self.match_score,
            score_details: self.score_details,
            crawl_time: self.crawl_time@,
            is_expired: self.is_expired,
        }
    }
}

/// The details of a job posting as crawled, before it is stored.
#[derive(Debug, Clone)]
pub struct JobInfo {
    pub platform: String,
    pub job_title: String,
    pub company_name: String,
    pub jd_text: String,
    pub salary_range: String,
    pub location: String,
    pub skills_required: Vec<String>,
    pub experience_req: String,
    pub education_req: String,
}

impl JobInfo {
    /// The required skills as JSON text: an array of strings, which reads
    /// back as the same list. It never fails.
    pub fn skills_json(&self) -> (r: Result<String, serde_json::Error>)
        ensures
            r is Ok,
            r matches Ok(t) ==> t@ == json_of_strings(views(self.skills_required@))
                && strings_of_json(t@) == Some(views(self.skills_required@)),
    {
        strings_to_json(&self.skills_required)
    }
}

/// The stored columns of a job row: the match score as the SQL value it
/// holds (`None` for `NULL`), and the score details as their JSON text.
pub struct JobRow {
    pub platform: Seq<char>,
    pub job_title: Seq<char>,
    pub company_name: Seq<char>,
    pub jd_text: Seq<char>,
    pub salary_range: Seq<char>,
    pub location: Seq<char>,
    pub skills_json: Seq<char>,
    pub experience_req: Seq<char>,
    pub education_req: Seq<char>,
    pub match_score: Option<rusqlite::types::Value>,
    pub score_details_json: Option<Seq<char>>,
    pub crawl_time: Seq<char>,
    pub is_expired: i32,
}

/// Why an operation of the library failed.
#[derive(Debug)]
pub enum ResumeError {
    /// No record has the given id.
    NotFound(i64),
    /// The database reported an error.
    Database(rusqlite::Error),
    /// A JSON value could not be written as text.
    Serialization(serde_json::Error),
}

} // verus!
