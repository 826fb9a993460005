use zeroresume::models::{JobSeekerInfo, ResumeError};
use zeroresume::resume_engine::ResumeEngine;

fn create_engine() -> ResumeEngine {
    ResumeEngine::new_in_memory().unwrap()
}

fn json_object(pairs: &[(&str, &str)]) -> serde_json::Value {
    let mut m = serde_json::Map::new();
    for (k, v) in pairs {
        m.insert(k.to_string(), serde_json::Value::String(v.to_string()));
    }
    serde_json::Value::Object(m)
}

fn sample_seeker_info(name: &str) -> JobSeekerInfo {
    JobSeekerInfo {
        name: name.to_string(),
        phone: "13800138000".to_string(),
        email: format!("{}@example.com", name),
        job_intention: vec!["前端开发".to_string()],
        self_evaluation: "3年经验".to_string(),
        custom_fields: json_object(&[]),
        photo_path: None,
    }
}

#[test]
fn create_job_seeker_stores_and_retrieves() {
    let mut engine = create_engine();
    let info = JobSeekerInfo {
        name: "张三".to_string(),
        phone: "13800138000".to_string(),
        email: "zhangsan@example.com".to_string(),
        job_intention: vec!["前端开发".to_string(), "全栈开发".to_string()],
        self_evaluation: "3年前端开发经验".to_string(),
        custom_fields: json_object(&[("政治面貌", "党员")]),
        photo_path: Some("/photos/zhangsan.jpg".to_string()),
    };

    let created = engine.create_job_seeker(info).unwrap();
    assert!(created.id > 0);

    let retrieved = engine.get_job_seeker(created.id).unwrap();
    assert_eq!(retrieved.name, "张三");
    assert_eq!(retrieved.phone, "13800138000");
    assert_eq!(retrieved.email, "zhangsan@example.com");
    assert_eq!(retrieved.job_intention, vec!["前端开发", "全栈开发"]);
    assert_eq!(retrieved.self_evaluation, "3年前端开发经验");
    assert_eq!(retrieved.custom_fields["政治面貌"], "党员");
    assert_eq!(retrieved.photo_path, Some("/photos/zhangsan.jpg".to_string()));
}

#[test]
fn get_job_seeker_not_found() {
    let engine = create_engine();
    let result = engine.get_job_seeker(999);
    assert!(matches!(result, Err(ResumeError::NotFound(999))));
}

#[test]
fn update_job_seeker_modifies_fields() {
    let mut engine = create_engine();
    let created = engine.create_job_seeker(sample_seeker_info("李四")).unwrap();

    let updated_info = JobSeekerInfo {
        name: "李四更新".to_string(),
        phone: "13900139999".to_string(),
        email: "lisi_new@example.com".to_string(),
        job_intention: vec!["后端开发".to_string(), "架构师".to_string()],
        self_evaluation: "5年后端经验".to_string(),
        custom_fields: json_object(&[("民族", "汉族")]),
        photo_path: Some("/photos/lisi.jpg".to_string()),
    };
    let updated = engine.update_job_seeker(created.id, updated_info).unwrap();
    assert_eq!(updated.name, "李四更新");
    assert_eq!(updated.phone, "13900139999");
    assert_eq!(updated.email, "lisi_new@example.com");
    assert_eq!(updated.job_intention.len(), 2);
    assert_eq!(updated.self_evaluation, "5年后端经验");
}

#[test]
fn update_job_seeker_not_found() {
    let mut engine = create_engine();
    let result = engine.update_job_seeker(999, sample_seeker_info("不存在"));
    assert!(matches!(result, Err(ResumeError::NotFound(999))));
}

#[test]
fn add_and_list_educations() {
    let mut engine = create_engine();
    let seeker = engine.create_job_seeker(sample_seeker_info("王五")).unwrap();

    engine.add_education(seeker.id, "清华大学", "计算机科学", "本科", "2018-09", "2022-06").unwrap();
    engine.add_education(seeker.id, "北京大学", "人工智能", "硕士", "2022-09", "2025-06").unwrap();

    let educations = engine.list_educations(seeker.id).unwrap();
    assert_eq!(educations.len(), 2);
    assert_eq!(educations[0].school, "清华大学");
    assert_eq!(educations[1].major, "人工智能");
}

#[test]
fn add_and_list_work_experiences() {
    let mut engine = create_engine();
    let seeker = engine.create_job_seeker(sample_seeker_info("赵六")).unwrap();

    engine.add_work_experience(seeker.id, "字节跳动", "前端工程师", "2022-07", "2024-03", "抖音Web端").unwrap();
    engine.add_work_experience(seeker.id, "阿里巴巴", "高级前端", "2024-04", "", "淘宝首页").unwrap();

    let works = engine.list_work_experiences(seeker.id).unwrap();
    assert_eq!(works.len(), 2);
    assert_eq!(works[0].company, "字节跳动");
    assert_eq!(works[1].position, "高级前端");
}

#[test]
fn add_and_list_project_experiences() {
    let mut engine = create_engine();
    let seeker = engine.create_job_seeker(sample_seeker_info("孙七")).unwrap();

    engine.add_project_experience(seeker.id, "电商系统", "React+Node.js", "全栈开发", "日活提升30%").unwrap();
    engine.add_project_experience(seeker.id, "推荐引擎", "Rust+Python", "核心开发", "CTR提升15%").unwrap();

    let projects = engine.list_project_experiences(seeker.id).unwrap();
    assert_eq!(projects.len(), 2);
    assert_eq!(projects[0].project_name, "电商系统");
    assert_eq!(projects[1].tech_stack, "Rust+Python");
}

#[test]
fn create_and_list_base_resumes() {
    let mut engine = create_engine();
    let seeker = engine.create_job_seeker(sample_seeker_info("周八")).unwrap();

    engine.create_base_resume(seeker.id, "互联网版").unwrap();
    engine.create_base_resume(seeker.id, "国企版").unwrap();

    let resumes = engine.list_base_resumes(seeker.id).unwrap();
    assert_eq!(resumes.len(), 2);
    assert_eq!(resumes[0].name, "互联网版");
    assert_eq!(resumes[1].name, "国企版");
}

#[test]
fn delete_base_resume_removes_from_list() {
    let mut engine = create_engine();
    let seeker = engine.create_job_seeker(sample_seeker_info("吴九")).unwrap();

    let r1 = engine.create_base_resume(seeker.id, "简历A").unwrap();
    engine.create_base_resume(seeker.id, "简历B").unwrap();

    engine.delete_base_resume(r1.id).unwrap();
    let resumes = engine.list_base_resumes(seeker.id).unwrap();
    assert_eq!(resumes.len(), 1);
    assert_eq!(resumes[0].name, "简历B");
}

#[test]
fn delete_base_resume_not_found() {
    let mut engine = create_engine();
    let result = engine.delete_base_resume(999);
    assert!(matches!(result, Err(ResumeError::NotFound(999))));
}

#[test]
fn created_seekers_get_distinct_ids_and_keep_each_other() {
    let mut engine = create_engine();
    let a = engine.create_job_seeker(sample_seeker_info("甲")).unwrap();
    let b = engine.create_job_seeker(sample_seeker_info("乙")).unwrap();
    assert_ne!(a.id, b.id);
    assert_eq!(engine.get_job_seeker(a.id).unwrap().name, "甲");
    assert_eq!(engine.get_job_seeker(b.id).unwrap().name, "乙");
    assert_eq!(engine.get_job_seeker(a.id).unwrap().email, "甲@example.com");
}

#[test]
fn update_keeps_other_seekers() {
    let mut engine = create_engine();
    let a = engine.create_job_seeker(sample_seeker_info("甲")).unwrap();
    let b = engine.create_job_seeker(sample_seeker_info("乙")).unwrap();
    engine.update_job_seeker(a.id, sample_seeker_info("丙")).unwrap();
    assert_eq!(engine.get_job_seeker(a.id).unwrap().name, "丙");
    assert_eq!(engine.get_job_seeker(b.id).unwrap().name, "乙");
}

#[test]
fn job_intention_with_quotes_and_escapes_reads_back() {
    let mut engine = create_engine();
    let mut info = sample_seeker_info("引号");
    info.job_intention = vec!["a\"b".to_string(), "back\\slash".to_string(), "line\nbreak".to_string(), String::new()];
    let created = engine.create_job_seeker(info).unwrap();
    let retrieved = engine.get_job_seeker(created.id).unwrap();
    assert_eq!(retrieved.job_intention, vec!["a\"b", "back\\slash", "line\nbreak", ""]);
}

#[test]
fn lists_hold_only_the_seekers_own_rows() {
    let mut engine = create_engine();
    let a = engine.create_job_seeker(sample_seeker_info("甲")).unwrap();
    let b = engine.create_job_seeker(sample_seeker_info("乙")).unwrap();
    engine.add_education(a.id, "甲校", "", "", "", "").unwrap();
    engine.add_education(b.id, "乙校", "", "", "", "").unwrap();
    engine.create_base_resume(b.id, "乙的简历").unwrap();
    let ea = engine.list_educations(a.id).unwrap();
    assert_eq!(ea.len(), 1);
    assert_eq!(ea[0].school, "甲校");
    assert_eq!(ea[0].job_seeker_id, a.id);
    assert_eq!(engine.list_base_resumes(a.id).unwrap().len(), 0);
    assert_eq!(engine.list_base_resumes(b.id).unwrap().len(), 1);
    assert_eq!(engine.list_work_experiences(a.id).unwrap().len(), 0);
    assert_eq!(engine.list_project_experiences(b.id).unwrap().len(), 0);
}

#[test]
fn added_records_echo_their_inputs() {
    let mut engine = create_engine();
    let s = engine.create_job_seeker(sample_seeker_info("钱")).unwrap();
    let w = engine.add_work_experience(s.id, "公司", "职位", "2020-01", "2021-01", "描述").unwrap();
    assert_eq!(w.job_seeker_id, s.id);
    assert_eq!(w.company, "公司");
    assert_eq!(w.end_date, "2021-01");
    assert_eq!(w.description, "描述");
    let p = engine.add_project_experience(s.id, "项目", "Rust", "角色", "成果").unwrap();
    assert_eq!(p.role, "角色");
    assert_eq!(p.achievements, "成果");
    let r = engine.create_base_resume(s.id, "名字").unwrap();
    assert_eq!(r.name, "名字");
    assert_eq!(r.job_seeker_id, s.id);
}

#[test]
fn deleting_twice_reports_not_found() {
    let mut engine = create_engine();
    let s = engine.create_job_seeker(sample_seeker_info("孙")).unwrap();
    let r = engine.create_base_resume(s.id, "简历").unwrap();
    engine.delete_base_resume(r.id).unwrap();
    assert!(matches!(engine.delete_base_resume(r.id), Err(ResumeError::NotFound(id)) if id == r.id));
}

#[test]
fn listings_keep_insertion_order_and_ids_grow() {
    let mut engine = create_engine();
    let a = engine.create_job_seeker(sample_seeker_info("甲")).unwrap();
    let b = engine.create_job_seeker(sample_seeker_info("乙")).unwrap();
    assert!(0 < a.id && a.id < b.id);
    let e1 = engine.add_education(a.id, "一校", "", "", "", "").unwrap();
    engine.add_education(b.id, "他校", "", "", "", "").unwrap();
    let e2 = engine.add_education(a.id, "二校", "", "", "", "").unwrap();
    let e3 = engine.add_education(a.id, "三校", "", "", "", "").unwrap();
    assert!(e1.id < e2.id && e2.id < e3.id);
    let schools: Vec<String> = engine.list_educations(a.id).unwrap().into_iter().map(|e| e.school).collect();
    assert_eq!(schools, vec!["一校", "二校", "三校"]);
}

#[test]
fn resume_ids_are_not_reused_after_delete() {
    let mut engine = create_engine();
    let s = engine.create_job_seeker(sample_seeker_info("丁")).unwrap();
    engine.create_base_resume(s.id, "一").unwrap();
    let r2 = engine.create_base_resume(s.id, "二").unwrap();
    engine.delete_base_resume(r2.id).unwrap();
    let r3 = engine.create_base_resume(s.id, "三").unwrap();
    assert!(r3.id > r2.id);
    let names: Vec<String> = engine.list_base_resumes(s.id).unwrap().into_iter().map(|r| r.name).collect();
    assert_eq!(names, vec!["一", "三"]);
}

#[test]
fn json_columns_are_written_as_compact_json() {
    let mut info = sample_seeker_info("戊");
    info.job_intention = vec!["前端开发".to_string(), "a\"b\\c".to_string(), "\u{1}\n".to_string()];
    info.custom_fields = json_object(&[("政治面貌", "党员")]);
    assert_eq!(
        info.job_intention_json().unwrap(),
        "[\"前端开发\",\"a\\\"b\\\\c\",\"\\u0001\\n\"]"
    );
    assert_eq!(info.custom_fields_json().unwrap(), "{\"政治面貌\":\"党员\"}");
    let empty = JobSeekerInfo { job_intention: vec![], ..sample_seeker_info("己") };
    assert_eq!(empty.job_intention_json().unwrap(), "[]");
}

#[test]
fn custom_fields_read_back_after_update() {
    let mut engine = create_engine();
    let s = engine.create_job_seeker(sample_seeker_info("庚")).unwrap();
    let mut info = sample_seeker_info("庚");
    info.custom_fields = json_object(&[("籍贯", "北京")]);
    let updated = engine.update_job_seeker(s.id, info).unwrap();
    assert_eq!(updated.custom_fields["籍贯"], "北京");
    assert_eq!(engine.get_job_seeker(s.id).unwrap().custom_fields["籍贯"], "北京");
}
