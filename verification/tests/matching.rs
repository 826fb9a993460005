use zeroresume::matching::{
    Band, EducationFit, ExplanationInput, LocationFit, SkillsFit, education_fit, education_level,
    education_level_of_lowered, generate_explanation, join_strings, location_fit, skills_fit,
};

fn strings(v: &[&str]) -> Vec<String> {
    v.iter().map(|s| s.to_string()).collect()
}

#[test]
fn education_levels_of_common_degrees() {
    assert_eq!(education_level("博士"), 5);
    assert_eq!(education_level("PhD"), 5);
    assert_eq!(education_level("Doctor of Science"), 5);
    assert_eq!(education_level("硕士"), 4);
    assert_eq!(education_level("Master"), 4);
    assert_eq!(education_level("研究生"), 4);
    assert_eq!(education_level("本科"), 3);
    assert_eq!(education_level("BACHELOR"), 3);
    assert_eq!(education_level("学士"), 3);
    assert_eq!(education_level("大专"), 2);
    assert_eq!(education_level("专科"), 2);
    assert_eq!(education_level("Associate"), 2);
    assert_eq!(education_level("高中"), 1);
    assert_eq!(education_level("中专"), 1);
    assert_eq!(education_level("不限"), 0);
    assert_eq!(education_level(""), 0);
}

#[test]
fn education_level_takes_the_highest_keyword_group_first() {
    assert_eq!(education_level("本科及以上，硕士优先"), 4);
    assert_eq!(education_level("博士后"), 5);
    assert_eq!(education_level_of_lowered("MASTER"), 0);
    assert_eq!(education_level_of_lowered("master"), 4);
}

#[test]
fn education_fit_cases() {
    assert_eq!(education_fit("硕士", "本科"), EducationFit::Meets);
    assert_eq!(education_fit("本科", "本科"), EducationFit::Meets);
    assert_eq!(education_fit("大专", "本科"), EducationFit::OneBelow);
    assert_eq!(education_fit("高中", "本科"), EducationFit::FarBelow);
    assert_eq!(education_fit("", "本科"), EducationFit::FarBelow);
    assert_eq!(education_fit("本科", "硕士"), EducationFit::OneBelow);
    assert_eq!(education_fit("博士", "不限"), EducationFit::NotRequired);
}

#[test]
fn skills_fit_counts_held_skills() {
    assert_eq!(
        skills_fit(&strings(&["React", "TypeScript", "Node.js"]), &strings(&["React", "TypeScript"])),
        SkillsFit::Counted { matched: 2, required: 2 }
    );
    assert_eq!(
        skills_fit(&strings(&["React", "Vue"]), &strings(&["React", "TypeScript", "Python"])),
        SkillsFit::Counted { matched: 1, required: 3 }
    );
    assert_eq!(skills_fit(&strings(&["React"]), &[]), SkillsFit::NotRequired);
    assert_eq!(skills_fit(&[], &strings(&["Go"])), SkillsFit::Counted { matched: 0, required: 1 });
}

#[test]
fn skills_fit_ignores_case_and_counts_repeats() {
    assert_eq!(
        skills_fit(&strings(&["react"]), &strings(&["REACT", "React", "Rust"])),
        SkillsFit::Counted { matched: 2, required: 3 }
    );
    assert_eq!(
        skills_fit(&strings(&["typescript"]), &strings(&["Type Script"])),
        SkillsFit::Counted { matched: 0, required: 1 }
    );
}

#[test]
fn location_fit_cases() {
    assert_eq!(location_fit(&strings(&["北京", "上海"]), "北京"), LocationFit::Agrees);
    assert_eq!(location_fit(&strings(&["广州", "深圳"]), "北京"), LocationFit::Differs);
    assert_eq!(location_fit(&[], "北京"), LocationFit::Unspecified);
    assert_eq!(location_fit(&strings(&["北京"]), ""), LocationFit::Unspecified);
    assert_eq!(location_fit(&strings(&["Beijing"]), "beijing chaoyang"), LocationFit::Agrees);
    assert_eq!(location_fit(&strings(&["北京市朝阳区"]), "北京"), LocationFit::Agrees);
    assert_eq!(location_fit(&strings(&[""]), "北京"), LocationFit::Agrees);
}

fn input(skills: Band, experience: Band, edu: bool, salary: bool, loc: bool) -> ExplanationInput {
    ExplanationInput { skills, experience, education_short: edu, salary_short: salary, location_short: loc }
}

#[test]
fn explanation_of_a_perfect_match() {
    let e = generate_explanation(&input(Band::High, Band::High, false, false, false));
    assert_eq!(e, "技能匹配度高，经验充足");
}

#[test]
fn explanation_lists_every_shortfall_in_order() {
    let e = generate_explanation(&input(Band::Low, Band::Low, true, true, true));
    assert_eq!(e, "技能匹配度低，经验不足，学历未达要求，薪资期望偏高，地域不匹配");
    let e = generate_explanation(&input(Band::Medium, Band::Medium, false, true, false));
    assert_eq!(e, "技能部分匹配，经验稍欠缺，薪资期望偏高");
    let e = generate_explanation(&input(Band::High, Band::Medium, true, false, true));
    assert_eq!(e, "技能匹配度高，经验稍欠缺，学历未达要求，地域不匹配");
}

#[test]
fn join_strings_cases() {
    assert_eq!(join_strings(&strings(&[]), ","), "");
    assert_eq!(join_strings(&strings(&["a"]), ","), "a");
    assert_eq!(join_strings(&strings(&["a", "b", "c"]), ", "), "a, b, c");
    assert_eq!(join_strings(&strings(&["", ""]), "-"), "-");
}
