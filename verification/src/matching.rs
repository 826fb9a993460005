//! The decisions behind matching a job seeker with a posting that do not
//! involve weights or fractional scores: education levels, which required
//! skills a seeker has, whether locations agree, and the wording of the
//! explanation that accompanies a score.
use vstd::prelude::*;
use crate::text::{lowercase, occurs_at, seq_contains, str_contains, to_lowercase};

verus! {

/// The education level a lower-cased degree text names: 5 for a doctorate,
/// 4 for a master's, 3 for a bachelor's, 2 for a junior college diploma,
/// 1 for high school, 0 when none is recognised. The first level whose
/// keywords occur wins.
pub open spec fn level_of_lowered(l: Seq<char>) -> u32 {
    if seq_contains(l, "博士"@) || seq_contains(l, "phd"@) || seq_contains(l, "doctor"@) {
        5
    } else if seq_contains(l, "硕士"@) || seq_contains(l, "master"@) || seq_contains(l, "研究生"@) {
        4
    } else if seq_contains(l, "本科"@) || seq_contains(l, "bachelor"@) || seq_contains(l, "学士"@) {
        3
    } else if seq_contains(l, "大专"@) || seq_contains(l, "专科"@) || seq_contains(l, "associate"@) {
        2
    } else if seq_contains(l, "高中"@) || seq_contains(l, "中专"@) {
        1
    } else {
        0
    }
}

/// The education level named by `edu`, read case-insensitively.
pub open spec fn level_of(edu: Seq<char>) -> u32 {
    level_of_lowered(lowercase(edu))
}

/// The education level named by an already lower-cased degree text.
pub fn education_level_of_lowered(lower: &str) -> (r: u32)
    ensures
        r == level_of_lowered(lower@),
{
    if str_contains(lower, "博士") || str_contains(lower, "phd") || str_contains(lower, "doctor") {
        5
    } else if str_contains(lower, "硕士") || str_contains(lower, "master") || str_contains(
        lower,
        "研究生",
    ) {
        4
    } else if str_contains(lower, "本科") || str_contains(lower, "bachelor") || str_contains(
        lower,
        "学士",
    ) {
        3
    } else if str_contains(lower, "大专") || str_contains(lower, "专科") || str_contains(
        lower,
        "associate",
    ) {
        2
    } else if str_contains(lower, "高中") || str_contains(lower, "中专") {
        1
    } else {
        0
    }
}

/// The education level named by a degree text such as `本科` or `Master`.
pub fn education_level(edu: &str) -> (r: u32)
    ensures
        r == level_of(edu@),
{
    let lower = to_lowercase(edu);
    education_level_of_lowered(lower.as_str())
}

/// How a seeker's education compares with a posting's requirement.
#[derive(Debug, Clone, Copy, PartialEq, Eq, Structural)]
pub enum EducationFit {
    /// The requirement names no recognised level.
    NotRequired,
    /// The seeker's level is at least the required one.
    Meets,
    /// The seeker's level is exactly one below the required one.
    OneBelow,
    /// The seeker's level is two or more below the required one.
    FarBelow,
}

/// The fit of the seeker level `seeker` against the required level `req`.
pub open spec fn education_fit_of_levels(seeker: u32, req: u32) -> EducationFit {
    if req == 0 {
        EducationFit::NotRequired
    } else if seeker >= req {
        EducationFit::Meets
    } else if seeker == req - 1 {
        EducationFit::OneBelow
    } else {
        EducationFit::FarBelow
    }
}

/// How the education named by `seeker_edu` fits the requirement `req`.
pub fn education_fit(seeker_edu: &str, req: &str) -> (r: EducationFit)
    ensures
        r == education_fit_of_levels(level_of(seeker_edu@), level_of(req@)),
{
    let seeker_level = education_level(seeker_edu);
    let req_level = education_level(req);
    if req_level == 0 {
        EducationFit::NotRequired
    } else if seeker_level >= req_level {
        EducationFit::Meets
    } else if seeker_level == req_level - 1 {
        EducationFit::OneBelow
    } else {
        EducationFit::FarBelow
    }
}

/// Some skill of the seeker equals the required skill `js`, ignoring case.
pub open spec fn skill_held(seeker: Seq<String>, js: Seq<char>) -> bool {
    exists|i: int| 0 <= i < seeker.len() && lowercase(seeker[i]@) == lowercase(js)
}

/// How many of the required skills `job` the seeker holds, counting a
/// skill each time it is listed as required.
pub open spec fn held_count(seeker: Seq<String>, job: Seq<String>) -> nat
    decreases job.len(),
{
    if job.len() == 0 {
        0
    } else {
        held_count(seeker, job.drop_last()) + if skill_held(seeker, job.last()@) {
            1nat
        } else {
            0nat
        }
    }
}

/// How a seeker's skills compare with a posting's required skills.
#[derive(Debug, Clone, Copy, PartialEq, Eq, Structural)]
pub enum SkillsFit {
    /// The posting lists no required skill.
    NotRequired,
    /// `matched` of the `required` listed skills are held by the seeker.
    Counted { matched: usize, required: usize },
}

/// The lower-cased form of each string of `v`.
fn lowercase_all(v: &[String]) -> (r: Vec<String>)
    ensures
        r@.len() == v@.len(),
        forall|i: int| 0 <= i < v@.len() ==> #[trigger] r@[i]@ == lowercase(v@[i]@),
{
    let mut r: Vec<String> = Vec::new();
    let mut i: usize = 0;
    while i < v.len()
        invariant
            i <= v@.len(),
            r@.len() == i,
            forall|k: int| 0 <= k < i ==> #[trigger] r@[k]@ == lowercase(v@[k]@),
        decreases v@.len() - i,
    {
        let l = to_lowercase(v[i].as_str());
        r.push(l);
        i = i + 1;
    }
    r
}

/// Whether some string of `lowered` equals `target`.
fn any_equal(lowered: &Vec<String>, target: &String) -> (r: bool)
    ensures
        r == exists|i: int| 0 <= i < lowered@.len() && lowered@[i]@ == target@,
{
    let mut i: usize = 0;
    while i < lowered.len()
        invariant
            i <= lowered@.len(),
            forall|k: int| 0 <= k < i ==> lowered@[k]@ != target@,
        decreases lowered@.len() - i,
    {
        if lowered[i] == *target {
            return true;
        }
        i = i + 1;
    }
    false
}

/// Which of the required skills `job_skills` the seeker, with skills
/// `seeker_skills`, holds; skills are compared ignoring case.
pub fn skills_fit(seeker_skills: &[String], job_skills: &[String]) -> (r: SkillsFit)
    ensures
        job_skills@.len() == 0 ==> r == SkillsFit::NotRequired,
        job_skills@.len() > 0 ==> r == (SkillsFit::Counted {
            matched: held_count(seeker_skills@, job_skills@) as usize,
            required: job_skills@.len() as usize,
        }),
        r matches SkillsFit::Counted { matched, required } ==> matched <= required,
{
    if job_skills.len() == 0 {
        return SkillsFit::NotRequired;
    }
    let lowered = lowercase_all(seeker_skills);
    let mut matched: usize = 0;
    let mut i: usize = 0;
    while i < job_skills.len()
        invariant
            i <= job_skills@.len(),
            lowered@.len() == seeker_skills@.len(),
            forall|k: int| 0 <= k < seeker_skills@.len() ==> #[trigger] lowered@[k]@ == lowercase(seeker_skills@[k]@),
            matched == held_count(seeker_skills@, job_skills@.take(i as int)),
            matched <= i,
        decreases job_skills@.len() - i,
    {
        let lj = to_lowercase(job_skills[i].as_str());
        let held = any_equal(&lowered, &lj);
        proof {
            let pre = job_skills@.take(i as int + 1);
            assert(pre.drop_last() =~= job_skills@.take(i as int));
            assert(pre.last() == job_skills@[i as int]);
            if held {
                let k = choose|k: int| 0 <= k < lowered@.len() && lowered@[k]@ == lj@;
                assert(lowered@[k]@ == lowercase(seeker_skills@[k]@));
            } else {
                assert forall|k: int| 0 <= k < seeker_skills@.len() implies lowercase(
                    seeker_skills@[k]@,
                ) != lowercase(job_skills@[i as int]@) by {
                    assert(lowered@[k]@ == lowercase(seeker_skills@[k]@));
                }
            }
        }
        if held {
            matched = matched + 1;
        }
        i = i + 1;
    }
    assert(job_skills@.take(i as int) =~= job_skills@);
    SkillsFit::Counted { matched, required: job_skills.len() }
}

/// A seeker location agrees with a lower-cased job location when either,
/// lower-cased, contains the other.
pub open spec fn location_agrees(job_lower: Seq<char>, loc: Seq<char>) -> bool {
    seq_contains(job_lower, lowercase(loc)) || seq_contains(lowercase(loc), job_lower)
}

/// How a seeker's wanted locations compare with a posting's location.
#[derive(Debug, Clone, Copy, PartialEq, Eq, Structural)]
pub enum LocationFit {
    /// The seeker lists no location, or the posting names none.
    Unspecified,
    /// Some wanted location agrees with the posting's location.
    Agrees,
    /// No wanted location agrees with the posting's location.
    Differs,
}

/// How the wanted locations `seeker_locations` fit the posting location
/// `job_location`, ignoring case.
pub fn location_fit(seeker_locations: &[String], job_location: &str) -> (r: LocationFit)
    ensures
        r == (if seeker_locations@.len() == 0 || job_location@.len() == 0 {
            LocationFit::Unspecified
        } else if exists|i: int|
            0 <= i < seeker_locations@.len() && location_agrees(
                lowercase(job_location@),
                #[trigger] seeker_locations@[i]@,
            ) {
            LocationFit::Agrees
        } else {
            LocationFit::Differs
        }),
{
    if seeker_locations.len() == 0 || job_location.unicode_len() == 0 {
        return LocationFit::Unspecified;
    }
    let job_lower = to_lowercase(job_location);
    let mut i: usize = 0;
    while i < seeker_locations.len()
        invariant
            i <= seeker_locations@.len(),
            job_lower@ == lowercase(job_location@),
            seeker_locations@.len() > 0,
            job_location@.len() > 0,
            forall|k: int|
                0 <= k < i ==> !location_agrees(
                    lowercase(job_location@),
                    #[trigger] seeker_locations@[k]@,
                ),
        decreases seeker_locations@.len() - i,
    {
        let loc = to_lowercase(seeker_locations[i].as_str());
        if str_contains(job_lower.as_str(), loc.as_str()) || str_contains(
            loc.as_str(),
            job_lower.as_str(),
        ) {
            assert(location_agrees(lowercase(job_location@), seeker_locations@[i as int]@));
            return LocationFit::Agrees;
        }
        i = i + 1;
    }
    LocationFit::Differs
}

/// Where a dimension score falls: at least 0.8, at least 0.5, or below.
#[derive(Debug, Clone, Copy, PartialEq, Eq, Structural)]
pub enum Band {
    High,
    Medium,
    Low,
}

/// What the explanation of a match result is written from: the bands of the
/// skills and experience scores, and whether each of the education, salary
/// and location scores is below one half.
#[derive(Debug, Clone, Copy, PartialEq, Eq, Structural)]
pub struct ExplanationInput {
    pub skills: Band,
    pub experience: Band,
    pub education_short: bool,
    pub salary_short: bool,
    pub location_short: bool,
}

/// The phrase for the skills band.
pub open spec fn skills_phrase(b: Band) -> Seq<char> {
    match b {
        Band::High => "技能匹配度高"@,
        Band::Medium => "技能部分匹配"@,
        Band::Low => "技能匹配度低"@,
    }
}

/// The phrase for the experience band.
pub open spec fn experience_phrase(b: Band) -> Seq<char> {
    match b {
        Band::High => "经验充足"@,
        Band::Medium => "经验稍欠缺"@,
        Band::Low => "经验不足"@,
    }
}

/// `seq![p]` when `flag` holds, the empty sequence otherwise.
pub open spec fn phrase_if(flag: bool, p: Seq<char>) -> Seq<Seq<char>> {
    if flag {
        seq![p]
    } else {
        Seq::empty()
    }
}

/// The phrases of an explanation, in order: skills, experience, then one for
/// each of education, salary and location that falls short.
pub open spec fn explanation_phrases(e: ExplanationInput) -> Seq<Seq<char>> {
    seq![skills_phrase(e.skills), experience_phrase(e.experience)]
        + phrase_if(e.education_short, "学历未达要求"@)
        + phrase_if(e.salary_short, "薪资期望偏高"@)
        + phrase_if(e.location_short, "地域不匹配"@)
}

/// The strings of `parts` joined with `sep` between neighbours.
pub open spec fn join(parts: Seq<Seq<char>>, sep: Seq<char>) -> Seq<char>
    decreases parts.len(),
{
    if parts.len() == 0 {
        Seq::empty()
    } else if parts.len() == 1 {
        parts[0]
    } else {
        join(parts.drop_last(), sep) + sep + parts.last()
    }
}

/// The strings of `parts` joined with `sep` between neighbours.
pub fn join_strings(parts: &Vec<String>, sep: &str) -> (r: String)
    ensures
        r@ == join(parts@.map_values(|p: String| p@), sep@),
{
    let ghost views = parts@.map_values(|p: String| p@);
    let mut r = String::new();
    let mut i: usize = 0;
    while i < parts.len()
        invariant
            i <= parts@.len(),
            views == parts@.map_values(|p: String| p@),
            r@ == join(views.take(i as int), sep@),
        decreases parts@.len() - i,
    {
        proof {
            assert(views.take(i as int + 1).drop_last() =~= views.take(i as int));
            assert(views.take(i as int + 1).last() == parts@[i as int]@);
        }
        if i > 0 {
            r.append(sep);
        }
        r.append(parts[i].as_str());
        proof {
            if i == 0 {
                assert(views.take(1) =~= seq![parts@[0]@]);
            }
        }
        i = i + 1;
    }
    assert(views.take(i as int) =~= views);
    r
}

/// The explanation of a match result: its phrases joined with a full-width
/// comma.
pub fn generate_explanation(e: &ExplanationInput) -> (r: String)
    ensures
        r@ == join(explanation_phrases(*e), "，"@),
{
    let mut parts: Vec<String> = Vec::new();
    let ghost target = explanation_phrases(*e);
    match e.skills {
        Band::High => parts.push("技能匹配度高".to_owned()),
        Band::Medium => parts.push("技能部分匹配".to_owned()),
        Band::Low => parts.push("技能匹配度低".to_owned()),
    }
    match e.experience {
        Band::High => parts.push("经验充足".to_owned()),
        Band::Medium => parts.push("经验稍欠缺".to_owned()),
        Band::Low => parts.push("经验不足".to_owned()),
    }
    let ghost base = seq![skills_phrase(e.skills), experience_phrase(e.experience)];
    assert(parts@.map_values(|p: String| p@) =~= base);
    if e.education_short {
        parts.push("学历未达要求".to_owned());
    }
    let ghost b2 = base + phrase_if(e.education_short, "学历未达要求"@);
    assert(parts@.map_values(|p: String| p@) =~= b2);
    if e.salary_short {
        parts.push("薪资期望偏高".to_owned());
    }
    let ghost b3 = b2 + phrase_if(e.salary_short, "薪资期望偏高"@);
    assert(parts@.map_values(|p: String| p@) =~= b3);
    if e.location_short {
        parts.push("地域不匹配".to_owned());
    }
    assert(parts@.map_values(|p: String| p@) =~= target);
    join_strings(&parts, "，")
}

/// The first part of a join is where the joined text begins.
proof fn lemma_join_starts_with_first(parts: Seq<Seq<char>>, sep: Seq<char>)
    requires
        parts.len() >= 1,
    ensures
        join(parts, sep).len() >= parts[0].len(),
        join(parts, sep).take(parts[0].len() as int) == parts[0],
    decreases parts.len(),
{
    if parts.len() > 1 {
        lemma_join_starts_with_first(parts.drop_last(), sep);
        let j = join(parts.drop_last(), sep);
        assert((j + sep + parts.last()).take(parts[0].len() as int) =~= j.take(parts[0].len() as int));
    }
}

/// Law: every explanation opens with the phrase for the skills band, so it
/// is never empty and always speaks of skills.
pub proof fn law_explanation_opens_with_skills(e: ExplanationInput)
    ensures
        join(explanation_phrases(e), "，"@).len() > 0,
        join(explanation_phrases(e), "，"@).take(skills_phrase(e.skills).len() as int) == skills_phrase(e.skills),
{
    let parts = explanation_phrases(e);
    assert(parts[0] == skills_phrase(e.skills));
    lemma_join_starts_with_first(parts, "，"@);
    reveal_strlit("技能匹配度高");
    reveal_strlit("技能部分匹配");
    reveal_strlit("技能匹配度低");
}

/// Law: a seeker whose education text is the required one meets the
/// requirement whenever it names a level.
pub proof fn law_same_education_meets(edu: Seq<char>)
    ensures
        education_fit_of_levels(level_of(edu), level_of(edu)) == (if level_of(edu) == 0 {
            EducationFit::NotRequired
        } else {
            EducationFit::Meets
        }),
{
}

/// Law: a higher education never fits a requirement worse than a lower one.
pub proof fn law_education_fit_monotone(lower: u32, higher: u32, req: u32)
    requires
        lower <= higher,
    ensures
        education_fit_of_levels(lower, req) == EducationFit::Meets ==> education_fit_of_levels(higher, req) == EducationFit::Meets,
        education_fit_of_levels(lower, req) == EducationFit::OneBelow ==> education_fit_of_levels(higher, req) != EducationFit::FarBelow,
{
}

/// Law: no more required skills are held than are required.
pub proof fn law_held_count_at_most_required(seeker: Seq<String>, job: Seq<String>)
    ensures
        held_count(seeker, job) <= job.len(),
    decreases job.len(),
{
    if job.len() > 0 {
        law_held_count_at_most_required(seeker, job.drop_last());
    }
}

/// Law: a seeker who holds every required skill (ignoring case) is counted
/// as holding all of them.
pub proof fn law_all_required_skills_held(seeker: Seq<String>, job: Seq<String>)
    requires
        forall|j: int| 0 <= j < job.len() ==> skill_held(seeker, #[trigger] job[j]@),
    ensures
        held_count(seeker, job) == job.len(),
    decreases job.len(),
{
    if job.len() > 0 {
        let rest = job.drop_last();
        assert forall|j: int| 0 <= j < rest.len() implies skill_held(seeker, #[trigger] rest[j]@) by {
            assert(rest[j] == job[j]);
        }
        law_all_required_skills_held(seeker, rest);
        assert(skill_held(seeker, job[job.len() - 1]@));
    }
}

/// Law: a wanted location that is the posting's location agrees with it.
pub proof fn law_location_agrees_with_itself(loc: Seq<char>)
    ensures
        location_agrees(lowercase(loc), loc),
{
    let l = lowercase(loc);
    assert(l.subrange(0, l.len() as int) =~= l);
    assert(occurs_at(l, l, 0));
}

/// Law: the education level of a text is at least the level of every
/// keyword it contains, so the highest level named wins; and a text given a
/// level contains a keyword of that level.
pub proof fn law_level_is_highest_named(l: Seq<char>)
    ensures
        seq_contains(l, "博士"@) || seq_contains(l, "phd"@) || seq_contains(l, "doctor"@) ==> level_of_lowered(l) >= 5,
        seq_contains(l, "硕士"@) || seq_contains(l, "master"@) || seq_contains(l, "研究生"@) ==> level_of_lowered(l) >= 4,
        seq_contains(l, "本科"@) || seq_contains(l, "bachelor"@) || seq_contains(l, "学士"@) ==> level_of_lowered(l) >= 3,
        seq_contains(l, "大专"@) || seq_contains(l, "专科"@) || seq_contains(l, "associate"@) ==> level_of_lowered(l) >= 2,
        seq_contains(l, "高中"@) || seq_contains(l, "中专"@) ==> level_of_lowered(l) >= 1,
        level_of_lowered(l) <= 5,
        level_of_lowered(l) == 5 ==> seq_contains(l, "博士"@) || seq_contains(l, "phd"@) || seq_contains(l, "doctor"@),
        level_of_lowered(l) == 4 ==> seq_contains(l, "硕士"@) || seq_contains(l, "master"@) || seq_contains(l, "研究生"@),
        level_of_lowered(l) == 3 ==> seq_contains(l, "本科"@) || seq_contains(l, "bachelor"@) || seq_contains(l, "学士"@),
        level_of_lowered(l) == 2 ==> seq_contains(l, "大专"@) || seq_contains(l, "专科"@) || seq_contains(l, "associate"@),
        level_of_lowered(l) == 1 ==> seq_contains(l, "高中"@) || seq_contains(l, "中专"@),
{
}

/// Law: a required skill that no skill of the seeker equals, ignoring case,
/// is not held (a skill whose name merely contains it, or is contained in
/// it, does not count); one that some skill equals is held.
pub proof fn law_skill_held_means_equal(seeker: Seq<String>, js: Seq<char>)
    ensures
        (forall|i: int| 0 <= i < seeker.len() ==> lowercase(#[trigger] seeker[i]@) != lowercase(js)) ==> !skill_held(seeker, js),
        forall|i: int| 0 <= i < seeker.len() && lowercase(#[trigger] seeker[i]@) == lowercase(js) ==> skill_held(seeker, js),
{
}

/// Law: a seeker none of whose skills equals, ignoring case, any required
/// skill is counted as holding none of them.
pub proof fn law_no_equal_skill_counts_zero(seeker: Seq<String>, job: Seq<String>)
    requires
        forall|i: int, j: int| 0 <= i < seeker.len() && 0 <= j < job.len() ==>
            lowercase(#[trigger] seeker[i]@) != lowercase(#[trigger] job[j]@),
    ensures
        held_count(seeker, job) == 0,
    decreases job.len(),
{
    if job.len() > 0 {
        let rest = job.drop_last();
        assert forall|i: int, j: int| 0 <= i < seeker.len() && 0 <= j < rest.len() implies
            lowercase(#[trigger] seeker[i]@) != lowercase(#[trigger] rest[j]@) by {
            assert(rest[j] == job[j]);
        }
        law_no_equal_skill_counts_zero(seeker, rest);
        let last = job.len() - 1;
        assert forall|i: int| 0 <= i < seeker.len() implies lowercase(#[trigger] seeker[i]@) != lowercase(job.last()@) by {
            assert(job.last() == job[last]);
        }
    }
}

/// Each part of a join occurs in the joined text.
proof fn lemma_join_contains_part(parts: Seq<Seq<char>>, sep: Seq<char>, k: int)
    requires
        0 <= k < parts.len(),
    ensures
        seq_contains(join(parts, sep), parts[k]),
    decreases parts.len(),
{
    if parts.len() == 1 {
        assert(join(parts, sep).subrange(0, parts[0].len() as int) =~= parts[0]);
        assert(occurs_at(join(parts, sep), parts[k], 0));
    } else {
        let head = join(parts.drop_last(), sep);
        let whole = head + sep + parts.last();
        if k == parts.len() - 1 {
            let at: int = (head.len() + sep.len()) as int;
            assert(whole.subrange(at, at + parts[k].len()) =~= parts[k]);
            assert(occurs_at(whole, parts[k], at));
        } else {
            lemma_join_contains_part(parts.drop_last(), sep, k);
            let i = choose|i: int| occurs_at(head, parts.drop_last()[k], i);
            assert(whole.subrange(i, i + parts[k].len()) =~= head.subrange(i, i + parts[k].len()));
            assert(occurs_at(whole, parts[k], i));
        }
    }
}

/// Law: the explanation names each shortfall exactly when it happens,
/// whatever the skills and experience bands: it has the education, salary
/// and location phrases among its phrases exactly when the education,
/// salary and location scores fall short, and then its text contains them.
pub proof fn law_explanation_names_each_shortfall(e: ExplanationInput)
    ensures
        explanation_phrases(e).contains("学历未达要求"@) == e.education_short,
        explanation_phrases(e).contains("薪资期望偏高"@) == e.salary_short,
        explanation_phrases(e).contains("地域不匹配"@) == e.location_short,
        e.education_short ==> seq_contains(join(explanation_phrases(e), "，"@), "学历未达要求"@),
        e.salary_short ==> seq_contains(join(explanation_phrases(e), "，"@), "薪资期望偏高"@),
        e.location_short ==> seq_contains(join(explanation_phrases(e), "，"@), "地域不匹配"@),
{
    let ps = explanation_phrases(e);
    reveal_strlit("技能匹配度高");
    reveal_strlit("技能部分匹配");
    reveal_strlit("技能匹配度低");
    reveal_strlit("经验充足");
    reveal_strlit("经验稍欠缺");
    reveal_strlit("经验不足");
    reveal_strlit("学历未达要求");
    reveal_strlit("薪资期望偏高");
    reveal_strlit("地域不匹配");
    let edu = "学历未达要求"@;
    let sal = "薪资期望偏高"@;
    let loc = "地域不匹配"@;
    assert(edu != sal && edu != loc && sal != loc) by {
        assert(edu[0] != sal[0]);
        assert(edu.len() != loc.len());
        assert(sal.len() != loc.len());
    }
    assert(skills_phrase(e.skills)[0] == '技');
    assert(experience_phrase(e.experience)[0] == '经');
    assert(edu[0] == '学' && sal[0] == '薪' && loc[0] == '地');
    let n2 = 2 + (if e.education_short { 1int } else { 0int });
    let n3 = n2 + (if e.salary_short { 1int } else { 0int });
    assert(ps.len() == n3 + (if e.location_short { 1int } else { 0int }));
    assert forall|i: int| 0 <= i < ps.len() implies {
        &&& (#[trigger] ps[i] == edu ==> e.education_short)
        &&& (ps[i] == sal ==> e.salary_short)
        &&& (ps[i] == loc ==> e.location_short)
    } by {
        if i == 0 {
            assert(ps[i] == skills_phrase(e.skills));
        } else if i == 1 {
            assert(ps[i] == experience_phrase(e.experience));
        } else if i < n2 {
            assert(ps[i] == edu);
        } else if i < n3 {
            assert(ps[i] == sal);
        } else {
            assert(ps[i] == loc);
        }
    }
    if e.education_short {
        assert(ps[2] == edu);
        lemma_join_contains_part(ps, "，"@, 2);
    }
    if e.salary_short {
        assert(ps[n2] == sal);
        lemma_join_contains_part(ps, "，"@, n2);
    }
    if e.location_short {
        assert(ps[n3] == loc);
        lemma_join_contains_part(ps, "，"@, n3);
    }
}

} // verus!
