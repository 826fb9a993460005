//! Recognisers for the two textual patterns a job posting is read with:
//! a years-of-experience requirement such as `3年`, and a salary range such as
//! `15k-25k`. Each is specified as the leftmost match of its pattern, with
//! greedy repetition, over the `Seq<char>` view of the input.
use vstd::prelude::*;
use crate::text::chars_of;

verus! {

/// An ASCII decimal digit.
pub open spec fn is_digit(c: char) -> bool {
    '0' <= c && c <= '9'
}

/// ASCII white space: tab, line feed, vertical tab, form feed, carriage return, space.
pub open spec fn is_space(c: char) -> bool {
    c == '\t' || c == '\n' || c == '\x0B' || c == '\x0C' || c == '\r' || c == ' '
}

/// A dash that separates the two ends of a range: hyphen-minus, en dash, em dash.
pub open spec fn is_dash(c: char) -> bool {
    c == '-' || c == '\u{2013}' || c == '\u{2014}'
}

/// A unit letter that may follow an amount: `k`, `K` or `万`.
pub open spec fn is_unit(c: char) -> bool {
    c == 'k' || c == 'K' || c == '万'
}

/// End of the longest run of digits that starts at `i`.
pub open spec fn digits_end(s: Seq<char>, i: int) -> int
    decreases s.len() - i,
{
    if 0 <= i < s.len() && is_digit(s[i]) {
        digits_end(s, i + 1)
    } else {
        i
    }
}

/// End of the longest run of white space that starts at `i`.
pub open spec fn spaces_end(s: Seq<char>, i: int) -> int
    decreases s.len() - i,
{
    if 0 <= i < s.len() && is_space(s[i]) {
        spaces_end(s, i + 1)
    } else {
        i
    }
}

/// Position after an optional unit letter at `i`.
pub open spec fn unit_end(s: Seq<char>, i: int) -> int {
    if 0 <= i < s.len() && is_unit(s[i]) {
        i + 1
    } else {
        i
    }
}

/// The years pattern (one or more digits, optional white space, `年`) matches at `p`.
pub open spec fn years_match_at(s: Seq<char>, p: int) -> bool {
    let q = digits_end(s, p);
    let r = spaces_end(s, q);
    &&& 0 <= p < s.len()
    &&& is_digit(s[p])
    &&& r < s.len()
    &&& s[r] == '年'
}

/// `p` is the leftmost position where the years pattern matches.
pub open spec fn years_leftmost(s: Seq<char>, p: int) -> bool {
    &&& years_match_at(s, p)
    &&& forall|p2: int| 0 <= p2 < p ==> !years_match_at(s, p2)
}

/// Where the second amount of a salary range match starting at `p` begins.
pub open spec fn salary_second_start(s: Seq<char>, p: int) -> int {
    let dash = spaces_end(s, unit_end(s, digits_end(s, p)));
    spaces_end(s, dash + 1)
}

/// The salary pattern (digits, optional unit, white space, a dash, white
/// space, digits, optional unit) matches at `p`.
pub open spec fn salary_match_at(s: Seq<char>, p: int) -> bool {
    let dash = spaces_end(s, unit_end(s, digits_end(s, p)));
    let t = salary_second_start(s, p);
    &&& 0 <= p < s.len()
    &&& is_digit(s[p])
    &&& dash < s.len()
    &&& is_dash(s[dash])
    &&& t < s.len()
    &&& is_digit(s[t])
}

/// `p` is the leftmost position where the salary pattern matches.
pub open spec fn salary_leftmost(s: Seq<char>, p: int) -> bool {
    &&& salary_match_at(s, p)
    &&& forall|p2: int| 0 <= p2 < p ==> !salary_match_at(s, p2)
}

/// How the amounts of a salary range are scaled: the whole range text is
/// looked at, and `万` wins over `k`/`K`.
#[derive(Debug, Clone, Copy, PartialEq, Eq, Structural)]
pub enum SalaryUnit {
    /// The text holds `万`: amounts are in ten-thousands.
    TenThousand,
    /// The text holds `k` or `K` but no `万`: amounts are in thousands.
    Thousand,
    /// Neither: amounts are taken as they are.
    One,
}

/// The two amounts of a salary range, as the digit strings that were
/// matched, and the unit that scales them.
#[derive(Debug)]
pub struct SalaryRange {
    pub min_digits: String,
    pub max_digits: String,
    pub unit: SalaryUnit,
}

/// The unit a salary range text calls for.
pub open spec fn unit_of(s: Seq<char>) -> SalaryUnit {
    if s.contains('万') {
        SalaryUnit::TenThousand
    } else if s.contains('k') || s.contains('K') {
        SalaryUnit::Thousand
    } else {
        SalaryUnit::One
    }
}

fn digits_end_exec(s: &Vec<char>, i: usize) -> (j: usize)
    requires
        i <= s@.len(),
    ensures
        j == digits_end(s@, i as int),
        i <= j <= s@.len(),
        i < s@.len() && is_digit(s@[i as int]) ==> i < j,
{
    let mut j = i;
    while j < s.len() && '0' <= s[j] && s[j] <= '9'
        invariant
            i <= j <= s@.len(),
            digits_end(s@, i as int) == digits_end(s@, j as int),
        decreases s@.len() - j,
    {
        j = j + 1;
    }
    j
}

fn spaces_end_exec(s: &Vec<char>, i: usize) -> (j: usize)
    requires
        i <= s@.len(),
    ensures
        j == spaces_end(s@, i as int),
        i <= j <= s@.len(),
{
    let mut j = i;
    while j < s.len() && (s[j] == '\t' || s[j] == '\n' || s[j] == '\x0B' || s[j] == '\x0C'
        || s[j] == '\r' || s[j] == ' ')
        invariant
            i <= j <= s@.len(),
            spaces_end(s@, i as int) == spaces_end(s@, j as int),
        decreases s@.len() - j,
    {
        j = j + 1;
    }
    j
}

fn years_match_exec(s: &Vec<char>, p: usize) -> (r: Option<usize>)
    requires
        p < s@.len(),
    ensures
        r is Some <==> years_match_at(s@, p as int),
        r matches Some(q) ==> q == digits_end(s@, p as int) && p < q <= s@.len(),
{
    if !('0' <= s[p] && s[p] <= '9') {
        return None;
    }
    let q = digits_end_exec(s, p);
    let r = spaces_end_exec(s, q);
    if r < s.len() && s[r] == '年' {
        Some(q)
    } else {
        None
    }
}

/// The digits of the leftmost years-of-experience requirement in `s`
/// (pattern: digits, optional white space, `年`), or `None` if there is none.
pub fn parse_years(req: &str) -> (r: Option<String>)
    ensures
        r is None <==> forall|p: int| !years_match_at(req@, p),
        r matches Some(d) ==> exists|p: int|
            years_leftmost(req@, p) && d@ == req@.subrange(p, digits_end(req@, p)),
{
    let s = chars_of(req);
    let mut p: usize = 0;
    while p < s.len()
        invariant
            s@ == req@,
            p <= s@.len(),
            forall|p2: int| 0 <= p2 < p ==> !years_match_at(req@, p2),
        decreases s@.len() - p,
    {
        if let Some(q) = years_match_exec(&s, p) {
            let d = req.substring_char(p, q).to_owned();
            assert(years_leftmost(req@, p as int));
            return Some(d);
        }
        p = p + 1;
    }
    None
}

fn salary_match_exec(s: &Vec<char>, p: usize) -> (r: Option<(usize, usize, usize)>)
    requires
        p < s@.len(),
    ensures
        r is Some <==> salary_match_at(s@, p as int),
        r matches Some((q, t, u)) ==> {
            &&& q == digits_end(s@, p as int)
            &&& t == salary_second_start(s@, p as int)
            &&& u == digits_end(s@, t as int)
            &&& p < q <= t < u <= s@.len()
        },
{
    if !('0' <= s[p] && s[p] <= '9') {
        return None;
    }
    let q = digits_end_exec(s, p);
    let after_unit = if q < s.len() && (s[q] == 'k' || s[q] == 'K' || s[q] == '万') {
        q + 1
    } else {
        q
    };
    let dash = spaces_end_exec(s, after_unit);
    if !(dash < s.len() && (s[dash] == '-' || s[dash] == '\u{2013}' || s[dash] == '\u{2014}')) {
        return None;
    }
    let t = spaces_end_exec(s, dash + 1);
    if !(t < s.len() && '0' <= s[t] && s[t] <= '9') {
        return None;
    }
    let u = digits_end_exec(s, t);
    Some((q, t, u))
}

fn has_char(s: &Vec<char>, c: char) -> (r: bool)
    ensures
        r == s@.contains(c),
{
    let mut i: usize = 0;
    while i < s.len()
        invariant
            i <= s@.len(),
            forall|k: int| 0 <= k < i ==> s@[k] != c,
        decreases s@.len() - i,
    {
        if s[i] == c {
            return true;
        }
        i = i + 1;
    }
    false
}

/// The two amounts of the leftmost salary range in `range` (pattern: digits,
/// optional unit, white space, dash, white space, digits, optional unit) and
/// the unit the whole text calls for, or `None` if the pattern does not occur.
pub fn parse_salary_range(range: &str) -> (r: Option<SalaryRange>)
    ensures
        r is None <==> forall|p: int| !salary_match_at(range@, p),
        r matches Some(sr) ==> exists|p: int| #![trigger salary_leftmost(range@, p)] {
            let t = salary_second_start(range@, p);
            &&& salary_leftmost(range@, p)
            &&& sr.min_digits@ == range@.subrange(p, digits_end(range@, p))
            &&& sr.max_digits@ == range@.subrange(t, digits_end(range@, t))
            &&& sr.unit == unit_of(range@)
        },
{
    let s = chars_of(range);
    let mut p: usize = 0;
    while p < s.len()
        invariant
            s@ == range@,
            p <= s@.len(),
            forall|p2: int| 0 <= p2 < p ==> !salary_match_at(range@, p2),
        decreases s@.len() - p,
    {
        if let Some((q, t, u)) = salary_match_exec(&s, p) {
            let min_digits = range.substring_char(p, q).to_owned();
            let max_digits = range.substring_char(t, u).to_owned();
            let unit = if has_char(&s, '万') {
                SalaryUnit::TenThousand
            } else if has_char(&s, 'k') || has_char(&s, 'K') {
                SalaryUnit::Thousand
            } else {
                SalaryUnit::One
            };
            assert(salary_leftmost(range@, p as int));
            return Some(SalaryRange { min_digits, max_digits, unit });
        }
        p = p + 1;
    }
    None
}

/// The run of digits from `i` lies within `s`, and every character of it is
/// a digit.
proof fn lemma_digits_run(s: Seq<char>, i: int)
    requires
        0 <= i <= s.len(),
    ensures
        i <= digits_end(s, i) <= s.len(),
        forall|k: int| i <= k < digits_end(s, i) ==> is_digit(#[trigger] s[k]),
    decreases s.len() - i,
{
    if i < s.len() && is_digit(s[i]) {
        lemma_digits_run(s, i + 1);
    }
}

/// Law: the amount a years requirement is read with is a non-empty run of
/// digits.
pub proof fn law_years_capture_is_digits(s: Seq<char>, p: int)
    requires
        years_leftmost(s, p),
    ensures
        s.subrange(p, digits_end(s, p)).len() > 0,
        forall|k: int| 0 <= k < s.subrange(p, digits_end(s, p)).len() ==> is_digit(#[trigger] s.subrange(p, digits_end(s, p))[k]),
{
    lemma_digits_run(s, p);
    lemma_digits_run(s, p + 1);
    let d = s.subrange(p, digits_end(s, p));
    assert forall|k: int| 0 <= k < d.len() implies is_digit(#[trigger] d[k]) by {
        assert(d[k] == s[p + k]);
    }
}

/// The positions from `i` on where white space runs lie within `s`.
proof fn lemma_spaces_run(s: Seq<char>, i: int)
    requires
        0 <= i <= s.len(),
    ensures
        i <= spaces_end(s, i) <= s.len(),
    decreases s.len() - i,
{
    if i < s.len() && is_space(s[i]) {
        lemma_spaces_run(s, i + 1);
    }
}

/// Law: both amounts a salary range is read with are non-empty runs of
/// digits, the lower one first in the text.
pub proof fn law_salary_captures_are_digits(s: Seq<char>, p: int)
    requires
        salary_leftmost(s, p),
    ensures
        ({
            let t = salary_second_start(s, p);
            let lo = s.subrange(p, digits_end(s, p));
            let hi = s.subrange(t, digits_end(s, t));
            &&& lo.len() > 0 && hi.len() > 0
            &&& digits_end(s, p) < t
            &&& forall|k: int| 0 <= k < lo.len() ==> is_digit(#[trigger] lo[k])
            &&& forall|k: int| 0 <= k < hi.len() ==> is_digit(#[trigger] hi[k])
        }),
{
    let t = salary_second_start(s, p);
    let q = digits_end(s, p);
    lemma_digits_run(s, p);
    lemma_digits_run(s, p + 1);
    lemma_spaces_run(s, unit_end(s, q));
    let dash = spaces_end(s, unit_end(s, q));
    lemma_spaces_run(s, dash + 1);
    lemma_digits_run(s, t);
    lemma_digits_run(s, t + 1);
    let lo = s.subrange(p, q);
    let hi = s.subrange(t, digits_end(s, t));
    assert forall|k: int| 0 <= k < lo.len() implies is_digit(#[trigger] lo[k]) by {
        assert(lo[k] == s[p + k]);
    }
    assert forall|k: int| 0 <= k < hi.len() implies is_digit(#[trigger] hi[k]) by {
        assert(hi[k] == s[t + k]);
    }
}

/// The run of digits from `i` ends at `j` when every character between is
/// a digit and the one at `j`, if any, is not.
proof fn lemma_digits_end_at(s: Seq<char>, i: int, j: int)
    requires
        0 <= i <= j <= s.len(),
        forall|k: int| i <= k < j ==> is_digit(#[trigger] s[k]),
        j == s.len() || !is_digit(s[j]),
    ensures
        digits_end(s, i) == j,
    decreases j - i,
{
    if i < j {
        lemma_digits_end_at(s, i + 1, j);
    }
}

/// Law: an amount, a unit letter (`k`, `K` or `万`), a hyphen and a second
/// amount with the same unit is a salary range that matches from its first
/// character, and the two amounts it is read with are exactly the two
/// numbers written; the unit is ten-thousands for `万`, thousands otherwise.
pub proof fn law_salary_range_with_units(a: Seq<char>, b: Seq<char>, u: char)
    requires
        a.len() > 0,
        b.len() > 0,
        forall|k: int| 0 <= k < a.len() ==> is_digit(#[trigger] a[k]),
        forall|k: int| 0 <= k < b.len() ==> is_digit(#[trigger] b[k]),
        u == 'k' || u == 'K' || u == '万',
    ensures
        ({
            let s = a + seq![u, '-'] + b + seq![u];
            let t = salary_second_start(s, 0);
            &&& salary_leftmost(s, 0)
            &&& s.subrange(0, digits_end(s, 0)) == a
            &&& s.subrange(t, digits_end(s, t)) == b
            &&& unit_of(s) == (if u == '万' { SalaryUnit::TenThousand } else { SalaryUnit::Thousand })
        }),
{
    let s = a + seq![u, '-'] + b + seq![u];
    let n = a.len() as int;
    let m = b.len() as int;
    assert(s.len() == n + m + 3);
    assert forall|k: int| 0 <= k < n implies is_digit(#[trigger] s[k]) by {
        assert(s[k] == a[k]);
    }
    assert(s[n] == u);
    assert(s[n + 1] == '-');
    lemma_digits_end_at(s, 0, n);
    assert(unit_end(s, n) == n + 1);
    assert(spaces_end(s, n + 1) == n + 1);
    let t = n + 2;
    assert(s[t] == b[0]);
    assert(spaces_end(s, t) == t);
    assert(salary_second_start(s, 0) == t);
    assert forall|k: int| t <= k < t + m implies is_digit(#[trigger] s[k]) by {
        assert(s[k] == b[k - t]);
    }
    assert(s[t + m] == u);
    lemma_digits_end_at(s, t, t + m);
    assert(s.subrange(0, n) =~= a);
    assert(s.subrange(t, t + m) =~= b);
    if u == '万' {
        assert(s.contains('万'));
    } else {
        assert(s.contains(u));
        assert forall|k: int| 0 <= k < s.len() implies s[k] != '万' by {
            if k < n {
                assert(s[k] == a[k]);
            } else if t <= k < t + m {
                assert(s[k] == b[k - t]);
            }
        }
    }
}

} // verus!
