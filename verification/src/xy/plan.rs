//! A study plan, one day per line of text, and its split by month.
//!
//! A line holds eight fields separated by `|`: date, weekday, and the tasks
//! for pen control, characters, maths, English, poems and sport.
use vstd::prelude::*;
use vstd::string::*;
use crate::text::{has_prefix, lines_of, split_at_char, split_pieces, starts_with, text_lines, trim, trimmed};

verus! {

/// The plan of one day.
#[derive(Debug)]
pub struct DayPlan {
    pub date: String,
    pub week: String,
    pub pen: String,
    pub hanzi: String,
    pub math: String,
    pub english: String,
    pub poem: String,
    pub sport: String,
}

/// The fields of a day's plan, in line order.
pub open spec fn plan_fields(p: DayPlan) -> Seq<Seq<char>> {
    seq![p.date@, p.week@, p.pen@, p.hanzi@, p.math@, p.english@, p.poem@, p.sport@]
}

/// The fields a line gives: its eight `|`-separated pieces, trimmed; `None`
/// when the line has another number of pieces.
pub open spec fn line_fields(line: Seq<char>) -> Option<Seq<Seq<char>>> {
    let parts = split_pieces(line, '|');
    if parts.len() != 8 {
        None
    } else {
        Some(parts.map_values(|p: Seq<char>| trimmed(p)))
    }
}

/// The plans of `lines`, skipping empty lines and lines that are no plan.
pub open spec fn plans_of(lines: Seq<Seq<char>>) -> Seq<Seq<Seq<char>>>
    decreases lines.len(),
{
    if lines.len() == 0 {
        seq![]
    } else {
        let rest = plans_of(lines.drop_last());
        let l = lines.last();
        if l.len() == 0 {
            rest
        } else {
            match line_fields(l) {
                Some(f) => rest.push(f),
                None => rest,
            }
        }
    }
}

/// The plans among `plans` whose date starts with `prefix`, in order.
pub open spec fn plans_with_prefix(plans: Seq<DayPlan>, prefix: Seq<char>) -> Seq<Seq<Seq<char>>>
    decreases plans.len(),
{
    if plans.len() == 0 {
        seq![]
    } else {
        let rest = plans_with_prefix(plans.drop_last(), prefix);
        if has_prefix(plans.last().date@, prefix) { rest.push(plan_fields(plans.last())) } else { rest }
    }
}

impl Clone for DayPlan {
    fn clone(&self) -> (r: DayPlan)
        ensures
            plan_fields(r) == plan_fields(*self),
    {
        DayPlan {
            date: self.date.clone(),
            week: self.week.clone(),
            pen: self.pen.clone(),
            hanzi: self.hanzi.clone(),
            math: self.math.clone(),
            english: self.english.clone(),
            poem: self.poem.clone(),
            sport: self.sport.clone(),
        }
    }
}

impl DayPlan {

    /// The plan a line gives, if it has the eight fields.
    pub fn from_line(line: &str) -> (r: Option<DayPlan>)
        ensures
            match line_fields(line@) {
                Some(f) => r matches Some(p) && plan_fields(p) == f,
                None => r is None,
            },
    {
        let parts = split_at_char(line, '|');
        if parts.len() != 8 {
            return None;
        }
        let ghost pv = parts@.map_values(|p: &str| p@);
        let r = DayPlan {
            date: String::from_str(trim(parts[0])),
            week: String::from_str(trim(parts[1])),
            pen: String::from_str(trim(parts[2])),
            hanzi: String::from_str(trim(parts[3])),
            math: String::from_str(trim(parts[4])),
            english: String::from_str(trim(parts[5])),
            poem: String::from_str(trim(parts[6])),
            sport: String::from_str(trim(parts[7])),
        };
        assert(plan_fields(r) =~= pv.map_values(|p: Seq<char>| trimmed(p)));
        Some(r)
    }
}

/// The plans of a text: one per non-empty line that has the eight fields.
pub fn plans_from_text(text: &str) -> (r: Vec<DayPlan>)
    ensures
        r@.map_values(|p: DayPlan| plan_fields(p)) == plans_of(text_lines(text@)),
{
    let lines = lines_of(text);
    let ghost lv = lines@.map_values(|l: &str| l@);
    let mut r: Vec<DayPlan> = Vec::new();
    let mut i: usize = 0;
    while i < lines.len()
        invariant
            i <= lines@.len(),
            lv == lines@.map_values(|l: &str| l@),
            r@.map_values(|p: DayPlan| plan_fields(p)) =~= plans_of(lv.take(i as int)),
        decreases lines.len() - i,
    {
        assert(lv.take(i + 1).drop_last() =~= lv.take(i as int));
        let ghost before = r@.map_values(|p: DayPlan| plan_fields(p));
        let line = lines[i];
        if line.unicode_len() != 0 {
            match DayPlan::from_line(line) {
                Some(p) => {
                    r.push(p);
                    assert(r@.map_values(|p: DayPlan| plan_fields(p)) =~= before.push(plan_fields(r@.last())));
                },
                None => {},
            }
        }
        i += 1;
    }
    assert(lv.take(lines.len() as int) =~= lv);
    r
}

/// Copies of the plans whose date starts with `prefix`, in order.
fn plans_of_month(plans: &[DayPlan], prefix: &str) -> (r: Vec<DayPlan>)
    ensures
        r@.map_values(|p: DayPlan| plan_fields(p)) == plans_with_prefix(plans@, prefix@),
{
    let mut r: Vec<DayPlan> = Vec::new();
    let mut i: usize = 0;
    while i < plans.len()
        invariant
            i <= plans@.len(),
            r@.map_values(|p: DayPlan| plan_fields(p)) =~= plans_with_prefix(plans@.take(i as int), prefix@),
        decreases plans.len() - i,
    {
        let ghost before = r@.map_values(|p: DayPlan| plan_fields(p));
        let p = &plans[i];
        assert(plans@.take(i + 1).drop_last() =~= plans@.take(i as int));
        if starts_with(p.date.as_str(), prefix) {
            r.push(p.clone());
            assert(r@.map_values(|p: DayPlan| plan_fields(p)) =~= before.push(plan_fields(plans@[i as int])));
        }
        i += 1;
    }
    assert(plans@.take(plans@.len() as int) =~= plans@);
    r
}

/// The plans of May, June, July and August, by the month before the `.` of
/// their date.
pub fn split_by_month(plans: &[DayPlan]) -> (r: (Vec<DayPlan>, Vec<DayPlan>, Vec<DayPlan>, Vec<DayPlan>))
    ensures
        r.0@.map_values(|p: DayPlan| plan_fields(p)) == plans_with_prefix(plans@, "5."@),
        r.1@.map_values(|p: DayPlan| plan_fields(p)) == plans_with_prefix(plans@, "6."@),
        r.2@.map_values(|p: DayPlan| plan_fields(p)) == plans_with_prefix(plans@, "7."@),
        r.3@.map_values(|p: DayPlan| plan_fields(p)) == plans_with_prefix(plans@, "8."@),
{
    let may = plans_of_month(plans, "5.");
    let june = plans_of_month(plans, "6.");
    let july = plans_of_month(plans, "7.");
    let aug = plans_of_month(plans, "8.");
    (may, june, july, aug)
}

} // verus!
