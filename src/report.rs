use vstd::prelude::*;
use crate::order::{sort_by_date_desc, sorted_desc, with_date};
use crate::record::{Category, DailyLog, LogView, NutritionType, logs_view};
use crate::store::{find_log, first_of, has_date, is_first, lemma_first_exists, lemma_first_unique, lookup, reset_date};
use crate::text::{format_plain, format_tenths, plain_text, tenths_text};

verus! {

/// How a report line is meant to be shown.
#[derive(Clone, Copy, Debug, PartialEq, Eq, Structural)]
pub enum Style {
    /// A title or a rule.
    Heading,
    /// Ordinary text.
    Plain,
    /// The value of one category.
    Field(Category),
}

/// One line of a report.
#[derive(Debug)]
pub struct Line {
    pub style: Style,
    pub text: String,
}

pub open spec fn lines_view(s: Seq<Line>) -> Seq<(Style, Seq<char>)> {
    s.map_values(|l: Line| (l.style, l.text@))
}

pub open spec fn label(c: Category) -> Seq<char> {
    match c {
        Category::Calories => "Calories"@,
        Category::Water => "Water"@,
        Category::Protein => "Protein"@,
        Category::Carbs => "Carbs"@,
        Category::Fat => "Fat"@,
    }
}

/// Calories in shortest form; the others to one decimal place with a unit.
pub open spec fn value_text(l: LogView, c: Category) -> Seq<char> {
    match c {
        Category::Calories => plain_text(l.calories),
        Category::Water => tenths_text(l.water) + " fl oz"@,
        Category::Protein => tenths_text(l.protein) + "g"@,
        Category::Carbs => tenths_text(l.carbs) + "g"@,
        Category::Fat => tenths_text(l.fat) + "g"@,
    }
}

pub open spec fn field_line(l: LogView, c: Category) -> (Style, Seq<char>) {
    (Style::Field(c), label(c) + ": "@ + value_text(l, c))
}

/// The fixed layout of one record: a title with its date, a rule, and the
/// five accumulators.
pub open spec fn record_lines(l: LogView, title: Seq<char>) -> Seq<(Style, Seq<char>)> {
    seq![
        (Style::Heading, title + l.date),
        (Style::Heading, "-------------------------"@),
        field_line(l, Category::Calories),
        field_line(l, Category::Water),
        field_line(l, Category::Protein),
        field_line(l, Category::Carbs),
        field_line(l, Category::Fat),
    ]
}

pub open spec fn no_data_lines(date: Seq<char>) -> Seq<(Style, Seq<char>)> {
    seq![(Style::Plain, "No data found for "@ + date)]
}

/// The summary of date `d`: its record, or a "no data" line.
pub open spec fn summary_spec(m: Seq<LogView>, d: Seq<char>) -> Seq<(Style, Seq<char>)> {
    match lookup(m, d) {
        Some(l) => record_lines(l, "Nutrition Summary for "@),
        None => no_data_lines(d),
    }
}

/// Every record of `m` in its order, each after a blank line.
pub open spec fn history_body(m: Seq<LogView>) -> Seq<(Style, Seq<char>)>
    decreases m.len(),
{
    if m.len() == 0 {
        seq![]
    } else {
        history_body(m.drop_last()) + seq![(Style::Plain, ""@)] + record_lines(m.last(), "Date: "@)
    }
}

/// The history of `m`, taken in the order given.
pub open spec fn history_spec(m: Seq<LogView>) -> Seq<(Style, Seq<char>)> {
    if m.len() == 0 {
        seq![(Style::Heading, "No nutrition data found."@)]
    } else {
        seq![(Style::Heading, "All Nutrition Records"@), (Style::Heading, "==================="@)]
            + history_body(m)
    }
}

/// The display name of a category.
pub fn category_label(c: Category) -> (r: &'static str)
    ensures
        r@ == label(c),
{
    match c {
        Category::Calories => "Calories",
        Category::Water => "Water",
        Category::Protein => "Protein",
        Category::Carbs => "Carbs",
        Category::Fat => "Fat",
    }
}

/// The value of category `c` of `log`, as shown in reports.
pub fn value_string(log: &DailyLog, c: Category) -> (r: String)
    ensures
        r@ == value_text(log@, c),
{
    match c {
        Category::Calories => format_plain(log.calories),
        Category::Water => format_tenths(log.water).concat(" fl oz"),
        Category::Protein => format_tenths(log.protein).concat("g"),
        Category::Carbs => format_tenths(log.carbs).concat("g"),
        Category::Fat => format_tenths(log.fat).concat("g"),
    }
}

fn push_line(out: &mut Vec<Line>, style: Style, text: String)
    ensures
        lines_view(final(out)@) == lines_view(old(out)@).push((style, text@)),
{
    let ghost before = out@;
    out.push(Line { style, text });
    assert(lines_view(out@) =~= lines_view(before).push((style, text@)));
}

fn push_field(out: &mut Vec<Line>, log: &DailyLog, c: Category)
    ensures
        lines_view(final(out)@) == lines_view(old(out)@).push(field_line(log@, c)),
{
    let text = String::from_str(category_label(c)).concat(": ").concat(value_string(log, c).as_str());
    push_line(out, Style::Field(c), text);
}

/// Appends the layout of one record under `title`.
pub fn push_record(out: &mut Vec<Line>, log: &DailyLog, title: &str)
    ensures
        lines_view(final(out)@) == lines_view(old(out)@) + record_lines(log@, title@),
{
    let ghost before = lines_view(out@);
    push_line(out, Style::Heading, String::from_str(title).concat(log.date.as_str()));
    push_line(out, Style::Heading, String::from_str("-------------------------"));
    push_field(out, log, Category::Calories);
    push_field(out, log, Category::Water);
    push_field(out, log, Category::Protein);
    push_field(out, log, Category::Carbs);
    push_field(out, log, Category::Fat);
    assert(lines_view(out@) =~= before + record_lines(log@, title@));
}

/// The summary of `date`: the record for that date (the first one if
/// several carry it), or a "no data" line.
pub fn show_summary_for(logs: &Vec<DailyLog>, date: &str) -> (r: Vec<Line>)
    ensures
        lines_view(r@) == summary_spec(logs_view(logs@), date@),
{
    let mut out: Vec<Line> = Vec::new();
    match find_log(logs, date) {
        Some(i) => {
            proof {
                lemma_first_unique(logs_view(logs@), date@, i as int);
            }
            assert(logs@[i as int]@ == logs_view(logs@)[i as int]);
            push_record(&mut out, &logs[i], "Nutrition Summary for ");
        },
        None => {
            push_line(&mut out, Style::Plain, String::from_str("No data found for ").concat(date));
        },
    }
    assert(lines_view(out@) =~= summary_spec(logs_view(logs@), date@));
    out
}

/// The summary of `date`, or of `today` when no date is given.
pub fn show_summary(logs: &Vec<DailyLog>, date: Option<String>, today: &str) -> (r: Vec<Line>)
    ensures
        lines_view(r@) == summary_spec(
            logs_view(logs@),
            match date {
                Some(d) => d@,
                None => today@,
            },
        ),
{
    match date {
        Some(d) => show_summary_for(logs, d.as_str()),
        None => show_summary_for(logs, today),
    }
}

/// The history of `logs` in the order given.
pub fn history_lines(logs: &Vec<DailyLog>) -> (r: Vec<Line>)
    ensures
        lines_view(r@) == history_spec(logs_view(logs@)),
{
    let mut out: Vec<Line> = Vec::new();
    if logs.len() == 0 {
        push_line(&mut out, Style::Heading, String::from_str("No nutrition data found."));
        return out;
    }
    push_line(&mut out, Style::Heading, String::from_str("All Nutrition Records"));
    push_line(&mut out, Style::Heading, String::from_str("==================="));
    let ghost head = lines_view(out@);
    let mut i: usize = 0;
    while i < logs.len()
        invariant
            i <= logs.len(),
            lines_view(out@) == head + history_body(logs_view(logs@.subrange(0, i as int))),
        decreases logs.len() - i,
    {
        let ghost m = logs_view(logs@.subrange(0, i + 1));
        assert(m.drop_last() =~= logs_view(logs@.subrange(0, i as int)));
        assert(m.last() == logs@[i as int]@);
        proof {
            reveal_strlit("");
        }
        assert(history_body(m) == history_body(m.drop_last()) + seq![(Style::Plain, ""@)]
            + record_lines(m.last(), "Date: "@));
        let ghost mid = lines_view(out@);
        assert(""@ =~= Seq::<char>::empty());
        push_line(&mut out, Style::Plain, String::new());
        assert(lines_view(out@) =~= mid + seq![(Style::Plain, ""@)]);
        let ghost mid2 = lines_view(out@);
        push_record(&mut out, &logs[i], "Date: ");
        assert(lines_view(out@) =~= mid2 + record_lines(m.last(), "Date: "@));
        assert(lines_view(out@) =~= mid + seq![(Style::Plain, ""@)] + record_lines(m.last(), "Date: "@));
        assert(lines_view(out@) =~= head + history_body(m));
        i += 1;
    }
    assert(logs@.subrange(0, logs.len() as int) =~= logs@);
    out
}

/// Every record, newest first, records that share a date in their given
/// order; a "no data" line when there is none.
pub fn show_all_logs(logs: Vec<DailyLog>) -> (r: Vec<Line>)
    ensures
        exists|s: Seq<DailyLog>|
            {
                &&& sorted_desc(s)
                &&& s.to_multiset() == logs@.to_multiset()
                &&& forall|d: Seq<char>| #[trigger] with_date(s, d) == with_date(logs@, d)
                &&& lines_view(r@) == history_spec(logs_view(s))
            },
{
    let sorted = sort_by_date_desc(logs);
    history_lines(&sorted)
}

pub open spec fn unit_phrase(c: Category) -> Seq<char> {
    match c {
        Category::Calories => "calories"@,
        Category::Water => "fl oz of water"@,
        Category::Protein => "grams of protein"@,
        Category::Carbs => "grams of carbs"@,
        Category::Fat => "grams of fat"@,
    }
}

pub open spec fn log_message_text(c: Category, amount: int, total: int) -> Seq<char> {
    "Logged "@ + plain_text(amount) + " "@ + unit_phrase(c) + ". Total today: "@ + plain_text(total)
}

fn unit_str(c: Category) -> (r: &'static str)
    ensures
        r@ == unit_phrase(c),
{
    match c {
        Category::Calories => "calories",
        Category::Water => "fl oz of water",
        Category::Protein => "grams of protein",
        Category::Carbs => "grams of carbs",
        Category::Fat => "grams of fat",
    }
}

/// The confirmation of a log request, with the new total of its category.
pub fn log_message(entry: NutritionType, total: i64) -> (r: Line)
    ensures
        r.style == Style::Field(entry.spec_category()),
        r.text@ == log_message_text(entry.spec_category(), entry.spec_amount(), total as int),
{
    let c = entry.category();
    let text = String::from_str("Logged ").concat(format_plain(entry.amount()).as_str()).concat(
        " ",
    ).concat(unit_str(c)).concat(". Total today: ").concat(format_plain(total).as_str());
    Line { style: Style::Field(c), text }
}

/// The outcome of a reset: whether today had a record to zero.
pub fn reset_message(done: bool) -> (r: Line)
    ensures
        r.style == Style::Heading,
        r.text@ == if done {
            "Today's nutrition data has been reset."@
        } else {
            "No data for today to reset."@
        },
{
    let text = if done {
        String::from_str("Today's nutrition data has been reset.")
    } else {
        String::from_str("No data for today to reset.")
    };
    Line { style: Style::Heading, text }
}

/// After a reset of date `d`, the summary of `d` shows every accumulator at
/// zero; with no record for `d` it still reports no data.
pub proof fn lemma_reset_then_summary(m: Seq<LogView>, d: Seq<char>)
    ensures
        has_date(m, d) ==> summary_spec(reset_date(m, d), d) == record_lines(
            LogView::zero(d),
            "Nutrition Summary for "@,
        ),
        !has_date(m, d) ==> summary_spec(reset_date(m, d), d) == no_data_lines(d),
{
    if has_date(m, d) {
        lemma_first_exists(m, d);
        let i = first_of(m, d);
        let m2 = reset_date(m, d);
        assert(is_first(m2, d, i));
        lemma_first_unique(m2, d, i);
    }
}

/// The summary of a date that has no record is the "no data" line.
pub proof fn lemma_summary_unlogged(m: Seq<LogView>, d: Seq<char>)
    requires
        !has_date(m, d),
    ensures
        summary_spec(m, d) == no_data_lines(d),
{
}

} // verus!
