use cali::order::{date_before, sort_by_date_desc};
use cali::record::{Category, DailyLog, NutritionType};
use cali::report::{
    category_label, history_lines, log_message, reset_message, show_all_logs, show_summary,
    show_summary_for,
    value_string, Style,
};
use cali::store::{
    find_log, get_or_create_today_log, log_entries, log_nutrition, reset_today_log, LogError,
};
use cali::text::{format_plain, format_tenths};

const DAY: &str = "2024-01-15";

fn texts(lines: &[cali::report::Line]) -> Vec<String> {
    lines.iter().map(|l| l.text.clone()).collect()
}

fn record(date: &str, calories: i64) -> DailyLog {
    let mut l = DailyLog::new(date.to_string());
    l.calories = calories;
    l
}

#[test]
fn log_calories_on_empty_store() {
    let mut logs: Vec<DailyLog> = Vec::new();
    let r = log_nutrition(&mut logs, DAY, NutritionType::Calories { amount: 500_000 });
    assert_eq!(r, Ok(500_000));
    assert_eq!(logs.len(), 1);
    assert_eq!(logs[0].date, DAY);
    assert_eq!(logs[0].calories, 500_000);
    assert_eq!(logs[0].water, 0);
    assert_eq!(logs[0].protein, 0);
    assert_eq!(logs[0].carbs, 0);
    assert_eq!(logs[0].fat, 0);
}

#[test]
fn two_calorie_logs_sum_in_summary() {
    let mut logs: Vec<DailyLog> = Vec::new();
    log_nutrition(&mut logs, DAY, NutritionType::Calories { amount: 500_000 }).unwrap();
    let r = log_nutrition(&mut logs, DAY, NutritionType::Calories { amount: 300_000 });
    assert_eq!(r, Ok(800_000));
    assert_eq!(logs.len(), 1);
    let lines = show_summary_for(&logs, DAY);
    assert_eq!(
        texts(&lines),
        vec![
            "Nutrition Summary for 2024-01-15",
            "-------------------------",
            "Calories: 800",
            "Water: 0.0 fl oz",
            "Protein: 0.0g",
            "Carbs: 0.0g",
            "Fat: 0.0g",
        ]
    );
    assert_eq!(lines[0].style, Style::Heading);
    assert_eq!(lines[2].style, Style::Field(Category::Calories));
}

#[test]
fn log_order_does_not_change_totals() {
    let entries = [
        NutritionType::Calories { amount: 250_500 },
        NutritionType::Water { fl_oz: 8_000 },
        NutritionType::Calories { amount: -100_000 },
        NutritionType::Protein { grams: 30_000 },
        NutritionType::Calories { amount: 1_000 },
    ];
    let mut forward: Vec<DailyLog> = Vec::new();
    for e in entries.iter() {
        log_nutrition(&mut forward, DAY, *e).unwrap();
    }
    let mut backward: Vec<DailyLog> = Vec::new();
    for e in entries.iter().rev() {
        log_nutrition(&mut backward, DAY, *e).unwrap();
    }
    assert_eq!(forward[0].calories, 151_500);
    assert_eq!(backward[0].calories, 151_500);
    assert_eq!(forward[0].water, backward[0].water);
    assert_eq!(forward[0].protein, 30_000);
    assert_eq!(backward[0].protein, 30_000);
}

#[test]
fn log_other_categories() {
    let mut logs = vec![record("2024-01-14", 1_000)];
    assert_eq!(log_nutrition(&mut logs, DAY, NutritionType::Water { fl_oz: 64_000 }), Ok(64_000));
    assert_eq!(log_nutrition(&mut logs, DAY, NutritionType::Carbs { grams: 200_000 }), Ok(200_000));
    assert_eq!(log_nutrition(&mut logs, DAY, NutritionType::Fat { grams: 60_000 }), Ok(60_000));
    assert_eq!(logs.len(), 2);
    assert_eq!(logs[0].calories, 1_000);
    assert_eq!(logs[1].water, 64_000);
    assert_eq!(logs[1].carbs, 200_000);
    assert_eq!(logs[1].fat, 60_000);
}

#[test]
fn log_overflow_is_refused() {
    let mut logs: Vec<DailyLog> = Vec::new();
    log_nutrition(&mut logs, DAY, NutritionType::Fat { grams: i64::MAX }).unwrap();
    let r = log_nutrition(&mut logs, DAY, NutritionType::Fat { grams: 1 });
    assert_eq!(r, Err(LogError::Overflow));
    assert_eq!(logs.len(), 1);
    assert_eq!(logs[0].fat, i64::MAX);
}

#[test]
fn reset_then_summary_is_zero() {
    let mut logs: Vec<DailyLog> = Vec::new();
    log_nutrition(&mut logs, DAY, NutritionType::Calories { amount: 500_000 }).unwrap();
    log_nutrition(&mut logs, DAY, NutritionType::Water { fl_oz: 12_000 }).unwrap();
    assert!(reset_today_log(&mut logs, DAY));
    assert_eq!(logs.len(), 1);
    let t = texts(&show_summary_for(&logs, DAY));
    assert_eq!(t[2], "Calories: 0");
    assert_eq!(t[3], "Water: 0.0 fl oz");
    assert_eq!(t[6], "Fat: 0.0g");
}

#[test]
fn reset_without_record_changes_nothing() {
    let mut logs = vec![record("2024-01-14", 5_000)];
    assert!(!reset_today_log(&mut logs, DAY));
    assert_eq!(logs.len(), 1);
    assert_eq!(logs[0].calories, 5_000);
    assert_eq!(reset_message(false).text, "No data for today to reset.");
    assert_eq!(reset_message(true).text, "Today's nutrition data has been reset.");
}

#[test]
fn summary_of_unlogged_date() {
    let logs = vec![record(DAY, 5_000)];
    let t = texts(&show_summary_for(&logs, "2024-02-01"));
    assert_eq!(t, vec!["No data found for 2024-02-01"]);
    assert_eq!(logs.len(), 1);
    assert_eq!(logs[0].calories, 5_000);
    let t = texts(&show_summary(&logs, Some("2024-02-01".to_string()), DAY));
    assert_eq!(t, vec!["No data found for 2024-02-01"]);
}

#[test]
fn history_is_newest_first() {
    let logs = vec![record("2024-01-10", 1_000), record("2024-01-15", 2_000)];
    let t = texts(&show_all_logs(logs));
    assert_eq!(
        t,
        vec![
            "All Nutrition Records",
            "===================",
            "",
            "Date: 2024-01-15",
            "-------------------------",
            "Calories: 2",
            "Water: 0.0 fl oz",
            "Protein: 0.0g",
            "Carbs: 0.0g",
            "Fat: 0.0g",
            "",
            "Date: 2024-01-10",
            "-------------------------",
            "Calories: 1",
            "Water: 0.0 fl oz",
            "Protein: 0.0g",
            "Carbs: 0.0g",
            "Fat: 0.0g",
        ]
    );
}

#[test]
fn history_of_empty_store() {
    let t = texts(&show_all_logs(Vec::new()));
    assert_eq!(t, vec!["No nutrition data found."]);
    let t = texts(&history_lines(&Vec::new()));
    assert_eq!(t, vec!["No nutrition data found."]);
}

#[test]
fn sort_orders_dates_descending() {
    let logs = vec![
        record("2023-12-31", 1),
        record("2024-01-15", 2),
        record("2024-01-02", 3),
        record("2024-01-10", 4),
    ];
    let sorted = sort_by_date_desc(logs);
    let dates: Vec<&str> = sorted.iter().map(|l| l.date.as_str()).collect();
    assert_eq!(dates, vec!["2024-01-15", "2024-01-10", "2024-01-02", "2023-12-31"]);
    let cals: Vec<i64> = sorted.iter().map(|l| l.calories).collect();
    assert_eq!(cals, vec![2, 4, 3, 1]);
}

#[test]
fn date_text_order() {
    assert!(date_before("2024-01-10", "2024-01-15"));
    assert!(!date_before("2024-01-15", "2024-01-10"));
    assert!(!date_before("2024-01-15", "2024-01-15"));
    assert!(date_before("2024", "2024-01"));
    assert!(!date_before("2024-01", "2024"));
    assert!(date_before("", "a"));
}

#[test]
fn find_first_match() {
    let logs = vec![record("a", 1), record(DAY, 2), record(DAY, 3)];
    assert_eq!(find_log(&logs, DAY), Some(1));
    assert_eq!(find_log(&logs, "b"), None);
}

#[test]
fn get_or_create_appends_once() {
    let mut logs = vec![record("2024-01-14", 1)];
    assert_eq!(get_or_create_today_log(&mut logs, DAY), 1);
    assert_eq!(logs.len(), 2);
    assert_eq!(logs[1].date, DAY);
    assert_eq!(logs[1].calories, 0);
    assert_eq!(get_or_create_today_log(&mut logs, DAY), 1);
    assert_eq!(logs.len(), 2);
}

#[test]
fn plain_number_text() {
    assert_eq!(format_plain(800_000), "800");
    assert_eq!(format_plain(1_500), "1.5");
    assert_eq!(format_plain(-250), "-0.25");
    assert_eq!(format_plain(0), "0");
    assert_eq!(format_plain(1), "0.001");
    assert_eq!(format_plain(12_340), "12.34");
    assert_eq!(format_plain(i64::MIN), "-9223372036854775.808");
}

#[test]
fn tenths_number_text() {
    assert_eq!(format_tenths(64_000), "64.0");
    assert_eq!(format_tenths(149), "0.1");
    assert_eq!(format_tenths(150), "0.2");
    assert_eq!(format_tenths(-2_500), "-2.5");
    assert_eq!(format_tenths(0), "0.0");
    assert_eq!(format_tenths(99_960), "100.0");
}

#[test]
fn field_values_and_labels() {
    let mut l = DailyLog::new(DAY.to_string());
    l.set(Category::Protein, 90_000);
    assert_eq!(l.get(Category::Protein), 90_000);
    assert_eq!(value_string(&l, Category::Protein), "90.0g");
    assert_eq!(value_string(&l, Category::Water), "0.0 fl oz");
    assert_eq!(category_label(Category::Carbs), "Carbs");
    let e = NutritionType::Water { fl_oz: 8_500 };
    assert_eq!(e.category(), Category::Water);
    assert_eq!(e.amount(), 8_500);
}

#[test]
fn log_confirmation_text() {
    let m = log_message(NutritionType::Calories { amount: 300_000 }, 800_000);
    assert_eq!(m.text, "Logged 300 calories. Total today: 800");
    assert_eq!(m.style, Style::Field(Category::Calories));
    let m = log_message(NutritionType::Water { fl_oz: 8_500 }, 8_500);
    assert_eq!(m.text, "Logged 8.5 fl oz of water. Total today: 8.5");
}

#[test]
fn summary_defaults_to_today() {
    let logs = vec![record(DAY, 2_500)];
    let t = texts(&show_summary(&logs, None, DAY));
    assert_eq!(t[0], "Nutrition Summary for 2024-01-15");
    assert_eq!(t[2], "Calories: 2.5");
    let t = texts(&show_summary(&logs, Some("2024-01-14".to_string()), DAY));
    assert_eq!(t, vec!["No data found for 2024-01-14"]);
}

#[test]
fn equal_dates_keep_their_order() {
    let logs = vec![
        record("2024-01-10", 1),
        record("2024-01-15", 2),
        record("2024-01-10", 3),
        record("2024-01-15", 4),
    ];
    let sorted = sort_by_date_desc(logs);
    let cals: Vec<i64> = sorted.iter().map(|l| l.calories).collect();
    assert_eq!(cals, vec![2, 4, 1, 3]);
    let logs = vec![record(DAY, 7), record(DAY, 8)];
    let t = texts(&show_all_logs(logs));
    assert_eq!(t[5], "Calories: 0.007");
    assert_eq!(t[13], "Calories: 0.008");
}

#[test]
fn batch_logging_sums_in_any_order() {
    let entries = vec![
        NutritionType::Carbs { grams: 20_000 },
        NutritionType::Calories { amount: 400_000 },
        NutritionType::Carbs { grams: 35_500 },
        NutritionType::Fat { grams: 9_000 },
    ];
    let mut a = vec![record("2024-01-14", 1)];
    assert_eq!(log_entries(&mut a, DAY, &entries), Ok(()));
    let reversed: Vec<NutritionType> = entries.iter().rev().cloned().collect();
    let mut b = vec![record("2024-01-14", 1)];
    assert_eq!(log_entries(&mut b, DAY, &reversed), Ok(()));
    assert_eq!(a.len(), 2);
    assert_eq!(b.len(), 2);
    for l in [&a[1], &b[1]] {
        assert_eq!(l.date, DAY);
        assert_eq!(l.calories, 400_000);
        assert_eq!(l.carbs, 55_500);
        assert_eq!(l.fat, 9_000);
        assert_eq!(l.water, 0);
        assert_eq!(l.protein, 0);
    }
}

#[test]
fn batch_logging_stops_at_overflow() {
    let entries = vec![
        NutritionType::Water { fl_oz: 5 },
        NutritionType::Water { fl_oz: i64::MAX },
        NutritionType::Protein { grams: 7 },
    ];
    let mut logs: Vec<DailyLog> = Vec::new();
    assert_eq!(log_entries(&mut logs, DAY, &entries), Err(1));
    assert_eq!(logs.len(), 1);
    assert_eq!(logs[0].water, 5);
    assert_eq!(logs[0].protein, 0);
}
