use motosan_agent_tool::json::JsonValue;
use motosan_agent_tool::tool::ToolOutput;
use motosan_agent_tool::tools::datetime::{
    add_months, approximate_months, days_in_month, format_date, format_human_date, format_human_diff,
    ordinal_suffix, parse_offset, parse_weekday, CivilDate, DatetimeInput, DatetimeTool, Weekday,
};

fn date(year: i32, month: u32, day: u32) -> CivilDate {
    CivilDate { year, month, day }
}

fn input(function: &str) -> DatetimeInput {
    DatetimeInput { function: function.to_string(), timezone: None, date: None, offset: None, from: None, to: None }
}

fn json_of(r: &ToolOutput) -> JsonValue {
    assert!(!r.is_error, "unexpected error: {:?}", r.as_text());
    r.as_json().expect("JSON answer")
}

fn field<'a>(v: &'a JsonValue, key: &str) -> &'a JsonValue {
    v.get(key).expect("field present")
}

#[test]
fn datetime_should_have_correct_name_and_schema() {
    let def = DatetimeTool::new().def();
    assert_eq!(def.name, "datetime");
    let schema = &def.input_schema;
    assert_eq!(field(schema, "type").as_str(), Some("object"));
    let props = field(schema, "properties");
    for key in ["function", "timezone", "date", "offset", "from", "to"] {
        assert!(field(props, key).is_object(), "{key}");
    }
    let required = field(schema, "required").as_array().unwrap();
    assert_eq!(required.len(), 1);
    assert_eq!(required[0].as_str(), Some("function"));
    def.validate_input_schema().unwrap();
}

#[test]
fn get_current_datetime_returns_iso_string() {
    let r = DatetimeTool::new().call(&input("get_current_datetime"));
    let v = json_of(&r);
    for key in ["iso", "date", "time", "weekday", "human"] {
        assert!(field(&v, key).is_string(), "{key}");
    }
    assert!(!field(&v, "iso").as_str().unwrap().is_empty());
}

#[test]
fn get_current_datetime_with_timezone() {
    let mut i = input("get_current_datetime");
    i.timezone = Some("Asia/Taipei".to_string());
    let v = json_of(&DatetimeTool::new().call(&i));
    assert!(field(&v, "iso").as_str().unwrap().contains("+08:00"));
}

#[test]
fn get_current_datetime_rejects_unknown_zone() {
    let mut i = input("get_current_datetime");
    i.timezone = Some("Mars/Olympus".to_string());
    let r = DatetimeTool::new().call(&i);
    assert!(r.is_error);
    assert_eq!(r.as_text(), Some("Unknown timezone: Mars/Olympus"));
}

fn date_add(d: &str, offset: &str) -> ToolOutput {
    let mut i = input("date_add");
    i.date = Some(d.to_string());
    i.offset = Some(offset.to_string());
    DatetimeTool::new().call(&i)
}

#[test]
fn date_add_plus_one_day() {
    let v = json_of(&date_add("2026-03-17", "+1d"));
    assert_eq!(field(&v, "date").as_str(), Some("2026-03-18"));
    assert_eq!(field(&v, "weekday").as_str(), Some("Wednesday"));
    assert_eq!(field(&v, "human").as_str(), Some("Wednesday, March 18th, 2026"));
    assert_eq!(field(&v, "iso").as_str(), Some("2026-03-18T00:00:00+00:00"));
}

#[test]
fn date_add_plus_two_weeks() {
    let v = json_of(&date_add("2026-03-17", "+2w"));
    assert_eq!(field(&v, "date").as_str(), Some("2026-03-31"));
}

#[test]
fn date_add_next_monday() {
    let v = json_of(&date_add("2026-03-17", "next monday"));
    assert_eq!(field(&v, "date").as_str(), Some("2026-03-23"));
    assert_eq!(field(&v, "weekday").as_str(), Some("Monday"));
}

#[test]
fn date_add_next_same_weekday_is_a_week_later() {
    let v = json_of(&date_add("2026-03-17", "next Tuesday"));
    assert_eq!(field(&v, "date").as_str(), Some("2026-03-24"));
}

#[test]
fn date_add_plus_one_month() {
    let v = json_of(&date_add("2026-01-31", "+1M"));
    assert_eq!(field(&v, "date").as_str(), Some("2026-02-28"));
}

#[test]
fn date_add_missing_date_returns_error() {
    let mut i = input("date_add");
    i.offset = Some("+1d".to_string());
    let r = DatetimeTool::new().call(&i);
    assert!(r.is_error);
    assert_eq!(r.as_text(), Some("date_add requires a \"date\" field (YYYY-MM-DD)"));
}

#[test]
fn date_add_missing_offset_returns_error() {
    let mut i = input("date_add");
    i.date = Some("2026-03-17".to_string());
    let r = DatetimeTool::new().call(&i);
    assert_eq!(r.as_text(), Some("date_add requires an \"offset\" field"));
}

#[test]
fn date_add_invalid_date_returns_error() {
    let r = date_add("2026-13-40", "+1d");
    assert!(r.is_error);
    assert!(r.as_text().unwrap().starts_with("Invalid date \"2026-13-40\": "));
}

#[test]
fn date_diff_two_weeks() {
    let mut i = input("date_diff");
    i.from = Some("2026-03-17".to_string());
    i.to = Some("2026-03-31".to_string());
    let v = json_of(&DatetimeTool::new().call(&i));
    assert_eq!(field(&v, "days").as_i64(), Some(14));
    assert_eq!(field(&v, "weeks").as_u64(), Some(2));
    assert_eq!(field(&v, "months").as_i64(), Some(0));
    assert_eq!(field(&v, "human").as_str(), Some("2 weeks"));
}

#[test]
fn date_diff_backwards_is_negative() {
    let mut i = input("date_diff");
    i.from = Some("2026-03-31".to_string());
    i.to = Some("2026-01-30".to_string());
    let v = json_of(&DatetimeTool::new().call(&i));
    assert_eq!(field(&v, "days").as_i64(), Some(-60));
    assert_eq!(field(&v, "weeks").as_u64(), Some(8));
    assert_eq!(field(&v, "months").as_i64(), Some(-2));
    assert_eq!(field(&v, "human").as_str(), Some("minus 2 months"));
}

#[test]
fn date_diff_missing_fields() {
    let r = DatetimeTool::new().call(&input("date_diff"));
    assert_eq!(r.as_text(), Some("date_diff requires a \"from\" field (YYYY-MM-DD)"));
    let mut i = input("date_diff");
    i.from = Some("2026-03-17".to_string());
    let r = DatetimeTool::new().call(&i);
    assert_eq!(r.as_text(), Some("date_diff requires a \"to\" field (YYYY-MM-DD)"));
}

#[test]
fn unknown_function_returns_error() {
    let r = DatetimeTool::new().call(&input("not_a_function"));
    assert!(r.is_error);
    assert!(r.as_text().unwrap().contains("Unknown function"));
    assert_eq!(r.as_text(), Some("Unknown function: not_a_function. Expected one of: get_current_datetime, date_add, date_diff"));
}

#[test]
fn try_call_refuses_out_of_range_dates() {
    let tool = DatetimeTool::new();
    let mut i = input("date_add");
    i.date = Some("2026-03-17".to_string());
    i.offset = Some("+999999999d".to_string());
    assert!(tool.try_call(&i).is_none());
    i.offset = Some("+1d".to_string());
    assert!(tool.try_call(&i).is_some());
}

#[test]
fn parse_offset_negative_days() {
    let base = date(2026, 3, 17);
    let result = parse_offset(base, "-7d").unwrap();
    assert_eq!(result, date(2026, 3, 10));
}

#[test]
fn parse_offset_invalid_returns_error() {
    let base = date(2026, 3, 17);
    assert!(parse_offset(base, "garbage").is_err());
    assert!(parse_offset(base, "+1x").is_err());
}

#[test]
fn parse_offset_error_messages() {
    let base = date(2026, 3, 17);
    assert_eq!(
        parse_offset(base, "garbage").unwrap_err(),
        "Invalid offset \"garbage\": expected format like +1d, -7d, +2w, +1M, or \"next monday\""
    );
    assert_eq!(parse_offset(base, "+12").unwrap_err(), "Invalid offset \"+12\": missing unit (d/w/M)");
    assert_eq!(parse_offset(base, "+xd").unwrap_err(), "Invalid offset \"+xd\": \"\" is not a number");
    assert_eq!(
        parse_offset(base, "+1x").unwrap_err(),
        "Invalid offset unit \"x\": expected d (days), w (weeks), or M (months)"
    );
    assert_eq!(parse_offset(base, "next someday").unwrap_err(), "Unknown weekday: someday");
}

#[test]
fn parse_offset_trims_and_accepts_plus_weeks_months() {
    let base = date(2026, 3, 17);
    assert_eq!(parse_offset(base, "  +1w ").unwrap(), date(2026, 3, 24));
    assert_eq!(parse_offset(base, "+7d").unwrap(), parse_offset(base, "+1w").unwrap());
    assert_eq!(parse_offset(base, "-3M").unwrap(), date(2025, 12, 17));
    assert_eq!(parse_offset(base, "next FRI").unwrap(), date(2026, 3, 20));
}

#[test]
fn parse_weekday_accepts_names_and_abbreviations() {
    assert_eq!(parse_weekday("Monday").unwrap(), Weekday::Mon);
    assert_eq!(parse_weekday("sun").unwrap(), Weekday::Sun);
    assert_eq!(parse_weekday("WEDNESDAY").unwrap(), Weekday::Wed);
    assert_eq!(parse_weekday("noday").unwrap_err(), "Unknown weekday: noday");
}

#[test]
fn add_months_clamps_to_month_end() {
    assert_eq!(add_months(date(2026, 1, 31), 1).unwrap(), date(2026, 2, 28));
    assert_eq!(add_months(date(2024, 1, 31), 1).unwrap(), date(2024, 2, 29));
    assert_eq!(add_months(date(2026, 11, 15), 2).unwrap(), date(2027, 1, 15));
    assert_eq!(add_months(date(2026, 3, 31), -1).unwrap(), date(2026, 2, 28));
}

#[test]
fn days_in_month_follows_the_calendar() {
    assert_eq!(days_in_month(2026, 2), 28);
    assert_eq!(days_in_month(2024, 2), 29);
    assert_eq!(days_in_month(1900, 2), 28);
    assert_eq!(days_in_month(2000, 2), 29);
    assert_eq!(days_in_month(2026, 4), 30);
    assert_eq!(days_in_month(2026, 12), 31);
    assert_eq!(days_in_month(2026, 0), 31);
}

#[test]
fn approximate_months_counts_reached_days() {
    assert_eq!(approximate_months(date(2026, 1, 31), date(2026, 3, 30)), 1);
    assert_eq!(approximate_months(date(2026, 1, 15), date(2026, 3, 15)), 2);
    assert_eq!(approximate_months(date(2026, 3, 15), date(2026, 1, 20)), -1);
}

#[test]
fn ordinal_suffixes() {
    let expected = [(1, "st"), (2, "nd"), (3, "rd"), (4, "th"), (11, "th"), (12, "th"), (13, "th"), (21, "st"), (22, "nd"), (23, "rd"), (30, "th"), (31, "st")];
    for (day, suffix) in expected {
        assert_eq!(ordinal_suffix(day), suffix, "{day}");
    }
}

#[test]
fn human_diff_wording() {
    assert_eq!(format_human_diff(0), "0 days");
    assert_eq!(format_human_diff(1), "1 day");
    assert_eq!(format_human_diff(-3), "minus 3 days");
    assert_eq!(format_human_diff(7), "1 week");
    assert_eq!(format_human_diff(14), "2 weeks");
    assert_eq!(format_human_diff(30), "1 month");
    assert_eq!(format_human_diff(-60), "minus 2 months");
    assert_eq!(format_human_diff(210), "30 weeks");
    assert_eq!(format_human_diff(31), "31 days");
    assert_eq!(format_human_diff(i64::MIN), "minus 9223372036854775808 days");
}

#[test]
fn date_formatting() {
    assert_eq!(format_date(date(2026, 3, 7)), "2026-03-07");
    assert_eq!(format_date(date(33, 12, 1)), "0033-12-01");
    assert_eq!(format_date(date(-5, 1, 1)), "-0005-01-01");
    assert_eq!(format_date(date(12345, 1, 1)), "+12345-01-01");
    assert_eq!(format_human_date(date(2026, 3, 1)), "Sunday, March 1st, 2026");
}
