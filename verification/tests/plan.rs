use rust_learn::xy::plan::{plans_from_text, split_by_month, DayPlan};

#[test]
fn day_plan_from_line() {
    let p = DayPlan::from_line(" 5.1 | 周四 |横线| 一二三 | 1+1 | abc | 静夜思 | 跳绳 ").unwrap();
    assert_eq!(p.date, "5.1");
    assert_eq!(p.week, "周四");
    assert_eq!(p.pen, "横线");
    assert_eq!(p.hanzi, "一二三");
    assert_eq!(p.math, "1+1");
    assert_eq!(p.english, "abc");
    assert_eq!(p.poem, "静夜思");
    assert_eq!(p.sport, "跳绳");
    assert!(DayPlan::from_line("5.1|a|b").is_none());
    assert!(DayPlan::from_line("a|b|c|d|e|f|g|h|i").is_none());
}

#[test]
fn plans_by_month() {
    let text = "5.1|a|b|c|d|e|f|g\r\n\n6.2|a|b|c|d|e|f|g\nbad line\n5.30|a|b|c|d|e|f|g\n8.1|a|b|c|d|e|f|g\n9.1|a|b|c|d|e|f|g\n";
    let plans = plans_from_text(text);
    assert_eq!(plans.len(), 5);
    assert_eq!(plans[0].sport, "g");
    let (may, june, july, aug) = split_by_month(&plans);
    assert_eq!(may.iter().map(|p| p.date.as_str()).collect::<Vec<_>>(), vec!["5.1", "5.30"]);
    assert_eq!(june.len(), 1);
    assert!(july.is_empty());
    assert_eq!(aug[0].date, "8.1");
    let copy = plans[1].clone();
    assert_eq!(copy.date, "6.2");
}
