use bn_agent::usage::{build_summary, check_budget, evaluate_budget, TokenBudgetConfig, UsageRow};

#[test]
fn unlimited_allows() {
    let r = evaluate_budget(&TokenBudgetConfig::default(), |_| 1_000_000);
    assert!(r.allowed);
}

#[test]
fn under_limit_allows() {
    let cfg = TokenBudgetConfig { daily: Some(1000), weekly: None, monthly: None };
    assert!(evaluate_budget(&cfg, |_| 500).allowed);
}

#[test]
fn daily_over_limit_blocks() {
    let cfg = TokenBudgetConfig { daily: Some(1000), weekly: None, monthly: None };
    let r = evaluate_budget(&cfg, |w| if w == "-1 day" { 1500 } else { 0 });
    assert!(!r.allowed);
    assert_eq!(r.period.as_deref(), Some("daily"));
    assert_eq!(r.used, 1500);
    assert_eq!(r.limit, 1000);
}

#[test]
fn monthly_blocks_when_daily_ok() {
    let cfg = TokenBudgetConfig { daily: Some(10000), weekly: None, monthly: Some(5000) };
    let r = evaluate_budget(&cfg, |w| match w {
        "-1 day" => 1000,
        "-30 days" => 6000,
        _ => 0,
    });
    assert!(!r.allowed);
    assert_eq!(r.period.as_deref(), Some("monthly"));
}

#[test]
fn at_exactly_limit_blocks() {
    let cfg = TokenBudgetConfig { daily: Some(1000), weekly: None, monthly: None };
    assert!(!evaluate_budget(&cfg, |_| 1000).allowed);
}

#[test]
fn limits_come_from_settings() {
    let cfg = TokenBudgetConfig::from_settings(Some("5"), Some("x"), None);
    assert_eq!(cfg.daily, Some(5));
    assert_eq!(cfg.weekly, None);
    assert!(!cfg.is_unlimited());
    assert!(TokenBudgetConfig::from_settings(None, None, None).is_unlimited());
}

#[test]
fn windows_of_the_budget_end_now() {
    let now = 10_000_000;
    let rows = vec![
        UsageRow::new("m", 10, 5, 0, 0, now - 2_592_001),
        UsageRow::new("m", 20, 5, 0, 0, now - 2_592_000),
        UsageRow::new("m", 30, 5, 0, 0, now - 86_401),
        UsageRow::new("m", 40, 5, 0, 0, now - 86_400),
    ];
    let daily = TokenBudgetConfig { daily: Some(45), weekly: None, monthly: None };
    let r = check_budget(&daily, &rows, now);
    assert_eq!((r.allowed, r.period.as_deref(), r.used), (false, Some("daily"), 45));
    let all = TokenBudgetConfig { daily: Some(46), weekly: Some(81), monthly: Some(105) };
    let r = check_budget(&all, &rows, now);
    assert_eq!((r.allowed, r.period.as_deref(), r.used, r.limit), (false, Some("monthly"), 105, 105));
    let wide = TokenBudgetConfig { daily: Some(46), weekly: Some(81), monthly: Some(106) };
    assert!(check_budget(&wide, &rows, now).allowed);
}

#[test]
fn summary_adds_up_in_all_and_by_model() {
    let rows = vec![
        UsageRow::new("a", 1, 2, 3, 4, 0),
        UsageRow::new("b", 10, 20, 30, 40, 0),
        UsageRow::new("a", 100, 200, 0, 1, 0),
    ];
    let s = build_summary(&rows);
    assert_eq!(s.total_prompt_tokens, 111);
    assert_eq!(s.total_completion_tokens, 222);
    assert_eq!(s.total_prompt_cache_hit_tokens, 33);
    assert_eq!(s.total_prompt_cache_miss_tokens, 45);
    assert_eq!(s.total_tokens, 333);
    assert_eq!(s.total_calls, 3);
    assert_eq!(s.by_model.len(), 2);
    let a = &s.by_model.iter().find(|(m, _)| m == "a").unwrap().1;
    assert_eq!((a.prompt_tokens, a.completion_tokens, a.total_tokens, a.call_count), (101, 202, 303, 2));
    assert_eq!(build_summary(&vec![]).total_calls, 0);
}

#[test]
fn limit_of_zero_is_no_limit() {
    let cfg = TokenBudgetConfig { daily: Some(0), weekly: None, monthly: Some(0) };
    assert!(cfg.is_unlimited());
    assert!(evaluate_budget(&cfg, |_| 1_000_000).allowed);
    let cfg = TokenBudgetConfig { daily: Some(0), weekly: Some(10), monthly: None };
    let r = evaluate_budget(&cfg, |_| 10);
    assert_eq!(r.period.as_deref(), Some("weekly"));
}

#[test]
fn only_windows_with_a_limit_are_asked_for() {
    let asked = std::cell::RefCell::new(Vec::new());
    let cfg = TokenBudgetConfig { daily: None, weekly: Some(10), monthly: Some(0) };
    let r = evaluate_budget(&cfg, |w| {
        asked.borrow_mut().push(w);
        1
    });
    assert!(r.allowed);
    assert_eq!((r.period, r.used, r.limit), (None, 0, 0));
    assert_eq!(*asked.borrow(), vec!["-7 days"]);
}
