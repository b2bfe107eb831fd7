use chiri::meta::{
    check_meta_strings, meta_snapshot_text, plan_meta_toggles, read_nofix_flag,
    replace_top_level_bool, rules_snapshot_due, sanitize_language, sanitize_loglevel, unquote,
    MetaRewrite,
};

fn chars(s: &str) -> Vec<char> {
    s.chars().collect()
}

#[test]
fn unquote_removes_one_pair() {
    assert_eq!(unquote(&chars("\"INFO\"")), chars("INFO"));
    assert_eq!(unquote(&chars("'en'")), chars("en"));
    assert_eq!(unquote(&chars("\"en'")), chars("\"en'"));
    assert_eq!(unquote(&chars("\"")), chars("\""));
}

#[test]
fn log_levels_are_sanitised() {
    assert_eq!(sanitize_loglevel(" \"debug\" "), Some("DEBUG".to_string()));
    assert_eq!(sanitize_loglevel("Warn"), Some("WARN".to_string()));
    assert_eq!(sanitize_loglevel("verbose"), None);
}

#[test]
fn languages_are_sanitised() {
    assert_eq!(sanitize_language("'ZH'"), Some("zh".to_string()));
    assert_eq!(sanitize_language("en"), Some("en".to_string()));
    assert_eq!(sanitize_language("fr"), None);
}

#[test]
fn meta_fields_are_checked() {
    assert_eq!(
        check_meta_strings(Some("ChiRi"), Some("me"), Some("info"), None),
        Some((Some("INFO".to_string()), None))
    );
    assert_eq!(check_meta_strings(Some("  "), None, None, None), None);
    assert_eq!(check_meta_strings(None, None, Some("loud"), None), None);
    assert_eq!(check_meta_strings(None, None, None, Some("de")), None);
    assert_eq!(check_meta_strings(None, None, None, None), Some((None, None)));
}

#[test]
fn nofix_only_from_a_valid_file_that_sets_it() {
    assert!(read_nofix_flag(Some(Some(true))));
    assert!(!read_nofix_flag(Some(Some(false))));
    assert!(!read_nofix_flag(Some(None)));
    assert!(!read_nofix_flag(None));
}

#[test]
fn top_level_switch_is_rewritten_in_place() {
    let text = "name: ChiRi\nFas_Enabled:  true # keep\n  fas_enabled: true\n";
    assert_eq!(
        replace_top_level_bool(text, "fas_enabled", false),
        Some("name: ChiRi\nFas_Enabled:  false # keep\n  fas_enabled: true\n".to_string())
    );
    assert_eq!(replace_top_level_bool(text, "thread_bind", true), None);
    assert_eq!(replace_top_level_bool("# fas_enabled: true\n", "fas_enabled", true), None);
}

#[test]
fn toggles_planned_in_one_pass() {
    let text = "fas_enabled: true\nscenemode_enabled: true\nthread_bind: false\n";
    match plan_meta_toggles(text, Some(false), None, Some(true)) {
        MetaRewrite::Write(t) => {
            assert_eq!(t, "fas_enabled: false\nscenemode_enabled: true\nthread_bind: true\n")
        }
        _ => panic!("expected a write"),
    }
    assert!(matches!(plan_meta_toggles(text, Some(true), None, None), MetaRewrite::Unchanged));
    assert!(matches!(plan_meta_toggles(text, None, None, None), MetaRewrite::Unchanged));
    assert!(matches!(
        plan_meta_toggles("fas_enabled: true\n", None, Some(false), None),
        MetaRewrite::MissingField
    ));
}

#[test]
fn snapshot_self_healing() {
    assert_eq!(meta_snapshot_text(Some("x"), true, "EMB"), None);
    assert_eq!(meta_snapshot_text(None, false, "EMB"), Some("EMB".to_string()));
    let t = meta_snapshot_text(Some("bad"), false, "EMB").unwrap();
    assert!(t.starts_with("EMB\n# "));
    assert!(t.ends_with("logs/daemon.log\n"));
    assert!(rules_snapshot_due(None, "r"));
    assert!(!rules_snapshot_due(Some("r"), "r"));
    assert!(rules_snapshot_due(Some("r2"), "r"));
}
