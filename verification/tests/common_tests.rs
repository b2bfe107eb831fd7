use chiri::common::{
    chiri_core_ranges, embedded_config_file, embedded_feature_str, embedded_ftl_str,
    embedded_meta_str, first_line_trimmed, get_config_path, hint_matches, is_chiri_soc,
    is_fas_mode, lab_global_mode, matched_soc_config_dir, matched_soc_hint, nofix_active,
    set_lab_global_mode, set_nofix, soc_hint_haystack, soc_hint_matches, DaemonFlags,
    EmbeddedConfig,
};

#[test]
fn hint_matching_lowercases_the_hint() {
    assert!(hint_matches("qualcomm sm8550 board", "SM8550"));
    assert!(!hint_matches("sm8550", "85"));
    assert!(!hint_matches("sm8450", "8550"));
}

#[test]
fn first_matching_hint_in_list_order() {
    assert_eq!(matched_soc_hint("hardware: sm8475\nkalama sm8550"), Some("8550"));
    assert_eq!(matched_soc_hint("msm8998"), Some("8998"));
    assert_eq!(matched_soc_hint("mt6983"), None);
    assert!(is_chiri_soc("SM8475".to_lowercase().as_str()));
    assert!(!is_chiri_soc("exynos"));
}

#[test]
fn haystack_joins_and_lowercases() {
    let h = soc_hint_haystack(&vec!["SM8550".to_string(), String::new(), "Kalama".to_string()]);
    assert_eq!(h, "sm8550\n\nkalama");
    assert!(soc_hint_matches(&h, &vec!["1234", "8550"]));
    assert!(!soc_hint_matches(&h, &vec!["1234"]));
}

#[test]
fn core_layouts_per_processor() {
    let r = chiri_core_ranges(Some("8475"));
    assert_eq!((r.little, r.big, r.prime), (0..4, 4..7, 7..8));
    let r = chiri_core_ranges(Some("8998"));
    assert_eq!((r.little, r.big, r.prime), (0..4, 4..8, 7..7));
    let r = chiri_core_ranges(None);
    assert_eq!((r.little, r.big, r.prime), (0..3, 3..7, 7..8));
}

#[test]
fn config_paths() {
    assert_eq!(get_config_path("/data/adb/modules/chiri", Some("8550"), true), "/data/adb/modules/chiri/config/8550/meta.yaml");
    assert_eq!(get_config_path("/data/adb/modules/chiri", Some("8550"), false), "/data/adb/modules/chiri/config/meta.yaml");
    assert_eq!(get_config_path("/m/", None, true), "/m/config/meta.yaml");
    assert_eq!(matched_soc_config_dir("/m", "sm8550"), Some("/m/config/8550".to_string()));
    assert_eq!(matched_soc_config_dir("/m", "x"), None);
}

#[test]
fn flags_read_back_what_was_set() {
    let mut f = DaemonFlags::new();
    assert!(!nofix_active(&f));
    set_nofix(&mut f, true);
    assert!(nofix_active(&f));
    assert_eq!(lab_global_mode(&f), None);
    set_lab_global_mode(&mut f, Some("babel".to_string()));
    assert_eq!(lab_global_mode(&f), Some("babel".to_string()));
}

fn cfg() -> EmbeddedConfig {
    EmbeddedConfig {
        files: vec![
            ("8550/meta.yaml".to_string(), "soc meta".to_string()),
            ("meta.yaml".to_string(), "normal meta".to_string()),
            ("feature.yaml".to_string(), "normal feature".to_string()),
            ("i18n/zh.ftl".to_string(), "zh".to_string()),
            ("i18n/en.ftl".to_string(), "en".to_string()),
        ],
    }
}

#[test]
fn embedded_files_by_processor() {
    let c = cfg();
    assert_eq!(embedded_config_file(&c, "i18n/zh.ftl"), Some("zh"));
    assert_eq!(embedded_config_file(&c, "nope"), None);
    assert_eq!(embedded_meta_str(&c, Some("8550")), "soc meta");
    assert_eq!(embedded_meta_str(&c, Some("8475")), "normal meta");
    assert_eq!(embedded_feature_str(&c, None), "normal feature");
    assert_eq!(embedded_ftl_str(&c, "ZH"), "zh");
    assert_eq!(embedded_ftl_str(&c, "fr"), "en");
}

#[test]
fn fas_mode_name() {
    assert!(is_fas_mode("fas"));
    assert!(!is_fas_mode("FAS"));
}

#[test]
fn first_line_of_a_file() {
    assert_eq!(first_line_trimmed("  SM8550 \nrest"), "SM8550");
    assert_eq!(first_line_trimmed(""), "");
}
