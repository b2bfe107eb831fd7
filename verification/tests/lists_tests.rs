use chiri::common::{set_lab_special_tuned_disabled, DaemonFlags};
use chiri::lists::{
    fas_available, fas_whitelist_entry, is_affinity_blacklisted, is_special_mode,
    is_special_mode_allowed, parse_affinity_blacklist, parse_special_tuned, special_tuned_entry,
    special_tuned_mode, special_tuned_mode_names, FasWhitelist,
};

const TUNED: &str = "# special tunings\n\
com.hypergryph.arknights:akmode,daily:akmode\n\
re:^tv\\.danmaku\\.bili.*$: playback , daily ,:playback\n\
re:([bad:akmode:akmode\n\
broken.line:akmode\n\
empty.modes: , :akmode\n\
\n\
com.exact.bili:daily:daily\n";

#[test]
fn whitelist_lines_parse_into_entries() {
    let list = parse_special_tuned(TUNED);
    assert_eq!(list.len(), 3);
    assert_eq!(list[0].package, "com.hypergryph.arknights");
    assert_eq!(list[0].regex, None);
    assert_eq!(list[0].modes, vec!["akmode".to_string(), "daily".to_string()]);
    assert_eq!(list[0].fallback, "akmode");
    assert_eq!(list[1].package, "re:^tv\\.danmaku\\.bili.*$");
    assert_eq!(list[1].regex, Some("^tv\\.danmaku\\.bili.*$".to_string()));
    assert_eq!(list[1].modes, vec!["playback".to_string(), "daily".to_string()]);
    assert_eq!(list[2].package, "com.exact.bili");
}

#[test]
fn lookup_prefers_exact_then_regex() {
    let list = parse_special_tuned(TUNED);
    let flags = DaemonFlags::new();
    assert_eq!(special_tuned_mode(&flags, &list, "tv.danmaku.bili"), Some("playback".to_string()));
    assert_eq!(special_tuned_mode(&flags, &list, "com.hypergryph.arknights"), Some("akmode".to_string()));
    assert_eq!(special_tuned_mode(&flags, &list, "com.other"), None);
    assert!(special_tuned_entry(&flags, &list, "tv.danmaku.bilibili.hd").is_some());
    assert!(is_special_mode_allowed(&flags, &list, "com.hypergryph.arknights", "daily"));
    assert!(!is_special_mode_allowed(&flags, &list, "com.hypergryph.arknights", "playback"));
}

#[test]
fn lab_switch_turns_special_tuning_off() {
    let list = parse_special_tuned(TUNED);
    let mut flags = DaemonFlags::new();
    assert!(is_special_mode(&flags, &list, "playback"));
    set_lab_special_tuned_disabled(&mut flags, true);
    assert!(!is_special_mode(&flags, &list, "playback"));
    assert_eq!(special_tuned_mode(&flags, &list, "com.hypergryph.arknights"), None);
}

#[test]
fn mode_names_deduplicated_in_order() {
    let list = parse_special_tuned(TUNED);
    assert_eq!(
        special_tuned_mode_names(&list),
        vec!["akmode".to_string(), "daily".to_string(), "playback".to_string()]
    );
}

#[test]
fn blacklist_matches_names_and_regexes() {
    let list = parse_affinity_blacklist("# list\ncom.android.phone\nre:^media\\.\nre:(oops\n");
    assert_eq!(list.len(), 2);
    assert!(is_affinity_blacklisted(&list, "com.android.phone"));
    assert!(is_affinity_blacklisted(&list, "media.codec"));
    assert!(!is_affinity_blacklisted(&list, "com.android.phone2"));
    assert!(is_affinity_blacklisted(&list, ""));
    assert!(is_affinity_blacklisted(&list, "/system/bin/surfaceflinger"));
}

#[test]
fn fas_whitelist_lookup_and_availability() {
    let wl = FasWhitelist::from_pairs(vec![
        ("com.miHoYo.Yuanshen".to_string(), "genshin".to_string()),
        ("com.tencent.tmgp.sgame".to_string(), "sgame".to_string()),
    ]);
    assert_eq!(fas_whitelist_entry(&wl, "com.tencent.tmgp.sgame"), Some(&"sgame".to_string()));
    assert_eq!(fas_whitelist_entry(&wl, "com.x"), None);
    let flags = DaemonFlags::new();
    assert!(fas_available(&flags, &wl, 1));
    assert!(!fas_available(&flags, &wl, 0));
    assert!(!fas_available(&flags, &FasWhitelist::from_pairs(vec![]), 3));
}

#[test]
fn fas_whitelist_keeps_each_package_once() {
    let wl = FasWhitelist::from_pairs(vec![
        ("a".to_string(), "x".to_string()),
        ("b".to_string(), "y".to_string()),
        ("a".to_string(), "z".to_string()),
    ]);
    assert_eq!(wl.len(), 2);
    assert_eq!(fas_whitelist_entry(&wl, "a"), Some(&"z".to_string()));
    assert_eq!(fas_whitelist_entry(&wl, "b"), Some(&"y".to_string()));
}

#[test]
fn fallback_outside_modes_is_skipped() {
    let list = parse_special_tuned("a:m:x\nb:m,x:x\n");
    assert_eq!(list.len(), 1);
    assert_eq!(list[0].package, "b");
    assert_eq!(list[0].fallback, "x");
}
