use chiri::affinity::{
    all_cores_list, big_list, big_plus_prime_list, bg_uclamp_code, core_name_for,
    cpuset_tasks_path, exclude_core_from_cpusets, exclude_core_value, fmt_home, io_result_tag,
    is_key_thread, kernel_version, little_list, little_pair_list, parse_thread_stat, read_cmdline,
    read_tgid, reserved_exclude_groups, restore_excluded_cpusets, self_cpuset_group,
    set_groups_cpus_tracked, write_cpuset_cpus_items, BgUclampGuard,
};
use chiri::common::chiri_core_ranges;

fn s(x: &str) -> String {
    x.to_string()
}

#[test]
fn uclamp_codes() {
    assert_eq!(bg_uclamp_code("max"), u64::MAX);
    assert_eq!(bg_uclamp_code("30.00"), 31);
    assert_eq!(bg_uclamp_code("0"), 1);
    assert_eq!(bg_uclamp_code("abc"), 0);
}

#[test]
fn background_uclamp_written_once_a_minute_when_unchanged() {
    let mut g = BgUclampGuard::new();
    let w = g.write_bg_uclamp_max("30.00", 0);
    assert_eq!(w.len(), 2);
    assert_eq!(w[0].path, "/dev/cpuctl/background/cpu.uclamp.max");
    assert_eq!(w[1].path, "/dev/cpuctl/restricted/cpu.uclamp.max");
    assert_eq!(w[1].value, "30.00");
    assert!(g.write_bg_uclamp_max("30.00", 59_999).is_empty());
    assert_eq!(g.write_bg_uclamp_max("30.00", 60_000).len(), 2);
    assert_eq!(g.write_bg_uclamp_max("max", 60_001).len(), 2);
    assert_eq!(g.write_bg_uclamp_max("bogus", 60_002).len(), 2);
    assert_eq!(g.write_bg_uclamp_max("bogus", 60_003).len(), 2);
}

#[test]
fn key_threads() {
    assert!(is_key_thread(100, 100, "anything"));
    assert!(is_key_thread(101, 100, "RenderThread"));
    assert!(is_key_thread(102, 100, "UnityGfxDeviceW"));
    assert!(!is_key_thread(103, 100, "renderthread"));
}

#[test]
fn home_core_for_logs() {
    assert_eq!(fmt_home(3), "3");
    assert_eq!(fmt_home(-1), "-");
}

#[test]
fn thread_stat_sampling() {
    let mut fields: Vec<String> = (0..40).map(|i| i.to_string()).collect();
    fields[11] = "150".to_string();
    fields[12] = "25".to_string();
    fields[36] = "6".to_string();
    let text = format!("1234 (Render (x) Thread) {}", fields.join(" "));
    let t = parse_thread_stat(&text).unwrap();
    assert_eq!(t.comm, "Render (x) Thread");
    assert_eq!(t.ticks, 175);
    assert_eq!(t.processor, 6);
    assert!(parse_thread_stat("1 (a) S 1 2").is_none());
    assert!(parse_thread_stat("no brackets").is_none());
}

#[test]
fn cpuset_item_paths() {
    let w = write_cpuset_cpus_items(&vec![(s("top-app"), s("4-7"))]);
    assert_eq!(w[0].path, "/dev/cpuset/top-app/cpus");
    assert_eq!(w[0].value, "4-7");
    let r = restore_excluded_cpusets(vec![(s("foreground"), s("0-7"))]);
    assert_eq!(r[0].path, "/dev/cpuset/foreground/cpus");
}

#[test]
fn excluding_a_core() {
    assert_eq!(exclude_core_value(2, "0-3"), Some(s("0,1,3")));
    assert_eq!(exclude_core_value(5, "0-3"), None);
    assert_eq!(exclude_core_value(0, "0"), Some(s("")));
    let groups = reserved_exclude_groups();
    assert_eq!(groups[0], "top-app");
    let reads = vec![
        (s("top-app"), Some(s("0-7\n"))),
        (s("foreground"), Some(s("0-2,4-7"))),
        (s("background"), None),
    ];
    let mut snap = vec![(s("foreground"), s("0-7"))];
    let w = exclude_core_from_cpusets(2, &reads, &mut snap);
    assert_eq!(w, vec![(s("top-app"), s("0,1,3,4,5,6,7")), (s("foreground"), s("0,1,4,5,6,7"))]);
    assert_eq!(snap, vec![(s("foreground"), s("0-7")), (s("top-app"), s("0-7"))]);
}

#[test]
fn tracked_group_values() {
    let reads = vec![(s("top-app"), Some(s("0-7"))), (s("restricted"), Some(s(" ")))];
    let mut snap = Vec::new();
    let w = set_groups_cpus_tracked(&reads, "4-7", &mut snap);
    assert_eq!(w, vec![(s("top-app"), s("4-7"))]);
    assert_eq!(snap, vec![(s("top-app"), s("0-7"))]);
    let w = set_groups_cpus_tracked(&vec![(s("top-app"), Some(s("4-7")))], "0-7", &mut snap);
    assert_eq!(w, vec![(s("top-app"), s("0-7"))]);
    assert_eq!(snap, vec![(s("top-app"), s("0-7"))]);
}

#[test]
fn core_lists_of_layouts() {
    let r = chiri_core_ranges(None);
    assert_eq!(little_list(&r), "0-2");
    assert_eq!(little_pair_list(&r), "0-1");
    assert_eq!(big_list(&r), "3-6");
    assert_eq!(big_plus_prime_list(&r), "3-7");
    assert_eq!(all_cores_list(None, &r), "0-7");
    assert_eq!(all_cores_list(Some("0-5\n"), &r), "0-5");
    let r = chiri_core_ranges(Some("8998"));
    assert_eq!(big_plus_prime_list(&r), "4-7");
    assert_eq!(all_cores_list(Some(""), &r), "0-7");
}

#[test]
fn cluster_names_by_lowest_core() {
    let r = chiri_core_ranges(None);
    assert_eq!(core_name_for(&vec![5, 3, 4], &r), Some("big"));
    assert_eq!(core_name_for(&vec![7], &r), Some("prime"));
    assert_eq!(core_name_for(&vec![0, 1, 2], &r), Some("little"));
    assert_eq!(core_name_for(&vec![9], &r), None);
    assert_eq!(core_name_for(&vec![], &r), None);
}

#[test]
fn proc_file_parsers() {
    assert_eq!(cpuset_tasks_path("/"), "/dev/cpuset/tasks");
    assert_eq!(cpuset_tasks_path("/top-app"), "/dev/cpuset/top-app/tasks");
    assert_eq!(cpuset_tasks_path("foreground/"), "/dev/cpuset/foreground/tasks");
    assert_eq!(io_result_tag(Ok(())), "ok");
    assert_eq!(io_result_tag(Err(Some(3))), "e3");
    assert_eq!(io_result_tag(Err(None)), "e0");
    assert_eq!(read_cmdline("com.app\0--flag\0"), "com.app");
    assert_eq!(read_cmdline(""), "");
    assert_eq!(read_tgid("Name:\tx\nTgid:\t4321\nPid:\t4322\n"), Some(4321));
    assert_eq!(read_tgid("Tgid: x\nTgid: 5\n"), None);
    assert_eq!(read_tgid("Name: x\n"), None);
    assert_eq!(kernel_version("5.15.78-android13-8-g1\n"), Some((5, 15, 78)));
    assert_eq!(kernel_version("4.4+"), Some((4, 4, 0)));
    assert_eq!(kernel_version("android"), None);
    assert_eq!(kernel_version("6.1"), Some((6, 1, 0)));
    assert_eq!(kernel_version("6.1.x"), Some((6, 1, 0)));
    assert_eq!(self_cpuset_group("3:cpu:/\n2:cpuset,cpuacct: /top-app \n"), Some(s("/top-app")));
    assert_eq!(self_cpuset_group("bad line\n2:cpuset:/x\n"), None);
    assert_eq!(self_cpuset_group("1:cpu:/\n"), None);
}
