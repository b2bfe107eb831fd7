//! Process-wide facts of the daemon: SoC detection and core layout, the
//! runtime toggles, configuration paths, the embedded configuration files
//! and the checks applied to the user-editable meta.yaml.
use vstd::prelude::*;
use std::ops::Range;
use crate::text::{
    chars_contains, chars_ends_with, chars_eq, chars_eq_ignore_ascii_case, chars_starts_with,
    ascii_lowered, chars_to_string, contains_seq, ends_with, eq_ignore_ascii_case, push_all, str_to_chars,
    string_of, sub_chars, trim, trim_chars,
};

verus! {

// ---------------------------------------------------------------------------
// [soc_detect]
// ---------------------------------------------------------------------------

/// Unicode lower-casing of a string (`str::to_lowercase`), a function of the
/// string alone.
pub uninterp spec fn unicode_lowercase(s: Seq<char>) -> Seq<char>;

/// `str::to_lowercase`: the result is the Unicode lower-case mapping of the
/// argument (named by `unicode_lowercase`; Unicode's tables are not restated).
/// On ASCII text that mapping is ASCII lower-casing: Unicode lower-cases
/// exactly the letters `A`-`Z` of ASCII, each to its small letter.
#[verifier::external_body]
pub(crate) fn str_to_lowercase(s: &str) -> (r: String)
    ensures
        r@ == unicode_lowercase(s@),
        vstd::utf8::is_ascii_chars(s@) ==> r@ == ascii_lowered(s@),
{
    s.to_lowercase()
}

/// A hint matches when its lower-cased form is at least three bytes long
/// and occurs in the (already lower-cased) hardware identification text.
pub open spec fn hint_matches_spec(haystack: Seq<char>, hint: Seq<char>) -> bool {
    (vstd::utf8::encode_utf8(unicode_lowercase(hint)).len() as usize) >= 3 && contains_seq(
        haystack,
        unicode_lowercase(hint),
    )
}

/// Whether one processor hint occurs in the lower-cased hardware
/// identification text (`/sys/devices/soc0/*`, build properties and
/// `/proc/cpuinfo`, joined and lower-cased by the caller). Hints shorter
/// than three bytes never match.
pub fn hint_matches(haystack: &str, hint: &str) -> (r: bool)
    ensures
        r == hint_matches_spec(haystack@, hint@),
        vstd::utf8::is_ascii_chars(hint@) ==> r == ((hint@.len() as usize) >= 3 && contains_seq(
            haystack@,
            ascii_lowered(hint@),
        )),
{
    let hl = str_to_lowercase(hint);
    proof {
        if vstd::utf8::is_ascii_chars(hint@) {
            lemma_ascii_lowered_ascii(hint@);
            vstd::utf8::is_ascii_chars_encode_utf8(hl@);
        }
    }
    let hs = hl.as_str();
    if hs.len() < 3 {
        return false;
    }
    let h = str_to_chars(haystack);
    let p = str_to_chars(hs);
    chars_contains(h.as_slice(), p.as_slice())
}

/// ASCII lower-casing keeps a text ASCII and its length.
proof fn lemma_ascii_lowered_ascii(s: Seq<char>)
    requires
        vstd::utf8::is_ascii_chars(s),
    ensures
        vstd::utf8::is_ascii_chars(ascii_lowered(s)),
        ascii_lowered(s).len() == s.len(),
{
    assert forall|i: int| 0 <= i < ascii_lowered(s).len() implies '\0' <= #[trigger] ascii_lowered(s)[i]
        <= '\u{7f}' by {
        assert('\0' <= s[i] <= '\u{7f}');
    }
}

/// A processor hint made of digits is its own lower-cased form.
proof fn lemma_digit_hint(h: Seq<char>)
    requires
        forall|i: int| 0 <= i < h.len() ==> '0' <= #[trigger] h[i] <= '9',
    ensures
        vstd::utf8::is_ascii_chars(h),
        ascii_lowered(h) == h,
{
    assert(ascii_lowered(h) =~= h);
}

/// The first of the ChiRi processor hints ("8550", "8475", "8998", in this
/// order) that occurs in the (lower-cased) hardware identification text.
pub open spec fn matched_hint_spec(haystack: Seq<char>) -> Option<Seq<char>> {
    if contains_seq(haystack, "8550"@) {
        Some("8550"@)
    } else if contains_seq(haystack, "8475"@) {
        Some("8475"@)
    } else if contains_seq(haystack, "8998"@) {
        Some("8998"@)
    } else {
        None
    }
}

/// The ChiRi processor hint the device matches, hints tried in list order.
pub fn matched_soc_hint(haystack: &str) -> (r: Option<&'static str>)
    ensures
        match r {
            Some(h) => matched_hint_spec(haystack@) == Some(h@),
            None => matched_hint_spec(haystack@) is None,
        },
{
    proof {
        reveal_strlit("8550");
        reveal_strlit("8475");
        reveal_strlit("8998");
        lemma_digit_hint("8550"@);
        lemma_digit_hint("8475"@);
        lemma_digit_hint("8998"@);
    }
    if hint_matches(haystack, "8550") {
        Some("8550")
    } else if hint_matches(haystack, "8475") {
        Some("8475")
    } else if hint_matches(haystack, "8998") {
        Some("8998")
    } else {
        None
    }
}

/// The hardware identification sources joined with newlines.
pub open spec fn join_nl(parts: Seq<Seq<char>>) -> Seq<char>
    decreases parts.len(),
{
    if parts.len() == 0 {
        Seq::empty()
    } else if parts.len() == 1 {
        parts[0]
    } else {
        join_nl(parts.drop_last()).push('\n') + parts.last()
    }
}

/// The hardware identification text: the sources (SoC machine and platform
/// names, build properties, `/proc/cpuinfo`; unreadable ones empty) joined
/// with newlines and lower-cased.
pub fn soc_hint_haystack(sources: &Vec<String>) -> (r: String)
    ensures
        r@ == unicode_lowercase(join_nl(sources@.map_values(|s: String| s@))),
        vstd::utf8::is_ascii_chars(join_nl(sources@.map_values(|s: String| s@))) ==> r@ == ascii_lowered(
            join_nl(sources@.map_values(|s: String| s@)),
        ),
{
    let ghost gv = sources@.map_values(|s: String| s@);
    let mut out: Vec<char> = Vec::new();
    let mut i: usize = 0;
    while i < sources.len()
        invariant
            i <= sources.len(),
            gv == sources@.map_values(|s: String| s@),
            out@ == join_nl(gv.take(i as int)),
        decreases sources.len() - i,
    {
        proof {
            assert(gv.take(i + 1).drop_last() =~= gv.take(i as int));
            assert(gv[i as int] == sources@[i as int]@);
        }
        if i > 0 {
            out.push('\n');
        }
        push_all(&mut out, str_to_chars(sources[i].as_str()).as_slice());
        i += 1;
    }
    proof {
        assert(gv.take(sources.len() as int) =~= gv);
    }
    let joined = chars_to_string(out);
    str_to_lowercase(joined.as_str())
}

/// Whether any of `hints` matches the identification text.
pub fn soc_hint_matches(haystack: &str, hints: &Vec<&str>) -> (r: bool)
    ensures
        r == exists|k: int| 0 <= k < hints@.len() && hint_matches_spec(haystack@, #[trigger] hints@[k]@),
{
    let mut i: usize = 0;
    while i < hints.len()
        invariant
            i <= hints.len(),
            forall|k: int| 0 <= k < i ==> !hint_matches_spec(haystack@, #[trigger] hints@[k]@),
        decreases hints.len() - i,
    {
        if hint_matches(haystack, hints[i]) {
            return true;
        }
        i += 1;
    }
    false
}

/// The processor's own configuration directory, `config/{hint}` under the
/// module root, when a ChiRi processor hint matches.
pub fn matched_soc_config_dir(module_root: &str, haystack: &str) -> (r: Option<String>)
    ensures
        match r {
            Some(d) => matched_hint_spec(haystack@) matches Some(h) && d@ == path_join(
                path_join(module_root@, "config"@),
                h,
            ),
            None => matched_hint_spec(haystack@) is None,
        },
{
    match matched_soc_hint(haystack) {
        Some(h) => {
            let root = str_to_chars(module_root);
            let c = path_join_chars(root.as_slice(), str_to_chars("config").as_slice());
            let d = path_join_chars(c.as_slice(), str_to_chars(h).as_slice());
            Some(chars_to_string(d))
        },
        None => None,
    }
}

/// Whether the ChiRi scheduler applies: some processor hint matches.
pub fn is_chiri_soc(haystack: &str) -> (r: bool)
    ensures
        r == (matched_hint_spec(haystack@) is Some),
{
    matched_soc_hint(haystack).is_some()
}

// ---------------------------------------------------------------------------
// [core_ranges]
// ---------------------------------------------------------------------------

/// Core id ranges (half-open) of the little, big and prime groups.
pub struct CoreGroupRanges {
    pub little: Range<usize>,
    pub big: Range<usize>,
    /// Empty (`start == end`) on SoCs without a prime core.
    pub prime: Range<usize>,
}

/// Core layout per matched processor hint:
/// 8475: little 0-3, big 4-6, prime 7; 8998: little 0-3, big 4-7, no prime;
/// anything else (8550 and the fallback): little 0-2, big 3-6, prime 7.
pub open spec fn core_ranges_spec(hint: Option<Seq<char>>) -> (usize, usize, usize, usize, usize, usize) {
    if hint == Some("8475"@) {
        (0, 4, 4, 7, 7, 8)
    } else if hint == Some("8998"@) {
        (0, 4, 4, 8, 7, 7)
    } else {
        (0, 3, 3, 7, 7, 8)
    }
}

pub open spec fn ranges_tuple(r: CoreGroupRanges) -> (usize, usize, usize, usize, usize, usize) {
    (r.little.start, r.little.end, r.big.start, r.big.end, r.prime.start, r.prime.end)
}

/// Core group ranges of the matched processor (`hint` is the result of
/// `matched_soc_hint`).
pub fn chiri_core_ranges(hint: Option<&str>) -> (r: CoreGroupRanges)
    ensures
        ranges_tuple(r) == core_ranges_spec(
            match hint {
                Some(h) => Some(h@),
                None => None,
            },
        ),
{
    let (is_8475, is_8998) = match hint {
        Some(h) => (crate::text::str_eq(h, "8475"), crate::text::str_eq(h, "8998")),
        None => (false, false),
    };
    proof {
        reveal_strlit("8475");
        reveal_strlit("8998");
    }
    if is_8475 {
        CoreGroupRanges { little: 0..4, big: 4..7, prime: 7..8 }
    } else if is_8998 {
        CoreGroupRanges { little: 0..4, big: 4..8, prime: 7..7 }
    } else {
        CoreGroupRanges { little: 0..3, big: 3..7, prime: 7..8 }
    }
}

// ---------------------------------------------------------------------------
// [toggles]
// ---------------------------------------------------------------------------

/// The daemon's process-wide switches (read on hot paths, written on
/// configuration load and by the lab mode).
pub struct DaemonFlags {
    /// tuned_profiles.yaml merged successfully (default false)
    pub special_tuned_available: bool,
    /// meta.yaml `fas_enabled` (default true)
    pub fas_enabled: bool,
    /// meta.yaml `scenemode_enabled` (default true)
    pub scenemode_enabled: bool,
    /// meta.yaml `powerbase_enabled` (default false)
    pub powerbase_enabled: bool,
    /// lab override of the global mode (None = no override)
    pub lab_global_mode: Option<String>,
    /// lab switch that turns every special tuning off (default false)
    pub lab_special_tuned_disabled: bool,
    /// meta.yaml `nofix` as decided at start-up (default false)
    pub nofix: bool,
}

impl DaemonFlags {
    /// The start-up values of every switch.
    pub fn new() -> (r: Self)
        ensures
            !r.special_tuned_available,
            r.fas_enabled,
            r.scenemode_enabled,
            !r.powerbase_enabled,
            r.lab_global_mode is None,
            !r.lab_special_tuned_disabled,
            !r.nofix,
    {
        DaemonFlags {
            special_tuned_available: false,
            fas_enabled: true,
            scenemode_enabled: true,
            powerbase_enabled: false,
            lab_global_mode: None,
            lab_special_tuned_disabled: false,
            nofix: false,
        }
    }
}

/// Special tuning is available (tuned_profiles.yaml loaded).
pub fn is_special_tuned_available(flags: &DaemonFlags) -> (r: bool)
    ensures
        r == flags.special_tuned_available,
{
    flags.special_tuned_available
}

/// Records whether the special-tuning profiles loaded.
pub fn set_special_tuned_available(flags: &mut DaemonFlags, available: bool)
    ensures
        *final(flags) == (DaemonFlags { special_tuned_available: available, ..*old(flags) }),
{
    flags.special_tuned_available = available;
}

pub fn set_powerbase_enabled(flags: &mut DaemonFlags, enabled: bool)
    ensures
        *final(flags) == (DaemonFlags { powerbase_enabled: enabled, ..*old(flags) }),
{
    flags.powerbase_enabled = enabled;
}

pub fn powerbase_enabled(flags: &DaemonFlags) -> (r: bool)
    ensures
        r == flags.powerbase_enabled,
{
    flags.powerbase_enabled
}

pub fn set_fas_enabled(flags: &mut DaemonFlags, enabled: bool)
    ensures
        *final(flags) == (DaemonFlags { fas_enabled: enabled, ..*old(flags) }),
{
    flags.fas_enabled = enabled;
}

pub fn set_scenemode_enabled(flags: &mut DaemonFlags, enabled: bool)
    ensures
        *final(flags) == (DaemonFlags { scenemode_enabled: enabled, ..*old(flags) }),
{
    flags.scenemode_enabled = enabled;
}

pub fn fas_enabled(flags: &DaemonFlags) -> (r: bool)
    ensures
        r == flags.fas_enabled,
{
    flags.fas_enabled
}

pub fn scenemode_enabled(flags: &DaemonFlags) -> (r: bool)
    ensures
        r == flags.scenemode_enabled,
{
    flags.scenemode_enabled
}

/// The lab's global-mode override (None = none).
pub fn lab_global_mode(flags: &DaemonFlags) -> (r: Option<String>)
    ensures
        match (r, flags.lab_global_mode) {
            (Some(a), Some(b)) => a@ == b@,
            (None, None) => true,
            _ => false,
        },
{
    match &flags.lab_global_mode {
        Some(m) => Some(m.clone()),
        None => None,
    }
}

pub fn set_lab_global_mode(flags: &mut DaemonFlags, mode: Option<String>)
    ensures
        *final(flags) == (DaemonFlags { lab_global_mode: mode, ..*old(flags) }),
{
    flags.lab_global_mode = mode;
}

pub fn lab_special_tuned_disabled(flags: &DaemonFlags) -> (r: bool)
    ensures
        r == flags.lab_special_tuned_disabled,
{
    flags.lab_special_tuned_disabled
}

pub fn set_lab_special_tuned_disabled(flags: &mut DaemonFlags, disabled: bool)
    ensures
        *final(flags) == (DaemonFlags { lab_special_tuned_disabled: disabled, ..*old(flags) }),
{
    flags.lab_special_tuned_disabled = disabled;
}

/// Records the start-up `nofix` decision.
pub fn set_nofix(flags: &mut DaemonFlags, active: bool)
    ensures
        *final(flags) == (DaemonFlags { nofix: active, ..*old(flags) }),
{
    flags.nofix = active;
}

/// Whether overwriting external files from embedded content is skipped.
pub fn nofix_active(flags: &DaemonFlags) -> (r: bool)
    ensures
        r == flags.nofix,
{
    flags.nofix
}

/// What a setter writes, the matching getter reads back, and no other switch
/// changes.
pub proof fn law_flags_read_back(f: DaemonFlags, b: bool)
    ensures
        (DaemonFlags { fas_enabled: b, ..f }).fas_enabled == b,
        (DaemonFlags { scenemode_enabled: b, ..f }).scenemode_enabled == b,
        (DaemonFlags { powerbase_enabled: b, ..f }).powerbase_enabled == b,
        (DaemonFlags { special_tuned_available: b, ..f }).special_tuned_available == b,
        (DaemonFlags { lab_special_tuned_disabled: b, ..f }).lab_special_tuned_disabled == b,
        (DaemonFlags { nofix: b, ..f }).nofix == b,
        (DaemonFlags { fas_enabled: b, ..f }).scenemode_enabled == f.scenemode_enabled,
{
}

// ---------------------------------------------------------------------------
// [paths]
// ---------------------------------------------------------------------------

/// `Path::join` of a relative component onto a base: no separator is added
/// after an empty base or one that already ends in `/`.
pub open spec fn path_join(base: Seq<char>, comp: Seq<char>) -> Seq<char> {
    if base.len() == 0 {
        comp
    } else if base.last() == '/' {
        base + comp
    } else {
        base.push('/') + comp
    }
}

/// `base/comp`, with exactly one separator between them.
pub fn path_join_chars(base: &[char], comp: &[char]) -> (r: Vec<char>)
    ensures
        r@ == path_join(base@, comp@),
{
    let mut out: Vec<char> = Vec::new();
    push_all(&mut out, base);
    if base.len() > 0 && base[base.len() - 1] != '/' {
        out.push('/');
    }
    push_all(&mut out, comp);
    proof {
        if base.len() == 0 {
            assert(out@ =~= comp@);
        } else if base@.last() == '/' {
            assert(out@ =~= base@ + comp@);
        } else {
            assert(out@ =~= base@.push('/') + comp@);
        }
    }
    out
}

/// The meta.yaml to load: `config/{hint}/meta.yaml` under the module root
/// on a matched ChiRi SoC whose own file exists (`soc_meta_exists`),
/// `config/meta.yaml` otherwise.
pub fn get_config_path(module_root: &str, soc: Option<&str>, soc_meta_exists: bool) -> (r: String)
    ensures
        r@ == match soc {
            Some(h) => if soc_meta_exists {
                path_join(path_join(path_join(module_root@, "config"@), h@), "meta.yaml"@)
            } else {
                path_join(path_join(module_root@, "config"@), "meta.yaml"@)
            },
            None => path_join(path_join(module_root@, "config"@), "meta.yaml"@),
        },
{
    proof {
        reveal_strlit("config");
        reveal_strlit("meta.yaml");
    }
    let root = str_to_chars(module_root);
    let config = str_to_chars("config");
    let meta = str_to_chars("meta.yaml");
    let base = path_join_chars(root.as_slice(), config.as_slice());
    let dir = match soc {
        Some(h) => {
            if soc_meta_exists {
                let hc = str_to_chars(h);
                path_join_chars(base.as_slice(), hc.as_slice())
            } else {
                base
            }
        },
        None => base,
    };
    chars_to_string(path_join_chars(dir.as_slice(), meta.as_slice()))
}

// ---------------------------------------------------------------------------
// [embedded]
// ---------------------------------------------------------------------------

/// The configuration files built into the daemon, by path relative to the
/// configuration directory ("8550/meta.yaml", "normal/fas.yaml", ...).
pub struct EmbeddedConfig {
    pub files: Vec<(String, String)>,
}

/// Index of the first file stored under `rel`.
pub open spec fn file_index(files: Seq<(String, String)>, rel: Seq<char>) -> Option<int> {
    if exists|i: int| 0 <= i < files.len() && files[i].0@ == rel {
        Some(
            choose|i: int|
                0 <= i < files.len() && files[i].0@ == rel && forall|j: int|
                    0 <= j < i ==> files[j].0@ != rel,
        )
    } else {
        None
    }
}

/// Contents of the embedded file `rel`, if there is one.
pub open spec fn embedded_file(cfg: EmbeddedConfig, rel: Seq<char>) -> Option<Seq<char>> {
    match file_index(cfg.files@, rel) {
        Some(i) => Some(cfg.files@[i].1@),
        None => None,
    }
}

proof fn lemma_file_index_is(files: Seq<(String, String)>, rel: Seq<char>, i: int)
    requires
        0 <= i < files.len(),
        files[i].0@ == rel,
        forall|j: int| 0 <= j < i ==> files[j].0@ != rel,
    ensures
        file_index(files, rel) == Some(i),
{
    let k = choose|k: int|
        0 <= k < files.len() && files[k].0@ == rel && forall|j: int| 0 <= j < k ==> files[j].0@ != rel;
    if k < i {
        assert(files[k].0@ != rel);
    } else if k > i {
        assert(files[i].0@ != rel);
    }
}

/// The embedded file under `rel` (None when there is none).
pub fn embedded_config_file<'a>(cfg: &'a EmbeddedConfig, rel: &str) -> (r: Option<&'a str>)
    ensures
        match r {
            Some(t) => embedded_file(*cfg, rel@) == Some(t@),
            None => embedded_file(*cfg, rel@) is None,
        },
{
    let mut i: usize = 0;
    while i < cfg.files.len()
        invariant
            i <= cfg.files.len(),
            forall|j: int| 0 <= j < i ==> cfg.files@[j].0@ != rel@,
        decreases cfg.files.len() - i,
    {
        if crate::text::str_eq(cfg.files[i].0.as_str(), rel) {
            proof {
                lemma_file_index_is(cfg.files@, rel@, i as int);
            }
            return Some(cfg.files[i].1.as_str());
        }
        i += 1;
    }
    None
}

/// The text of an optional file, the empty text when it is missing.
pub open spec fn or_empty(t: Option<Seq<char>>) -> Seq<char> {
    match t {
        Some(x) => x,
        None => Seq::empty(),
    }
}

/// A per-SoC file `{soc}/{name}` when the SoC matched and it exists,
/// otherwise `{name}`, otherwise empty.
pub open spec fn soc_file_spec(cfg: EmbeddedConfig, soc: Option<Seq<char>>, name: Seq<char>) -> Seq<char> {
    match soc {
        Some(s) if embedded_file(cfg, s + seq!['/'] + name) is Some => embedded_file(
            cfg,
            s + seq!['/'] + name,
        )->0,
        _ => or_empty(embedded_file(cfg, name)),
    }
}

fn soc_file<'a>(cfg: &'a EmbeddedConfig, soc: Option<&str>, name: &str) -> (r: &'a str)
    ensures
        r@ == soc_file_spec(
            *cfg,
            match soc {
                Some(s) => Some(s@),
                None => None,
            },
            name@,
        ),
{
    if let Some(s) = soc {
        let mut p = str_to_chars(s);
        p.push('/');
        let n = str_to_chars(name);
        push_all(&mut p, n.as_slice());
        proof {
            assert(p@ =~= s@ + seq!['/'] + name@);
        }
        let ps = chars_to_string(p);
        if let Some(t) = embedded_config_file(cfg, ps.as_str()) {
            return t;
        }
    }
    proof {
        reveal_strlit("");
    }
    match embedded_config_file(cfg, name) {
        Some(t) => t,
        None => "",
    }
}

/// meta.yaml defaults: `{soc}/meta.yaml`, else `meta.yaml`, else empty.
pub fn embedded_meta_str<'a>(cfg: &'a EmbeddedConfig, soc: Option<&str>) -> (r: &'a str)
    ensures
        r@ == soc_file_spec(
            *cfg,
            match soc {
                Some(s) => Some(s@),
                None => None,
            },
            "meta.yaml"@,
        ),
{
    soc_file(cfg, soc, "meta.yaml")
}

/// feature.yaml tuning: `{soc}/feature.yaml`, else `feature.yaml`, else empty.
pub fn embedded_feature_str<'a>(cfg: &'a EmbeddedConfig, soc: Option<&str>) -> (r: &'a str)
    ensures
        r@ == soc_file_spec(
            *cfg,
            match soc {
                Some(s) => Some(s@),
                None => None,
            },
            "feature.yaml"@,
        ),
{
    soc_file(cfg, soc, "feature.yaml")
}

fn file_or_empty<'a>(cfg: &'a EmbeddedConfig, rel: &str) -> (r: &'a str)
    ensures
        r@ == or_empty(embedded_file(*cfg, rel@)),
{
    proof {
        reveal_strlit("");
    }
    match embedded_config_file(cfg, rel) {
        Some(t) => t,
        None => "",
    }
}

/// normal/tuned_profiles.yaml, empty when missing.
pub fn embedded_tuned_profiles_str<'a>(cfg: &'a EmbeddedConfig) -> (r: &'a str)
    ensures
        r@ == or_empty(embedded_file(*cfg, "normal/tuned_profiles.yaml"@)),
{
    file_or_empty(cfg, "normal/tuned_profiles.yaml")
}

/// rhine-init.yaml (lab modes), empty when missing.
pub fn embedded_rhine_init_str<'a>(cfg: &'a EmbeddedConfig) -> (r: &'a str)
    ensures
        r@ == or_empty(embedded_file(*cfg, "rhine-init.yaml"@)),
{
    file_or_empty(cfg, "rhine-init.yaml")
}

/// normal/scenemode.yaml, empty when missing.
pub fn embedded_scenemode_str<'a>(cfg: &'a EmbeddedConfig) -> (r: &'a str)
    ensures
        r@ == or_empty(embedded_file(*cfg, "normal/scenemode.yaml"@)),
{
    file_or_empty(cfg, "normal/scenemode.yaml")
}

/// rules.yaml, empty when missing.
pub fn embedded_rules_str<'a>(cfg: &'a EmbeddedConfig) -> (r: &'a str)
    ensures
        r@ == or_empty(embedded_file(*cfg, "rules.yaml"@)),
{
    file_or_empty(cfg, "rules.yaml")
}

/// Language pack: `i18n/zh.ftl` for "zh" in any ASCII case, `i18n/en.ftl`
/// for every other language; empty when missing.
pub fn embedded_ftl_str<'a>(cfg: &'a EmbeddedConfig, lang: &str) -> (r: &'a str)
    ensures
        r@ == or_empty(
            embedded_file(
                *cfg,
                if eq_ignore_ascii_case(lang@, "zh"@) {
                    "i18n/zh.ftl"@
                } else {
                    "i18n/en.ftl"@
                },
            ),
        ),
{
    let l = str_to_chars(lang);
    let zh = str_to_chars("zh");
    if chars_eq_ignore_ascii_case(l.as_slice(), zh.as_slice()) {
        file_or_empty(cfg, "i18n/zh.ftl")
    } else {
        file_or_empty(cfg, "i18n/en.ftl")
    }
}

/// Per-application FAS rules `normal/fas/{name}.yaml`.
pub fn embedded_fas_app_str<'a>(cfg: &'a EmbeddedConfig, name: &str) -> (r: Option<&'a str>)
    ensures
        match r {
            Some(t) => embedded_file(*cfg, "normal/fas/"@ + name@ + ".yaml"@) == Some(t@),
            None => embedded_file(*cfg, "normal/fas/"@ + name@ + ".yaml"@) is None,
        },
{
    let mut p = str_to_chars("normal/fas/");
    let n = str_to_chars(name);
    push_all(&mut p, n.as_slice());
    let y = str_to_chars(".yaml");
    push_all(&mut p, y.as_slice());
    let ps = chars_to_string(p);
    embedded_config_file(cfg, ps.as_str())
}

/// Whether a mode name is the frame-aware scheduling mode.
pub fn is_fas_mode(mode: &str) -> (r: bool)
    ensures
        r == (mode@ == "fas"@),
{
    crate::text::str_eq(mode, "fas")
}


/// The first line of a file, trimmed (empty for an empty file).
pub fn first_line_trimmed(text: &str) -> (r: String)
    ensures
        r@ == if crate::text::lines(text@).len() > 0 {
            trim(crate::text::lines(text@)[0])
        } else {
            Seq::<char>::empty()
        },
{
    let ls = crate::text::lines_chars(str_to_chars(text).as_slice());
    if ls.len() > 0 {
        chars_to_string(trim_chars(ls[0].as_slice()))
    } else {
        String::new()
    }
}

} // verus!
