//! Built-in package lists: the special-tuning whitelist, the thread
//! affinity blacklist and the FAS whitelist. Entries are exact names or, with
//! a `re:` prefix, regular expressions.
use vstd::prelude::*;
use crate::common::DaemonFlags;
use crate::text::{
    chars_starts_with, chars_to_string, lines, lines_chars, split, split_chars, split_once,
    split_once_chars, starts_with, str_eq, str_to_chars, sub_chars, trim, trim_chars,
};

verus! {

// ---------------------------------------------------------------------------
// Regular expressions
// ---------------------------------------------------------------------------

/// Whether `regex::Regex::new` accepts the pattern (a function of the
/// pattern alone; the regex syntax is not restated).
pub uninterp spec fn regex_compiles(pattern: Seq<char>) -> bool;

/// Whether the compiled pattern matches somewhere in `text`
/// (`Regex::is_match`; a function of pattern and text alone).
pub uninterp spec fn regex_finds(pattern: Seq<char>, text: Seq<char>) -> bool;

/// `regex::Regex::new(pattern).is_ok()`.
#[verifier::external_body]
fn regex_valid(pattern: &str) -> (r: bool)
    ensures
        r == regex_compiles(pattern@),
{
    regex::Regex::new(pattern).is_ok()
}

/// Compiles `pattern` with `regex::Regex::new` and runs `Regex::is_match` on
/// `text`; a pattern that does not compile matches nothing. The pattern is
/// compiled on each call.
#[verifier::external_body]
fn regex_is_match(pattern: &str, text: &str) -> (r: bool)
    ensures
        r == (regex_compiles(pattern@) && regex_finds(pattern@, text@)),
{
    match regex::Regex::new(pattern) {
        Ok(re) => re.is_match(text),
        Err(_) => false,
    }
}

/// Whether an entry of `pattern` / optional regex matches `name`: a regex
/// entry by the expression, an exact entry by equality.
pub open spec fn name_matches(pattern: Seq<char>, regex: Option<Seq<char>>, name: Seq<char>) -> bool {
    match regex {
        Some(p) => regex_compiles(p) && regex_finds(p, name),
        None => pattern == name,
    }
}

pub open spec fn opt_view(o: Option<String>) -> Option<Seq<char>> {
    match o {
        Some(s) => Some(s@),
        None => None,
    }
}

/// A line's text after a `re:` prefix, and whether it had one.
pub open spec fn strip_re(line: Seq<char>) -> (bool, Seq<char>) {
    if starts_with(line, "re:"@) {
        (true, line.skip(3))
    } else {
        (false, line)
    }
}

fn strip_re_exec(line: &[char]) -> (r: (bool, Vec<char>))
    ensures
        r.0 == strip_re(line@).0,
        r.1@ == strip_re(line@).1,
{
    let pre = str_to_chars("re:");
    proof {
        reveal_strlit("re:");
    }
    if chars_starts_with(line, pre.as_slice()) {
        (true, sub_chars(line, 3, line.len()))
    } else {
        (false, sub_chars(line, 0, line.len()))
    }
}

/// A line that is blank or a `#` comment once trimmed.
pub open spec fn skipped_line(t: Seq<char>) -> bool {
    t.len() == 0 || t[0] == '#'
}

// ---------------------------------------------------------------------------
// [special_tuned]
// ---------------------------------------------------------------------------

/// A special-tuning whitelist entry.
pub struct SpecialTunedEntry {
    /// The matcher as written: an exact package name, or `re:` and a regex.
    pub package: String,
    /// The regular expression of a `re:` entry (None for exact entries).
    pub regex: Option<String>,
    /// The special modes the application may use.
    pub modes: Vec<String>,
    /// The mode used when the user configured none (one of `modes`).
    pub fallback: String,
}

pub open spec fn modes_view(m: Vec<String>) -> Seq<Seq<char>> {
    m@.map_values(|s: String| s@)
}

/// The pieces, trimmed, without the empty ones.
pub open spec fn nonempty_trimmed(parts: Seq<Seq<char>>) -> Seq<Seq<char>>
    decreases parts.len(),
{
    if parts.len() == 0 {
        Seq::empty()
    } else {
        let rest = nonempty_trimmed(parts.drop_last());
        if trim(parts.last()).len() == 0 {
            rest
        } else {
            rest.push(trim(parts.last()))
        }
    }
}

/// The entry one whitelist line gives (`matcher:modes:fallback`), if any:
/// blank and comment lines give none; so do lines without two colons after
/// the optional `re:` prefix, lines with no mode or no fallback, lines
/// whose fallback is not one of their modes, and regex lines whose
/// expression does not compile.
pub open spec fn tuned_line(raw: Seq<char>) -> Option<(Seq<char>, Option<Seq<char>>, Seq<Seq<char>>, Seq<char>)> {
    let line = trim(raw);
    if skipped_line(line) {
        None
    } else {
        let (is_re, body) = strip_re(line);
        match split_once(body, ':') {
            None => None,
            Some((pkg, rest)) => match split_once(rest, ':') {
                None => None,
                Some((ms, fb)) => {
                    let modes = nonempty_trimmed(split(ms, ','));
                    let fallback = trim(fb);
                    if modes.len() == 0 || fallback.len() == 0 || !modes.contains(fallback) {
                        None
                    } else if is_re {
                        if regex_compiles(pkg) {
                            Some(("re:"@ + pkg, Some(pkg), modes, fallback))
                        } else {
                            None
                        }
                    } else {
                        Some((pkg, None, modes, fallback))
                    }
                },
            },
        }
    }
}

/// The entries of the whitelist lines, in order.
pub open spec fn tuned_entries(ls: Seq<Seq<char>>) -> Seq<(Seq<char>, Option<Seq<char>>, Seq<Seq<char>>, Seq<char>)>
    decreases ls.len(),
{
    if ls.len() == 0 {
        Seq::empty()
    } else {
        let rest = tuned_entries(ls.drop_last());
        match tuned_line(ls.last()) {
            Some(e) => rest.push(e),
            None => rest,
        }
    }
}

pub open spec fn entry_view(e: SpecialTunedEntry) -> (Seq<char>, Option<Seq<char>>, Seq<Seq<char>>, Seq<char>) {
    (e.package@, opt_view(e.regex), modes_view(e.modes), e.fallback@)
}

fn nonempty_trimmed_exec(parts: &Vec<Vec<char>>, ghost_parts: Ghost<Seq<Seq<char>>>) -> (r: Vec<String>)
    requires
        parts@.len() == ghost_parts@.len(),
        forall|k: int| 0 <= k < parts@.len() ==> #[trigger] parts@[k]@ == ghost_parts@[k],
    ensures
        modes_view(r) == nonempty_trimmed(ghost_parts@),
{
    let mut out: Vec<String> = Vec::new();
    let mut k: usize = 0;
    while k < parts.len()
        invariant
            k <= parts.len(),
            parts@.len() == ghost_parts@.len(),
            forall|j: int| 0 <= j < parts@.len() ==> #[trigger] parts@[j]@ == ghost_parts@[j],
            modes_view(out) == nonempty_trimmed(ghost_parts@.take(k as int)),
        decreases parts.len() - k,
    {
        let t = trim_chars(parts[k].as_slice());
        proof {
            assert(ghost_parts@.take(k + 1).drop_last() =~= ghost_parts@.take(k as int));
        }
        if t.len() > 0 {
            let ghost before = out@;
            out.push(chars_to_string(t));
            proof {
                assert(modes_view(out) =~= modes_view_seq(before).push(trim(ghost_parts@[k as int])));
            }
        }
        k += 1;
    }
    proof {
        assert(ghost_parts@.take(parts.len() as int) =~= ghost_parts@);
    }
    out
}

pub open spec fn modes_view_seq(m: Seq<String>) -> Seq<Seq<char>> {
    m.map_values(|s: String| s@)
}

fn tuned_line_exec(raw: &[char]) -> (r: Option<SpecialTunedEntry>)
    ensures
        match r {
            Some(e) => tuned_line(raw@) == Some(entry_view(e)),
            None => tuned_line(raw@) is None,
        },
{
    let line = trim_chars(raw);
    if line.len() == 0 || line[0] == '#' {
        return None;
    }
    let (is_re, body) = strip_re_exec(line.as_slice());
    let (pkg, rest) = match split_once_chars(body.as_slice(), ':') {
        Some(x) => x,
        None => return None,
    };
    let (ms, fb) = match split_once_chars(rest.as_slice(), ':') {
        Some(x) => x,
        None => return None,
    };
    let pieces = split_chars(ms.as_slice(), ',');
    let modes = nonempty_trimmed_exec(&pieces, Ghost(split(ms@, ',')));
    let fallback = trim_chars(fb.as_slice());
    if modes.len() == 0 || fallback.len() == 0 {
        return None;
    }
    let fallback_s = chars_to_string(fallback);
    if !modes_contain(&modes, fallback_s.as_str()) {
        return None;
    }
    let pkg_s = chars_to_string(pkg);
    if is_re {
        if !regex_valid(pkg_s.as_str()) {
            return None;
        }
        let mut full = str_to_chars("re:");
        let pc = str_to_chars(pkg_s.as_str());
        crate::text::push_all(&mut full, pc.as_slice());
        Some(
            SpecialTunedEntry {
                package: chars_to_string(full),
                regex: Some(pkg_s),
                modes,
                fallback: fallback_s,
            },
        )
    } else {
        Some(SpecialTunedEntry { package: pkg_s, regex: None, modes, fallback: fallback_s })
    }
}

/// Parses the embedded whitelist: one `matcher:mode,mode,...:fallback` per
/// line, blank and `#` lines skipped, malformed lines, lines whose fallback
/// is not among their modes and regexes that do not compile skipped.
pub fn parse_special_tuned(text: &str) -> (r: Vec<SpecialTunedEntry>)
    ensures
        r@.len() == tuned_entries(lines(text@)).len(),
        forall|k: int| 0 <= k < r@.len() ==> entry_view(#[trigger] r@[k]) == tuned_entries(lines(text@))[k],
{
    let chars = str_to_chars(text);
    let ls = lines_chars(chars.as_slice());
    let ghost gl = lines(chars@);
    let mut out: Vec<SpecialTunedEntry> = Vec::new();
    let mut k: usize = 0;
    while k < ls.len()
        invariant
            k <= ls.len(),
            ls@.len() == gl.len(),
            forall|j: int| 0 <= j < ls@.len() ==> #[trigger] ls@[j]@ == gl[j],
            out@.len() == tuned_entries(gl.take(k as int)).len(),
            forall|j: int| 0 <= j < out@.len() ==> entry_view(#[trigger] out@[j]) == tuned_entries(gl.take(k as int))[j],
        decreases ls.len() - k,
    {
        proof {
            assert(gl.take(k + 1).drop_last() =~= gl.take(k as int));
        }
        match tuned_line_exec(ls[k].as_slice()) {
            Some(e) => {
                out.push(e);
            },
            None => {},
        }
        k += 1;
    }
    proof {
        assert(gl.take(ls.len() as int) =~= gl);
    }
    out
}

pub open spec fn entry_matches(e: SpecialTunedEntry, pkg: Seq<char>) -> bool {
    name_matches(e.package@, opt_view(e.regex), pkg)
}

pub open spec fn is_exact_for(e: SpecialTunedEntry, pkg: Seq<char>) -> bool {
    e.regex is None && e.package@ == pkg
}

/// First index whose entry satisfies `exact` (or, with `exact == false`,
/// whose entry matches).
pub open spec fn first_entry(list: Seq<SpecialTunedEntry>, pkg: Seq<char>, exact: bool) -> Option<int> {
    if exists|i: int|
        0 <= i < list.len() && (if exact {
            is_exact_for(list[i], pkg)
        } else {
            entry_matches(list[i], pkg)
        }) {
        Some(
            choose|i: int|
                0 <= i < list.len() && (if exact {
                    is_exact_for(list[i], pkg)
                } else {
                    entry_matches(list[i], pkg)
                }) && forall|j: int|
                    0 <= j < i ==> !(if exact {
                        is_exact_for(list[j], pkg)
                    } else {
                        entry_matches(list[j], pkg)
                    }),
        )
    } else {
        None
    }
}

/// The whitelist entry for a package: nothing while the lab has switched
/// special tuning off; otherwise the first exact entry for it, else the first
/// entry (exact or regex) that matches it.
pub open spec fn lookup_spec(disabled: bool, list: Seq<SpecialTunedEntry>, pkg: Seq<char>) -> Option<int> {
    if disabled {
        None
    } else {
        match first_entry(list, pkg, true) {
            Some(i) => Some(i),
            None => first_entry(list, pkg, false),
        }
    }
}

fn entry_matches_exec(e: &SpecialTunedEntry, pkg: &str) -> (r: bool)
    ensures
        r == entry_matches(*e, pkg@),
{
    match &e.regex {
        Some(re) => regex_is_match(re.as_str(), pkg),
        None => str_eq(e.package.as_str(), pkg),
    }
}

fn find_entry(list: &[SpecialTunedEntry], pkg: &str, exact: bool) -> (r: Option<usize>)
    ensures
        match r {
            Some(i) => i < list@.len() && first_entry(list@, pkg@, exact) == Some(i as int),
            None => first_entry(list@, pkg@, exact) is None,
        },
{
    let mut i: usize = 0;
    while i < list.len()
        invariant
            i <= list.len(),
            forall|j: int|
                0 <= j < i ==> !(if exact {
                    is_exact_for(list@[j], pkg@)
                } else {
                    entry_matches(list@[j], pkg@)
                }),
        decreases list.len() - i,
    {
        let hit = if exact {
            list[i].regex.is_none() && str_eq(list[i].package.as_str(), pkg)
        } else {
            entry_matches_exec(&list[i], pkg)
        };
        if hit {
            proof {
                let k = choose|k: int|
                    0 <= k < list@.len() && (if exact {
                        is_exact_for(list@[k], pkg@)
                    } else {
                        entry_matches(list@[k], pkg@)
                    }) && forall|j: int|
                        0 <= j < k ==> !(if exact {
                            is_exact_for(list@[j], pkg@)
                        } else {
                            entry_matches(list@[j], pkg@)
                        });
                if k < i {
                } else if k > i {
                    assert(!(if exact {
                        is_exact_for(list@[i as int], pkg@)
                    } else {
                        entry_matches(list@[i as int], pkg@)
                    }));
                }
            }
            return Some(i);
        }
        i += 1;
    }
    None
}

/// The whitelist entry of a package (see `lookup_spec`).
pub fn special_tuned_entry<'a>(
    flags: &DaemonFlags,
    list: &'a [SpecialTunedEntry],
    pkg: &str,
) -> (r: Option<&'a SpecialTunedEntry>)
    ensures
        match (r, lookup_spec(flags.lab_special_tuned_disabled, list@, pkg@)) {
            (Some(e), Some(k)) => 0 <= k < list@.len() && *e == list@[k],
            (None, None) => true,
            _ => false,
        },
{
    if flags.lab_special_tuned_disabled {
        return None;
    }
    match find_entry(list, pkg, true) {
        Some(i) => Some(&list[i]),
        None => match find_entry(list, pkg, false) {
            Some(i) => Some(&list[i]),
            None => None,
        },
    }
}

/// The fallback mode of the package's whitelist entry.
pub fn special_tuned_mode(flags: &DaemonFlags, list: &[SpecialTunedEntry], pkg: &str) -> (r: Option<String>)
    ensures
        match (r, lookup_spec(flags.lab_special_tuned_disabled, list@, pkg@)) {
            (Some(m), Some(k)) => 0 <= k < list@.len() && m@ == list@[k].fallback@,
            (None, None) => true,
            _ => false,
        },
{
    match special_tuned_entry(flags, list, pkg) {
        Some(e) => Some(e.fallback.clone()),
        None => None,
    }
}

fn modes_contain(modes: &Vec<String>, mode: &str) -> (r: bool)
    ensures
        r == modes_view(*modes).contains(mode@),
{
    let mut i: usize = 0;
    while i < modes.len()
        invariant
            i <= modes.len(),
            forall|j: int| 0 <= j < i ==> modes@[j]@ != mode@,
        decreases modes.len() - i,
    {
        if str_eq(modes[i].as_str(), mode) {
            proof {
                assert(modes_view(*modes)[i as int] == mode@);
            }
            return true;
        }
        i += 1;
    }
    proof {
        if modes_view(*modes).contains(mode@) {
            let j = choose|j: int| 0 <= j < modes_view(*modes).len() && modes_view(*modes)[j] == mode@;
            assert(modes@[j]@ == mode@);
        }
    }
    false
}

/// Whether `mode` is a special mode: listed by some whitelist entry, and the
/// lab has not switched special tuning off.
pub fn is_special_mode(flags: &DaemonFlags, list: &[SpecialTunedEntry], mode: &str) -> (r: bool)
    ensures
        r == (!flags.lab_special_tuned_disabled && exists|k: int|
            0 <= k < list@.len() && #[trigger] modes_view(list@[k].modes).contains(mode@)),
{
    if flags.lab_special_tuned_disabled {
        return false;
    }
    let mut i: usize = 0;
    while i < list.len()
        invariant
            !flags.lab_special_tuned_disabled,
            i <= list.len(),
            forall|j: int| 0 <= j < i ==> !#[trigger] modes_view(list@[j].modes).contains(mode@),
        decreases list.len() - i,
    {
        let e = &list[i];
        assert(*e == list@[i as int]);
        if modes_contain(&e.modes, mode) {
            proof {
                assert(modes_view(list@[i as int].modes).contains(mode@));
                assert(0 <= i < list@.len());
            }
            return true;
        }
        i += 1;
    }
    false
}

/// Every mode the whitelist lists, flattened in entry order.
pub open spec fn all_modes(list: Seq<SpecialTunedEntry>) -> Seq<Seq<char>>
    decreases list.len(),
{
    if list.len() == 0 {
        Seq::empty()
    } else {
        all_modes(list.drop_last()) + modes_view(list.last().modes)
    }
}

/// The first occurrence of each value, in order.
pub open spec fn dedup_first(s: Seq<Seq<char>>) -> Seq<Seq<char>>
    decreases s.len(),
{
    if s.len() == 0 {
        Seq::empty()
    } else {
        let rest = dedup_first(s.drop_last());
        if rest.contains(s.last()) {
            rest
        } else {
            rest.push(s.last())
        }
    }
}

fn push_distinct(out: &mut Vec<String>, m: &String)
    ensures
        modes_view(*final(out)) == if modes_view(*old(out)).contains(m@) {
            modes_view(*old(out))
        } else {
            modes_view(*old(out)).push(m@)
        },
{
    let found = modes_contain(out, m.as_str());
    if !found {
        let ghost before = modes_view(*out);
        out.push(m.clone());
        proof {
            assert(modes_view(*out) =~= before.push(m@));
        }
    }
}

/// The distinct special modes of the whitelist, in order of first listing.
pub fn special_tuned_mode_names(list: &[SpecialTunedEntry]) -> (r: Vec<String>)
    ensures
        modes_view(r) == dedup_first(all_modes(list@)),
{
    let mut out: Vec<String> = Vec::new();
    let mut i: usize = 0;
    while i < list.len()
        invariant
            i <= list.len(),
            modes_view(out) == dedup_first(all_modes(list@.take(i as int))),
        decreases list.len() - i,
    {
        let ms = &list[i].modes;
        let ghost base = all_modes(list@.take(i as int));
        let mut j: usize = 0;
        while j < ms.len()
            invariant
                i < list.len(),
                ms == list@[i as int].modes,
                j <= ms.len(),
                modes_view(out) == dedup_first(base + modes_view(*ms).take(j as int)),
            decreases ms.len() - j,
        {
            push_distinct(&mut out, &ms[j]);
            proof {
                let s2 = base + modes_view(*ms).take(j + 1);
                assert(s2.drop_last() =~= base + modes_view(*ms).take(j as int));
                assert(s2.last() == ms@[j as int]@);
            }
            j += 1;
        }
        proof {
            assert(list@.take(i + 1).drop_last() =~= list@.take(i as int));
            assert(modes_view(*ms).take(ms.len() as int) =~= modes_view(*ms));
        }
        i += 1;
    }
    proof {
        assert(list@.take(list.len() as int) =~= list@);
    }
    out
}

/// Whether the package may use the special mode: its whitelist entry lists
/// the mode.
pub fn is_special_mode_allowed(
    flags: &DaemonFlags,
    list: &[SpecialTunedEntry],
    pkg: &str,
    mode: &str,
) -> (r: bool)
    ensures
        r == match lookup_spec(flags.lab_special_tuned_disabled, list@, pkg@) {
            Some(k) => modes_view(list@[k].modes).contains(mode@),
            None => false,
        },
{
    match special_tuned_entry(flags, list, pkg) {
        Some(e) => modes_contain(&e.modes, mode),
        None => false,
    }
}

// ---------------------------------------------------------------------------
// [aff_blacklist]
// ---------------------------------------------------------------------------

/// A thread-affinity blacklist entry: an exact process name, or `re:` and a
/// regular expression.
pub struct AffinityBlacklistEntry {
    /// The line as written (with any `re:` prefix).
    pub pattern: String,
    /// The regular expression of a `re:` entry.
    pub regex: Option<String>,
}

/// The entry a blacklist line gives: none for blank/comment lines or a
/// regex that does not compile.
pub open spec fn blacklist_line(raw: Seq<char>) -> Option<(Seq<char>, Option<Seq<char>>)> {
    let line = trim(raw);
    if skipped_line(line) {
        None
    } else {
        let (is_re, pat) = strip_re(line);
        if is_re {
            if regex_compiles(pat) {
                Some((line, Some(pat)))
            } else {
                None
            }
        } else {
            Some((line, None))
        }
    }
}

pub open spec fn blacklist_entries(ls: Seq<Seq<char>>) -> Seq<(Seq<char>, Option<Seq<char>>)>
    decreases ls.len(),
{
    if ls.len() == 0 {
        Seq::empty()
    } else {
        let rest = blacklist_entries(ls.drop_last());
        match blacklist_line(ls.last()) {
            Some(e) => rest.push(e),
            None => rest,
        }
    }
}

pub open spec fn bl_view(e: AffinityBlacklistEntry) -> (Seq<char>, Option<Seq<char>>) {
    (e.pattern@, opt_view(e.regex))
}

/// Parses the embedded affinity blacklist (one entry per line).
pub fn parse_affinity_blacklist(text: &str) -> (r: Vec<AffinityBlacklistEntry>)
    ensures
        r@.len() == blacklist_entries(lines(text@)).len(),
        forall|k: int| 0 <= k < r@.len() ==> bl_view(#[trigger] r@[k]) == blacklist_entries(lines(text@))[k],
{
    let chars = str_to_chars(text);
    let ls = lines_chars(chars.as_slice());
    let ghost gl = lines(chars@);
    let mut out: Vec<AffinityBlacklistEntry> = Vec::new();
    let mut k: usize = 0;
    while k < ls.len()
        invariant
            k <= ls.len(),
            ls@.len() == gl.len(),
            forall|j: int| 0 <= j < ls@.len() ==> #[trigger] ls@[j]@ == gl[j],
            out@.len() == blacklist_entries(gl.take(k as int)).len(),
            forall|j: int| 0 <= j < out@.len() ==> bl_view(#[trigger] out@[j]) == blacklist_entries(gl.take(k as int))[j],
        decreases ls.len() - k,
    {
        proof {
            assert(gl.take(k + 1).drop_last() =~= gl.take(k as int));
        }
        let line = trim_chars(ls[k].as_slice());
        if !(line.len() == 0 || line[0] == '#') {
            let (is_re, pat) = strip_re_exec(line.as_slice());
            if is_re {
                let ps = chars_to_string(pat);
                if regex_valid(ps.as_str()) {
                    out.push(AffinityBlacklistEntry { pattern: chars_to_string(line), regex: Some(ps) });
                }
            } else {
                out.push(AffinityBlacklistEntry { pattern: chars_to_string(line), regex: None });
            }
        }
        k += 1;
    }
    proof {
        assert(gl.take(ls.len() as int) =~= gl);
    }
    out
}

/// Whether a process command line (or thread name) is blacklisted: an empty
/// name (kernel thread) and a name starting with `/` (native service) always
/// are; otherwise some entry must match it.
pub fn is_affinity_blacklisted(list: &[AffinityBlacklistEntry], cmdline: &str) -> (r: bool)
    ensures
        r == (cmdline@.len() == 0 || cmdline@[0] == '/' || exists|k: int|
            0 <= k < list@.len() && name_matches(
                #[trigger] list@[k].pattern@,
                opt_view(list@[k].regex),
                cmdline@,
            )),
{
    let c = str_to_chars(cmdline);
    if c.len() == 0 || c[0] == '/' {
        return true;
    }
    let mut i: usize = 0;
    while i < list.len()
        invariant
            i <= list.len(),
            forall|j: int|
                0 <= j < i ==> !name_matches(#[trigger] list@[j].pattern@, opt_view(list@[j].regex), cmdline@),
        decreases list.len() - i,
    {
        let hit = match &list[i].regex {
            Some(re) => regex_is_match(re.as_str(), cmdline),
            None => str_eq(list[i].pattern.as_str(), cmdline),
        };
        if hit {
            proof {
                assert(name_matches(list@[i as int].pattern@, opt_view(list@[i as int].regex), cmdline@));
            }
            return true;
        }
        i += 1;
    }
    false
}

// ---------------------------------------------------------------------------
// [fas_whitelist]
// ---------------------------------------------------------------------------

/// The FAS whitelist: exact package name to per-application configuration
/// name, each package once.
pub struct FasWhitelist {
    apps: Vec<(String, String)>,
}

/// The value a map built by inserting `pairs` in order holds for `key`:
/// the last pair's (a later insert replaces an earlier one).
pub open spec fn last_value(pairs: Seq<(Seq<char>, Seq<char>)>, key: Seq<char>) -> Option<Seq<char>>
    decreases pairs.len(),
{
    if pairs.len() == 0 {
        None
    } else if pairs.last().0 == key {
        Some(pairs.last().1)
    } else {
        last_value(pairs.drop_last(), key)
    }
}

pub open spec fn pairs_view(p: Seq<(String, String)>) -> Seq<(Seq<char>, Seq<char>)> {
    p.map_values(|e: (String, String)| (e.0@, e.1@))
}

/// No package occurs twice.
pub open spec fn distinct_keys(apps: Seq<(String, String)>) -> bool {
    forall|i: int, j: int| 0 <= i < j < apps.len() ==> apps[i].0@ != apps[j].0@
}

impl FasWhitelist {
    pub closed spec fn apps_view(&self) -> Seq<(String, String)> {
        self.apps@
    }

    /// Each package once.
    pub open spec fn wf(&self) -> bool {
        distinct_keys(self.apps_view())
    }

    /// The whitelist of the pairs inserted in order, as into a map: a
    /// package listed again takes the later configuration name.
    pub fn from_pairs(pairs: Vec<(String, String)>) -> (r: FasWhitelist)
        ensures
            r.wf(),
            forall|key: Seq<char>| #[trigger] fas_lookup(r.apps_view(), key) == last_value(pairs_view(pairs@), key),
            r.apps_view().len() <= pairs@.len(),
            (r.apps_view().len() == 0) == (pairs@.len() == 0),
    {
        let mut apps: Vec<(String, String)> = Vec::new();
        let ghost pv = pairs_view(pairs@);
        let mut i: usize = 0;
        while i < pairs.len()
            invariant
                i <= pairs.len(),
                pv == pairs_view(pairs@),
                distinct_keys(apps@),
                apps@.len() <= i,
                (apps@.len() == 0) == (i == 0),
                forall|key: Seq<char>| #[trigger] fas_lookup(apps@, key) == last_value(pv.take(i as int), key),
            decreases pairs.len() - i,
        {
            let k = chars_to_string(str_to_chars(pairs[i].0.as_str()));
            let v = chars_to_string(str_to_chars(pairs[i].1.as_str()));
            let ghost a0 = apps@;
            proof {
                assert(pv.take(i + 1).drop_last() =~= pv.take(i as int));
                assert(pv.take(i + 1).last() == (k@, v@));
            }
            let mut j: usize = 0;
            while j < apps.len() && !str_eq(apps[j].0.as_str(), k.as_str())
                invariant
                    j <= apps.len(),
                    apps@ == a0,
                    forall|q: int| 0 <= q < j ==> apps@[q].0@ != k@,
                decreases apps.len() - j,
            {
                j += 1;
            }
            if j < apps.len() {
                apps.set(j, (k, v));
                proof {
                    assert forall|key: Seq<char>| #[trigger] fas_lookup(apps@, key) == last_value(pv.take(i + 1), key) by {
                        lemma_lookup_index(apps@, key);
                        lemma_lookup_index(a0, key);
                        if key == k@ {
                            assert(apps@[j as int].0@ == key);
                        } else {
                            if exists|q: int| 0 <= q < a0.len() && a0[q].0@ == key {
                                let q = choose|q: int| 0 <= q < a0.len() && a0[q].0@ == key;
                                assert(apps@[q] == a0[q]);
                            }
                            if exists|q: int| 0 <= q < apps@.len() && apps@[q].0@ == key {
                                let q = choose|q: int| 0 <= q < apps@.len() && apps@[q].0@ == key;
                                assert(q != j);
                                assert(apps@[q] == a0[q]);
                            }
                        }
                    }
                }
            } else {
                apps.push((k, v));
                proof {
                    assert forall|key: Seq<char>| #[trigger] fas_lookup(apps@, key) == last_value(pv.take(i + 1), key) by {
                        lemma_lookup_index(apps@, key);
                        lemma_lookup_index(a0, key);
                        if key == k@ {
                            assert(apps@[a0.len() as int].0@ == key);
                        } else {
                            if exists|q: int| 0 <= q < a0.len() && a0[q].0@ == key {
                                let q = choose|q: int| 0 <= q < a0.len() && a0[q].0@ == key;
                                assert(apps@[q] == a0[q]);
                            }
                            if exists|q: int| 0 <= q < apps@.len() && apps@[q].0@ == key {
                                let q = choose|q: int| 0 <= q < apps@.len() && apps@[q].0@ == key;
                                assert(q != a0.len());
                                assert(apps@[q] == a0[q]);
                            }
                        }
                    }
                }
            }
            i += 1;
        }
        proof {
            assert(pv.take(pairs.len() as int) =~= pv);
        }
        FasWhitelist { apps }
    }

    pub fn len(&self) -> (r: usize)
        ensures
            r == self.apps_view().len(),
    {
        self.apps.len()
    }
}

/// With each key once, a lookup finds the key's only pair.
proof fn lemma_lookup_index(apps: Seq<(String, String)>, key: Seq<char>)
    requires
        distinct_keys(apps),
    ensures
        forall|q: int| 0 <= q < apps.len() && apps[q].0@ == key ==> fas_lookup(apps, key) == Some(apps[q].1@),
        !(exists|q: int| 0 <= q < apps.len() && apps[q].0@ == key) ==> fas_lookup(apps, key) is None,
{
    assert forall|q: int| 0 <= q < apps.len() && apps[q].0@ == key implies fas_lookup(apps, key) == Some(apps[q].1@) by {
        let c = choose|i: int|
            0 <= i < apps.len() && apps[i].0@ == key && forall|j: int| 0 <= j < i ==> apps[j].0@ != key;
        assert(exists|i: int| 0 <= i < apps.len() && apps[i].0@ == key && forall|j: int| 0 <= j < i ==> apps[j].0@ != key) by {
            assert(forall|j: int| 0 <= j < q ==> apps[j].0@ != key);
        }
        if c != q {
            if c < q {
                assert(apps[c].0@ != apps[q].0@);
            } else {
                assert(apps[q].0@ != apps[c].0@);
            }
        }
    }
}

/// The configuration name of the first whitelist pair for `pkg`.
pub open spec fn fas_lookup(apps: Seq<(String, String)>, pkg: Seq<char>) -> Option<Seq<char>> {
    if exists|i: int| 0 <= i < apps.len() && apps[i].0@ == pkg {
        Some(
            apps[choose|i: int|
                0 <= i < apps.len() && apps[i].0@ == pkg && forall|j: int|
                    0 <= j < i ==> apps[j].0@ != pkg].1@,
        )
    } else {
        None
    }
}

/// Exact lookup of a package in the FAS whitelist.
pub fn fas_whitelist_entry<'a>(wl: &'a FasWhitelist, pkg: &str) -> (r: Option<&'a String>)
    ensures
        match r {
            Some(n) => fas_lookup(wl.apps_view(), pkg@) == Some(n@),
            None => fas_lookup(wl.apps_view(), pkg@) is None,
        },
{
    let mut i: usize = 0;
    while i < wl.apps.len()
        invariant
            i <= wl.apps.len(),
            forall|j: int| 0 <= j < i ==> wl.apps@[j].0@ != pkg@,
        decreases wl.apps.len() - i,
    {
        if str_eq(wl.apps[i].0.as_str(), pkg) {
            proof {
                let k = choose|k: int|
                    0 <= k < wl.apps@.len() && wl.apps@[k].0@ == pkg@ && forall|j: int|
                        0 <= j < k ==> wl.apps@[j].0@ != pkg@;
                if k < i {
                } else if k > i {
                    assert(wl.apps@[i as int].0@ != pkg@);
                }
            }
            return Some(&wl.apps[i].1);
        }
        i += 1;
    }
    None
}

/// FAS is available when its switch is on, the whitelist is not empty and
/// at least one per-application configuration parsed (`parsed_configs` is
/// the number that did).
pub fn fas_available(flags: &DaemonFlags, wl: &FasWhitelist, parsed_configs: usize) -> (r: bool)
    ensures
        r == (flags.fas_enabled && wl.apps_view().len() > 0 && parsed_configs > 0),
{
    if !flags.fas_enabled {
        return false;
    }
    if wl.apps.len() == 0 {
        return false;
    }
    parsed_configs > 0
}

} // verus!
