//! Checks on the user-editable meta.yaml: value sanitising and the in-place
//! rewrite of top-level boolean switches.
use vstd::prelude::*;
use crate::text::{
    ascii_lower, chars_eq, chars_eq_ignore_ascii_case, chars_to_string, eq_ignore_ascii_case,
    is_ws, push_all, split, split_chars, str_to_chars, sub_chars, trim, trim_chars, trim_start,
    char_is_ws,
};

verus! {

// ---------------------------------------------------------------------------
// Value sanitising
// ---------------------------------------------------------------------------

/// `s` without one pair of matching surrounding quotes (`"` tried first,
/// then `'`).
pub open spec fn unquote_spec(s: Seq<char>) -> Seq<char> {
    if s.len() >= 2 && s[0] == '"' && s.last() == '"' {
        s.subrange(1, s.len() - 1)
    } else if s.len() >= 2 && s[0] == '\'' && s.last() == '\'' {
        s.subrange(1, s.len() - 1)
    } else {
        s
    }
}

/// Removes one pair of matching surrounding quotes.
pub fn unquote(s: &[char]) -> (r: Vec<char>)
    ensures
        r@ == unquote_spec(s@),
{
    let n = s.len();
    if n >= 2 && s[0] == '"' && s[n - 1] == '"' {
        sub_chars(s, 1, n - 1)
    } else if n >= 2 && s[0] == '\'' && s[n - 1] == '\'' {
        sub_chars(s, 1, n - 1)
    } else {
        sub_chars(s, 0, n)
    }
}

/// The log levels in the order they are tried.
pub open spec fn loglevel_names() -> Seq<Seq<char>> {
    seq!["OFF"@, "ERROR"@, "WARN"@, "INFO"@, "DEBUG"@, "TRACE"@]
}

/// The first log level equal to the unquoted, trimmed value, ignoring ASCII
/// case.
pub open spec fn sanitize_loglevel_spec(raw: Seq<char>) -> Option<Seq<char>> {
    let v = unquote_spec(trim(raw));
    if exists|i: int| 0 <= i < 6 && eq_ignore_ascii_case(loglevel_names()[i], v) {
        Some(
            loglevel_names()[choose|i: int|
                0 <= i < 6 && eq_ignore_ascii_case(loglevel_names()[i], v) && forall|j: int|
                    0 <= j < i ==> !eq_ignore_ascii_case(loglevel_names()[j], v)],
        )
    } else {
        None
    }
}

/// A log level accepted when the whole value names one of OFF, ERROR, WARN,
/// INFO, DEBUG, TRACE (quotes and ASCII case ignored); it is returned in
/// upper case.
pub fn sanitize_loglevel(raw: &str) -> (r: Option<String>)
    ensures
        match r {
            Some(l) => sanitize_loglevel_spec(raw@) == Some(l@),
            None => sanitize_loglevel_spec(raw@) is None,
        },
{
    let c = str_to_chars(raw);
    let t = trim_chars(c.as_slice());
    let v = unquote(t.as_slice());
    let names: Vec<&str> = vec!["OFF", "ERROR", "WARN", "INFO", "DEBUG", "TRACE"];
    proof {
        assert(names@.map_values(|s: &str| s@) =~= loglevel_names());
    }
    let mut i: usize = 0;
    while i < 6
        invariant
            i <= 6,
            names@.len() == 6,
            names@.map_values(|s: &str| s@) == loglevel_names(),
            v@ == unquote_spec(trim(raw@)),
            forall|j: int| 0 <= j < i ==> !eq_ignore_ascii_case(loglevel_names()[j], v@),
        decreases 6 - i,
    {
        let l = str_to_chars(names[i]);
        proof {
            assert(names@.map_values(|s: &str| s@)[i as int] == names@[i as int]@);
        }
        if chars_eq_ignore_ascii_case(l.as_slice(), v.as_slice()) {
            proof {
                let k = choose|k: int|
                    0 <= k < 6 && eq_ignore_ascii_case(loglevel_names()[k], v@) && forall|j: int|
                        0 <= j < k ==> !eq_ignore_ascii_case(loglevel_names()[j], v@);
                if k < i {
                } else if k > i {
                    assert(!eq_ignore_ascii_case(loglevel_names()[i as int], v@));
                }
            }
            return Some(chars_to_string(l));
        }
        i += 1;
    }
    None
}

/// A log language accepted when the unquoted, trimmed value is `zh` or `en`
/// in any ASCII case; it is returned in lower case.
pub open spec fn sanitize_language_spec(raw: Seq<char>) -> Option<Seq<char>> {
    let v = unquote_spec(trim(raw));
    if eq_ignore_ascii_case(v, "zh"@) {
        Some("zh"@)
    } else if eq_ignore_ascii_case(v, "en"@) {
        Some("en"@)
    } else {
        None
    }
}

/// The log language of a meta.yaml value: `en` or `zh` (quotes and case
/// ignored); anything else is invalid.
pub fn sanitize_language(raw: &str) -> (r: Option<String>)
    ensures
        match r {
            Some(l) => sanitize_language_spec(raw@) == Some(l@),
            None => sanitize_language_spec(raw@) is None,
        },
{
    let c = str_to_chars(raw);
    let t = trim_chars(c.as_slice());
    let v = unquote(t.as_slice());
    let zh = str_to_chars("zh");
    let en = str_to_chars("en");
    if chars_eq_ignore_ascii_case(v.as_slice(), zh.as_slice()) {
        Some(chars_to_string(zh))
    } else if chars_eq_ignore_ascii_case(v.as_slice(), en.as_slice()) {
        Some(chars_to_string(en))
    } else {
        None
    }
}

/// The string fields of an on-disk meta.yaml after checking: `None` when a
/// present name/author is blank or a present log level/language is not
/// accepted; otherwise the sanitised log level and language.
pub open spec fn meta_strings_spec(
    name: Option<Seq<char>>,
    author: Option<Seq<char>>,
    loglevel: Option<Seq<char>>,
    language: Option<Seq<char>>,
) -> Option<(Option<Seq<char>>, Option<Seq<char>>)> {
    if (name matches Some(n) && trim(n).len() == 0) || (author matches Some(a) && trim(a).len()
        == 0) {
        None
    } else if loglevel matches Some(l) && sanitize_loglevel_spec(l) is None {
        None
    } else if language matches Some(g) && sanitize_language_spec(g) is None {
        None
    } else {
        Some(
            (
                match loglevel {
                    Some(l) => sanitize_loglevel_spec(l),
                    None => None,
                },
                match language {
                    Some(g) => sanitize_language_spec(g),
                    None => None,
                },
            ),
        )
    }
}

pub open spec fn ostr(o: Option<&str>) -> Option<Seq<char>> {
    match o {
        Some(s) => Some(s@),
        None => None,
    }
}

pub open spec fn ostring(o: Option<String>) -> Option<Seq<char>> {
    match o {
        Some(s) => Some(s@),
        None => None,
    }
}

fn is_blank(s: &str) -> (r: bool)
    ensures
        r == (trim(s@).len() == 0),
{
    let c = str_to_chars(s);
    trim_chars(c.as_slice()).len() == 0
}

/// Checks the string fields of a parsed on-disk meta.yaml (the structural
/// part of `parse_disk_meta`; see `meta_strings_spec`).
pub fn check_meta_strings(
    name: Option<&str>,
    author: Option<&str>,
    loglevel: Option<&str>,
    language: Option<&str>,
) -> (r: Option<(Option<String>, Option<String>)>)
    ensures
        match (r, meta_strings_spec(ostr(name), ostr(author), ostr(loglevel), ostr(language))) {
            (Some((l, g)), Some((sl, sg))) => ostring(l) == sl && ostring(g) == sg,
            (None, None) => true,
            _ => false,
        },
{
    if let Some(n) = name {
        if is_blank(n) {
            return None;
        }
    }
    if let Some(a) = author {
        if is_blank(a) {
            return None;
        }
    }
    let l = match loglevel {
        Some(v) => match sanitize_loglevel(v) {
            Some(x) => Some(x),
            None => return None,
        },
        None => None,
    };
    let g = match language {
        Some(v) => match sanitize_language(v) {
            Some(x) => Some(x),
            None => return None,
        },
        None => None,
    };
    Some((l, g))
}

/// The `nofix` switch read before any self-healing: the value of a valid
/// meta.yaml that sets it; false when the file is missing or invalid
/// (`None`) or does not set it.
pub fn read_nofix_flag(parsed_nofix: Option<Option<bool>>) -> (r: bool)
    ensures
        r == (parsed_nofix == Some(Some(true))),
{
    match parsed_nofix {
        Some(Some(v)) => v,
        _ => false,
    }
}

// ---------------------------------------------------------------------------
// Top-level line replacement
// ---------------------------------------------------------------------------

/// The key of a top-level `key: value` line that counts for replacement:
/// not blank, not a comment or list item, not indented, with a colon; the
/// key (trimmed text before the first colon) is non-empty and holds no
/// whitespace and no `#`.
pub open spec fn top_level_key(line: Seq<char>) -> Option<Seq<char>> {
    let t = trim_start(line);
    if t.len() == 0 || t[0] == '#' || t[0] == '-' || line.len() != t.len() {
        None
    } else {
        match crate::text::first_index(t, ':') {
            None => None,
            Some(c) => {
                let key = trim(t.take(c));
                if key.len() == 0 || (exists|i: int| 0 <= i < key.len() && (is_ws(key[i]) || key[i]
                    == '#')) {
                    None
                } else {
                    Some(key)
                }
            },
        }
    }
}

/// ASCII lower-casing of a whole string.
pub open spec fn lower_seq(s: Seq<char>) -> Seq<char> {
    s.map_values(|c: char| ascii_lower(c))
}

/// Number of leading whitespace characters.
pub open spec fn leading_ws(s: Seq<char>) -> nat
    decreases s.len(),
{
    if s.len() > 0 && is_ws(s[0]) {
        1 + leading_ws(s.drop_first())
    } else {
        0
    }
}

/// A ` #` comment starts at `i`.
pub open spec fn comment_at(s: Seq<char>, i: int) -> bool {
    0 <= i && i + 1 < s.len() && s[i] == ' ' && s[i + 1] == '#'
}

/// First position of `" #"` in `s`.
pub open spec fn comment_index(s: Seq<char>) -> Option<int> {
    if exists|i: int| #[trigger] comment_at(s, i) {
        Some(choose|i: int| #[trigger] comment_at(s, i) && forall|j: int| 0 <= j < i ==> !comment_at(s, j))
    } else {
        None
    }
}

/// The rewritten line: key, colon, the original separator whitespace, the
/// new value and the original trailing ` #` comment.
pub open spec fn replaced_line(line: Seq<char>, key: Seq<char>, value: bool) -> Seq<char> {
    let c = crate::text::first_index(line, ':')->0;
    let rest = line.skip(c + 1);
    let sep = rest.take(leading_ws(rest) as int);
    let tail = rest.skip(leading_ws(rest) as int);
    let comment = match comment_index(tail) {
        Some(i) => tail.skip(i),
        None => Seq::empty(),
    };
    key + seq![':'] + sep + (if value {
        "true"@
    } else {
        "false"@
    }) + comment
}

/// The pieces joined with newlines.
pub open spec fn join_lines(ls: Seq<Seq<char>>) -> Seq<char>
    decreases ls.len(),
{
    if ls.len() == 0 {
        Seq::empty()
    } else if ls.len() == 1 {
        ls[0]
    } else {
        join_lines(ls.drop_last()).push('\n') + ls.last()
    }
}

pub open spec fn key_hits(line: Seq<char>, want: Seq<char>) -> bool {
    top_level_key(line) matches Some(k) && lower_seq(k) == want
}

/// The first line whose top-level key equals `field` ignoring ASCII case is
/// replaced (see `replaced_line`); `None` when no line has that key.
pub open spec fn replace_top_level_bool_spec(content: Seq<char>, field: Seq<char>, value: bool) -> Option<Seq<char>> {
    let ls = split(content, '\n');
    let want = lower_seq(field);
    if exists|i: int| 0 <= i < ls.len() && key_hits(ls[i], want) {
        let i = choose|i: int|
            0 <= i < ls.len() && key_hits(ls[i], want) && forall|j: int|
                0 <= j < i ==> !key_hits(ls[j], want);
        Some(join_lines(ls.update(i, replaced_line(ls[i], top_level_key(ls[i])->0, value))))
    } else {
        None
    }
}

fn lower_chars(s: &[char]) -> (r: Vec<char>)
    ensures
        r@ == lower_seq(s@),
{
    let mut out: Vec<char> = Vec::new();
    let mut i: usize = 0;
    while i < s.len()
        invariant
            i <= s.len(),
            out@ == lower_seq(s@.take(i as int)),
        decreases s.len() - i,
    {
        out.push(crate::text::to_ascii_lower(s[i]));
        i += 1;
        proof {
            assert(lower_seq(s@.take(i as int)) =~= lower_seq(s@.take(i - 1)).push(ascii_lower(s@[i - 1])));
        }
    }
    proof {
        assert(s@.take(s.len() as int) =~= s@);
    }
    out
}

proof fn lemma_trim_start_skip(s: Seq<char>, i: int)
    requires
        0 <= i <= s.len(),
        forall|j: int| 0 <= j < i ==> is_ws(s[j]),
        i == s.len() || !is_ws(s[i]),
    ensures
        trim_start(s) == s.skip(i),
    decreases i,
{
    if i > 0 {
        lemma_trim_start_skip(s.drop_first(), i - 1);
        assert(s.drop_first().skip(i - 1) =~= s.skip(i));
    } else {
        assert(s.skip(0) =~= s);
    }
}

proof fn lemma_leading_ws(s: Seq<char>, i: int)
    requires
        0 <= i <= s.len(),
        forall|j: int| 0 <= j < i ==> is_ws(s[j]),
        i == s.len() || !is_ws(s[i]),
    ensures
        leading_ws(s) == i,
    decreases i,
{
    if i > 0 {
        lemma_leading_ws(s.drop_first(), i - 1);
    }
}

/// The key of a top-level line (see `top_level_key`).
fn top_level_key_exec(line: &[char]) -> (r: Option<Vec<char>>)
    ensures
        match r {
            Some(k) => top_level_key(line@) == Some(k@) && trim_start(line@) == line@,
            None => top_level_key(line@) is None,
        },
{
    let mut i: usize = 0;
    while i < line.len() && char_is_ws(line[i])
        invariant
            i <= line.len(),
            forall|j: int| 0 <= j < i ==> is_ws(line@[j]),
        decreases line.len() - i,
    {
        i += 1;
    }
    proof {
        lemma_trim_start_skip(line@, i as int);
    }
    let t = sub_chars(line, i, line.len());
    proof {
        assert(t@ =~= line@.skip(i as int));
    }
    if t.len() == 0 || t[0] == '#' || t[0] == '-' || i != 0 {
        return None;
    }
    let c = match crate::text::find_char(t.as_slice(), ':') {
        Some(c) => c,
        None => return None,
    };
    let pre = sub_chars(t.as_slice(), 0, c);
    let key = trim_chars(pre.as_slice());
    proof {
        assert(pre@ =~= t@.take(c as int));
    }
    if key.len() == 0 {
        return None;
    }
    let mut j: usize = 0;
    let mut bad = false;
    while j < key.len()
        invariant
            j <= key.len(),
            bad == exists|m: int| 0 <= m < j && (is_ws(key@[m]) || key@[m] == '#'),
        decreases key.len() - j,
    {
        if char_is_ws(key[j]) || key[j] == '#' {
            bad = true;
        }
        j += 1;
    }
    if bad {
        return None;
    }
    proof {
        assert(line@.skip(0) =~= line@);
    }
    Some(key)
}

fn comment_index_exec(s: &[char]) -> (r: Option<usize>)
    ensures
        match r {
            Some(i) => i < s@.len() && comment_index(s@) == Some(i as int),
            None => comment_index(s@) is None,
        },
{
    let mut i: usize = 0;
    while s.len() > 0 && i < s.len() - 1
        invariant
            forall|j: int| 0 <= j < i ==> !comment_at(s@, j),
        decreases s.len() - i,
    {
        if s[i] == ' ' && s[i + 1] == '#' {
            proof {
                assert(comment_at(s@, i as int));
                let k = choose|k: int| #[trigger] comment_at(s@, k) && forall|j: int| 0 <= j < k ==> !comment_at(s@, j);
                if k < i {
                } else if k > i {
                    assert(!comment_at(s@, i as int));
                }
            }
            return Some(i);
        }
        i += 1;
    }
    proof {
        assert forall|j: int| !#[trigger] comment_at(s@, j) by {
            if 0 <= j < i {
            }
        }
    }
    None
}

fn replaced_line_exec(line: &[char], key: &[char], value: bool) -> (r: Vec<char>)
    requires
        crate::text::first_index(line@, ':') is Some,
    ensures
        r@ == replaced_line(line@, key@, value),
{
    let c = match crate::text::find_char(line, ':') {
        Some(c) => c,
        None => {
            proof {
                assert(false);
            }
            0
        },
    };
    assert(c < line.len());
    let rest = sub_chars(line, c + 1, line.len());
    proof {
        assert(rest@ =~= line@.skip(c + 1));
    }
    let mut w: usize = 0;
    while w < rest.len() && char_is_ws(rest[w])
        invariant
            w <= rest.len(),
            forall|j: int| 0 <= j < w ==> is_ws(rest@[j]),
        decreases rest.len() - w,
    {
        w += 1;
    }
    proof {
        lemma_leading_ws(rest@, w as int);
    }
    let sep = sub_chars(rest.as_slice(), 0, w);
    let tail = sub_chars(rest.as_slice(), w, rest.len());
    proof {
        assert(sep@ =~= rest@.take(w as int));
        assert(tail@ =~= rest@.skip(w as int));
    }
    let v = if value {
        str_to_chars("true")
    } else {
        str_to_chars("false")
    };
    let ghost vs: Seq<char> = if value {
        "true"@
    } else {
        "false"@
    };
    assert(v@ == vs);
    let mut out: Vec<char> = Vec::new();
    push_all(&mut out, key);
    out.push(':');
    assert(out@ =~= key@ + seq![':']);
    push_all(&mut out, sep.as_slice());
    push_all(&mut out, v.as_slice());
    let ghost head = key@ + seq![':'] + sep@ + vs;
    assert(out@ =~= head);
    let ghost comment = match comment_index(tail@) {
        Some(i) => tail@.skip(i),
        None => Seq::<char>::empty(),
    };
    match comment_index_exec(tail.as_slice()) {
        Some(i) => {
            let cm = sub_chars(tail.as_slice(), i, tail.len());
            assert(cm@ =~= tail@.skip(i as int));
            push_all(&mut out, cm.as_slice());
            assert(out@ == head + comment);
        },
        None => {
            assert(out@ =~= head + comment);
        },
    }
    out
}

fn join_lines_exec(ls: &Vec<Vec<char>>) -> (r: Vec<char>)
    ensures
        r@ == join_lines(ls@.map_values(|l: Vec<char>| l@)),
{
    let ghost gv = ls@.map_values(|l: Vec<char>| l@);
    let mut out: Vec<char> = Vec::new();
    let mut i: usize = 0;
    while i < ls.len()
        invariant
            i <= ls.len(),
            gv == ls@.map_values(|l: Vec<char>| l@),
            out@ == join_lines(gv.take(i as int)),
        decreases ls.len() - i,
    {
        proof {
            assert(gv.take(i + 1).drop_last() =~= gv.take(i as int));
            assert(gv[i as int] == ls@[i as int]@);
        }
        if i > 0 {
            out.push('\n');
        }
        push_all(&mut out, ls[i].as_slice());
        i += 1;
    }
    proof {
        assert(gv.take(ls.len() as int) =~= gv);
    }
    out
}

proof fn lemma_replace_spec(content: Seq<char>, field: Seq<char>, value: bool, i: int, key: Seq<char>)
    requires
        0 <= i < split(content, '\n').len(),
        top_level_key(split(content, '\n')[i]) == Some(key),
        lower_seq(key) == lower_seq(field),
        forall|j: int| 0 <= j < i ==> !key_hits(split(content, '\n')[j], lower_seq(field)),
        trim_start(split(content, '\n')[i]) == split(content, '\n')[i],
    ensures
        crate::text::first_index(split(content, '\n')[i], ':') is Some,
        replace_top_level_bool_spec(content, field, value) == Some(
            join_lines(
                split(content, '\n').update(i, replaced_line(split(content, '\n')[i], key, value)),
            ),
        ),
{
    let ls = split(content, '\n');
    let want = lower_seq(field);
    assert(key_hits(ls[i], want));
    let k = choose|k: int|
        0 <= k < ls.len() && key_hits(ls[k], want) && forall|j: int| 0 <= j < k ==> !key_hits(ls[j], want);
    if k < i {
    } else if k > i {
        assert(!key_hits(ls[i], want));
    }
    assert(k == i);
}

/// Replaces the value of the top-level switch `field` (ASCII case ignored)
/// in meta.yaml text, keeping the key's spelling, the separator and any
/// trailing ` #` comment; `None` when no top-level line has that key.
pub fn replace_top_level_bool(content: &str, field: &str, value: bool) -> (r: Option<String>)
    ensures
        match r {
            Some(t) => replace_top_level_bool_spec(content@, field@, value) == Some(t@),
            None => replace_top_level_bool_spec(content@, field@, value) is None,
        },
{
    let fc = str_to_chars(field);
    let want = lower_chars(fc.as_slice());
    let cc = str_to_chars(content);
    let mut ls = split_chars(cc.as_slice(), '\n');
    let ghost gl = split(content@, '\n');
    let mut i: usize = 0;
    while i < ls.len()
        invariant
            i <= ls.len(),
            gl == split(content@, '\n'),
            ls@.len() == gl.len(),
            want@ == lower_seq(field@),
            forall|k: int| 0 <= k < ls@.len() ==> #[trigger] ls@[k]@ == gl[k],
            forall|j: int| 0 <= j < i ==> !key_hits(gl[j], want@),
        decreases ls.len() - i,
    {
        match top_level_key_exec(ls[i].as_slice()) {
            Some(key) => {
                let lk = lower_chars(key.as_slice());
                if chars_eq(lk.as_slice(), want.as_slice()) {
                    proof {
                        assert(ls@[i as int]@ == gl[i as int]);
                        lemma_replace_spec(content@, field@, value, i as int, key@);
                    }
                    let nl = replaced_line_exec(ls[i].as_slice(), key.as_slice(), value);
                    let ghost old_ls = ls@;
                    ls.set(i, nl);
                    proof {
                        let target = gl.update(i as int, replaced_line(gl[i as int], key@, value));
                        let mv = ls@.map_values(|l: Vec<char>| l@);
                        assert forall|k: int| 0 <= k < ls@.len() implies #[trigger] mv[k]
                            == target[k] by {
                            if k != i {
                                assert(ls@[k] == old_ls[k]);
                            }
                        }
                        assert(mv =~= target);
                    }
                    let joined = join_lines_exec(&ls);
                    return Some(chars_to_string(joined));
                }
            },
            None => {},
        }
        i += 1;
    }
    None
}

/// What rewriting the meta.yaml switches comes to.
pub enum MetaRewrite {
    /// Nothing to change (no switch given, or the values are already set).
    Unchanged,
    /// Write this text back.
    Write(String),
    /// A requested switch has no top-level line: give up writing.
    MissingField,
}

/// Applies the requested switches in the order fas_enabled,
/// scenemode_enabled, thread_bind; gives up when one of them has no line.
pub open spec fn toggles_spec(text: Seq<char>, fields: Seq<(Seq<char>, Option<bool>)>) -> Option<Seq<char>>
    decreases fields.len(),
{
    if fields.len() == 0 {
        Some(text)
    } else {
        match toggles_spec(text, fields.drop_last()) {
            None => None,
            Some(t) => match fields.last().1 {
                None => Some(t),
                Some(v) => replace_top_level_bool_spec(t, fields.last().0, v),
            },
        }
    }
}

pub open spec fn toggle_fields(fas: Option<bool>, scenemode: Option<bool>, thread_bind: Option<bool>) -> Seq<(Seq<char>, Option<bool>)> {
    seq![("fas_enabled"@, fas), ("scenemode_enabled"@, scenemode), ("thread_bind"@, thread_bind)]
}

/// Decides the single write of `rewrite_meta_toggles`: the switches are
/// replaced in one pass over the text; an unchanged text is not written.
pub fn plan_meta_toggles(
    original: &str,
    fas: Option<bool>,
    scenemode: Option<bool>,
    thread_bind: Option<bool>,
) -> (r: MetaRewrite)
    ensures
        (fas is None && scenemode is None && thread_bind is None) ==> r is Unchanged,
        !(fas is None && scenemode is None && thread_bind is None) ==> match toggles_spec(
            original@,
            toggle_fields(fas, scenemode, thread_bind),
        ) {
            None => r is MissingField,
            Some(t) => if t == original@ {
                r is Unchanged
            } else {
                r matches MetaRewrite::Write(w) && w@ == t
            },
        },
{
    if fas.is_none() && scenemode.is_none() && thread_bind.is_none() {
        return MetaRewrite::Unchanged;
    }
    let ghost fields = toggle_fields(fas, scenemode, thread_bind);
    let mut text = chars_to_string(str_to_chars(original));
    proof {
        assert(fields.take(0) =~= Seq::<(Seq<char>, Option<bool>)>::empty());
    }
    let names: Vec<&str> = vec!["fas_enabled", "scenemode_enabled", "thread_bind"];
    let vals: Vec<Option<bool>> = vec![fas, scenemode, thread_bind];
    let mut k: usize = 0;
    while k < 3
        invariant
            k <= 3,
            names@.len() == 3,
            vals@.len() == 3,
            fields == toggle_fields(fas, scenemode, thread_bind),
            forall|j: int| 0 <= j < 3 ==> #[trigger] names@[j]@ == fields[j].0 && vals@[j] == fields[j].1,
            toggles_spec(original@, fields.take(k as int)) == Some(text@),
        decreases 3 - k,
    {
        proof {
            assert(fields.take(k + 1).drop_last() =~= fields.take(k as int));
            assert(fields.take(k + 1).last() == fields[k as int]);
            assert(names@[k as int]@ == fields[k as int].0 && vals@[k as int] == fields[k as int].1);
        }
        match vals[k] {
            None => {},
            Some(v) => {
                match replace_top_level_bool(text.as_str(), names[k], v) {
                    Some(next) => {
                        text = next;
                    },
                    None => {
                        proof {
                            assert(toggles_spec(original@, fields.take(k + 1)) is None);
                            assert(fields.take(3) =~= fields);
                            lemma_toggles_none_stays(original@, fields, k as int + 1);
                        }
                        return MetaRewrite::MissingField;
                    },
                }
            },
        }
        k += 1;
    }
    proof {
        assert(fields.take(3) =~= fields);
    }
    if str_eq_string(&text, original) {
        MetaRewrite::Unchanged
    } else {
        MetaRewrite::Write(text)
    }
}

proof fn lemma_toggles_none_stays(text: Seq<char>, fields: Seq<(Seq<char>, Option<bool>)>, k: int)
    requires
        0 <= k <= fields.len(),
        toggles_spec(text, fields.take(k)) is None,
    ensures
        toggles_spec(text, fields) is None,
    decreases fields.len() - k,
{
    if k < fields.len() {
        assert(fields.take(k + 1).drop_last() =~= fields.take(k));
        lemma_toggles_none_stays(text, fields, k + 1);
    } else {
        assert(fields.take(k) =~= fields);
    }
}

fn str_eq_string(a: &String, b: &str) -> (r: bool)
    ensures
        r == (a@ == b@),
{
    crate::text::str_eq(a.as_str(), b)
}


// ---------------------------------------------------------------------------
// Snapshot self-healing
// ---------------------------------------------------------------------------

/// The note appended when an invalid meta.yaml is replaced.
pub open spec fn invalid_meta_note() -> Seq<char> {
    "\n# 上一次修改存在非法字段，已恢复为默认值；详情见 logs/daemon.log\n"@
}

/// What the meta.yaml self-healing writes: nothing for a valid file; the
/// embedded defaults for a missing one; the defaults and a note for an
/// invalid one (`valid`: the disk file passed the checks).
pub fn meta_snapshot_text(disk: Option<&str>, valid: bool, embedded: &str) -> (r: Option<String>)
    ensures
        match disk {
            Some(_) => if valid {
                r is None
            } else {
                r matches Some(t) && t@ == embedded@ + invalid_meta_note()
            },
            None => r matches Some(t) && t@ == embedded@,
        },
{
    match disk {
        Some(_) => {
            if valid {
                None
            } else {
                let mut out = str_to_chars(embedded);
                push_all(&mut out, str_to_chars("\n# 上一次修改存在非法字段，已恢复为默认值；详情见 logs/daemon.log\n").as_slice());
                Some(chars_to_string(out))
            }
        },
        None => Some(chars_to_string(str_to_chars(embedded))),
    }
}

/// The rules.yaml copy is rewritten only when the disk copy is missing or
/// differs from the embedded one (an equal copy is left alone so the
/// watcher does not loop on its own write).
pub fn rules_snapshot_due(disk: Option<&str>, embedded: &str) -> (r: bool)
    ensures
        r == match disk {
            Some(d) => d@ != embedded@,
            None => true,
        },
{
    match disk {
        Some(d) => !crate::text::str_eq(d, embedded),
        None => true,
    }
}

} // verus!
