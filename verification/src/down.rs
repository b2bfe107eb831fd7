//! The scheduling stop switch: `down.chr` in the module root holds the
//! reserved word `down` while every scheduling feature is to stay off.
use vstd::prelude::*;
use crate::text::{
    eq_ignore_ascii_case, lines, lines_chars, str_to_chars, trim, trim_chars,
    chars_eq_ignore_ascii_case,
};

verus! {

pub open spec fn is_quote(c: char) -> bool {
    c == '"' || c == '\''
}

/// `s` without its leading quote characters.
pub open spec fn strip_quotes_start(s: Seq<char>) -> Seq<char>
    decreases s.len(),
{
    if s.len() > 0 && is_quote(s[0]) {
        strip_quotes_start(s.drop_first())
    } else {
        s
    }
}

/// `s` without its trailing quote characters.
pub open spec fn strip_quotes_end(s: Seq<char>) -> Seq<char>
    decreases s.len(),
{
    if s.len() > 0 && is_quote(s.last()) {
        strip_quotes_end(s.drop_last())
    } else {
        s
    }
}

/// `str::trim_matches` with the two quote characters.
pub open spec fn strip_quotes(s: Seq<char>) -> Seq<char> {
    strip_quotes_end(strip_quotes_start(s))
}

/// The first trimmed line that is neither blank nor a `#` comment.
pub open spec fn first_body_line(ls: Seq<Seq<char>>) -> Option<Seq<char>>
    decreases ls.len(),
{
    if ls.len() == 0 {
        None
    } else if trim(ls[0]).len() > 0 && trim(ls[0])[0] != '#' {
        Some(trim(ls[0]))
    } else {
        first_body_line(ls.drop_first())
    }
}

/// The file asks for the stop: its first body line, quotes stripped, is
/// `down` in any ASCII case. A missing or unreadable file (`None`) does not.
pub open spec fn down_requested(text: Option<Seq<char>>) -> bool {
    match text {
        None => false,
        Some(t) => match first_body_line(lines(t)) {
            Some(raw) => eq_ignore_ascii_case(strip_quotes(raw), "down"@),
            None => false,
        },
    }
}

proof fn lemma_strip_start_step(s: Seq<char>, i: int)
    requires
        0 <= i < s.len(),
        is_quote(s[i]),
    ensures
        strip_quotes_start(s.skip(i)) == strip_quotes_start(s.skip(i + 1)),
{
    assert(s.skip(i).drop_first() =~= s.skip(i + 1));
}

proof fn lemma_strip_end_step(s: Seq<char>, j: int)
    requires
        0 < j <= s.len(),
        is_quote(s[j - 1]),
    ensures
        strip_quotes_end(s.take(j)) == strip_quotes_end(s.take(j - 1)),
{
    assert(s.take(j).drop_last() =~= s.take(j - 1));
}

/// Removes leading and trailing quote characters.
pub fn strip_quotes_chars(s: &[char]) -> (r: Vec<char>)
    ensures
        r@ == strip_quotes(s@),
{
    let mut i: usize = 0;
    proof {
        assert(s@.skip(0) =~= s@);
    }
    while i < s.len() && (s[i] == '"' || s[i] == '\'')
        invariant
            i <= s.len(),
            strip_quotes_start(s@) == strip_quotes_start(s@.skip(i as int)),
        decreases s.len() - i,
    {
        proof {
            lemma_strip_start_step(s@, i as int);
        }
        i += 1;
    }
    let ghost t = s@.skip(i as int);
    let mut j: usize = s.len();
    proof {
        assert(t.take(j - i) =~= t);
    }
    while j > i && (s[j - 1] == '"' || s[j - 1] == '\'')
        invariant
            i <= j <= s.len(),
            t == s@.skip(i as int),
            strip_quotes_end(t) == strip_quotes_end(t.take(j - i)),
        decreases j,
    {
        proof {
            lemma_strip_end_step(t, (j - i) as int);
        }
        j -= 1;
    }
    let mut out: Vec<char> = Vec::new();
    let mut k: usize = i;
    while k < j
        invariant
            i <= k <= j <= s.len(),
            out@ == s@.subrange(i as int, k as int),
        decreases j - k,
    {
        out.push(s[k]);
        k += 1;
    }
    proof {
        assert(out@ =~= t.take(j - i));
    }
    out
}

/// Whether the text of `down.chr` (`None` when it could not be read) asks
/// for the scheduling stop.
pub fn down_from_text(text: Option<&str>) -> (r: bool)
    ensures
        r == down_requested(match text {
            Some(t) => Some(t@),
            None => None,
        }),
{
    let t = match text {
        Some(t) => t,
        None => return false,
    };
    let chars = str_to_chars(t);
    let ls = lines_chars(chars.as_slice());
    let ghost gl = lines(t@);
    let mut i: usize = 0;
    proof {
        assert(gl.skip(0) =~= gl);
    }
    while i < ls.len()
        invariant
            i <= ls.len(),
            text == Some(t),
            ls@.len() == gl.len(),
            gl == lines(t@),
            forall|k: int| 0 <= k < ls@.len() ==> #[trigger] ls@[k]@ == gl[k],
            first_body_line(gl) == first_body_line(gl.skip(i as int)),
        decreases ls.len() - i,
    {
        let line = trim_chars(ls[i].as_slice());
        proof {
            assert(ls@[i as int]@ == gl[i as int]);
            assert(gl.skip(i as int)[0] == gl[i as int]);
            assert(gl.skip(i as int).drop_first() =~= gl.skip(i + 1));
        }
        if line.len() > 0 && line[0] != '#' {
            proof {
                assert(first_body_line(gl.skip(i as int)) == Some(line@));
            }
            let raw = strip_quotes_chars(line.as_slice());
            let down = str_to_chars("down");
            return chars_eq_ignore_ascii_case(raw.as_slice(), down.as_slice());
        }
        i += 1;
    }
    proof {
        assert(gl.skip(i as int) =~= Seq::<Seq<char>>::empty());
    }
    false
}

/// The process-wide stop flag, read on every loop of the scheduler.
pub struct DownFlag {
    pub active: bool,
}

impl DownFlag {
    /// A flag that is not set.
    pub fn new() -> (r: DownFlag)
        ensures
            !r.active,
    {
        DownFlag { active: false }
    }
}

/// Whether scheduling is stopped.
pub fn is_down(flag: &DownFlag) -> (r: bool)
    ensures
        r == flag.active,
{
    flag.active
}

/// Reads the switch once at start-up (before the scheduler loop starts):
/// the flag becomes what the file asks for.
pub fn on_startup(flag: &mut DownFlag, text: Option<&str>) -> (r: bool)
    ensures
        r == down_requested(match text {
            Some(t) => Some(t@),
            None => None,
        }),
        final(flag).active == r,
{
    let v = down_from_text(text);
    flag.active = v;
    v
}

/// A change of `down.chr` seen by the watcher: the flag takes the new value;
/// the result tells whether it changed (the moment to log it).
pub fn on_change(flag: &mut DownFlag, text: Option<&str>) -> (changed: bool)
    ensures
        final(flag).active == down_requested(match text {
            Some(t) => Some(t@),
            None => None,
        }),
        changed == (final(flag).active != old(flag).active),
{
    let next = down_from_text(text);
    let prev = flag.active;
    flag.active = next;
    next != prev
}

} // verus!
