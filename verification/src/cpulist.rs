//! cpuset-style CPU lists ("0-3,5"): parsing into core ids and bitmaps, and
//! formatting core ids back into a list.
use vstd::prelude::*;
use crate::text::{
    all_digits, chars_to_string, dec, dec_chars, first_index, is_digit, lemma_dec_digits, lemma_parse_dec,
    lemma_split_append, lemma_split_no_sep, lemma_trim_digits, push_all, parse_unsigned, parse_usize, split,
    split_chars, split_once, split_once_chars, str_to_chars, trim, trim_chars,
};

verus! {

/// Largest core id (exclusive) a range part of a cpu list may name.
pub const CPU_LIST_RANGE_LIMIT: usize = 1024;

/// Core ids `a..=b`.
pub open spec fn range_seq(a: nat, b: nat) -> Seq<usize> {
    Seq::new((b - a + 1) as nat, |k: int| (a + k) as usize)
}

/// Core ids one comma-separated part of a cpu list names: `a-b` with
/// `a <= b < 1024` names `a..=b`, a single number names itself, anything
/// else names nothing.
pub open spec fn part_cpus(raw: Seq<char>) -> Seq<usize> {
    let p = trim(raw);
    match split_once(p, '-') {
        Some((x, y)) => match (
            parse_unsigned(trim(x), usize::MAX as nat),
            parse_unsigned(trim(y), usize::MAX as nat),
        ) {
            (Some(a), Some(b)) => if a <= b && b < 1024 {
                range_seq(a, b)
            } else {
                Seq::empty()
            },
            _ => Seq::empty(),
        },
        None => match parse_unsigned(p, usize::MAX as nat) {
            Some(a) => seq![a as usize],
            None => Seq::empty(),
        },
    }
}

/// The core ids of the parts, in order.
pub open spec fn parts_cpus(parts: Seq<Seq<char>>) -> Seq<usize>
    decreases parts.len(),
{
    if parts.len() == 0 {
        Seq::empty()
    } else {
        parts_cpus(parts.drop_last()) + part_cpus(parts.last())
    }
}

/// The core ids a cpuset cpus value lists, in the order written.
pub open spec fn cpu_list(s: Seq<char>) -> Seq<usize> {
    parts_cpus(split(s, ','))
}

fn part_cpus_exec(raw: &[char]) -> (r: Vec<usize>)
    ensures
        r@ == part_cpus(raw@),
{
    let p = trim_chars(raw);
    match split_once_chars(p.as_slice(), '-') {
        Some((x, y)) => {
            let tx = trim_chars(x.as_slice());
            let ty = trim_chars(y.as_slice());
            match (parse_usize(tx.as_slice()), parse_usize(ty.as_slice())) {
                (Some(a), Some(b)) => {
                    let mut out: Vec<usize> = Vec::new();
                    if a <= b && b < CPU_LIST_RANGE_LIMIT {
                        let mut c: usize = a;
                        while c <= b
                            invariant
                                a <= c <= b + 1,
                                b < 1024,
                                out@ == range_seq(a as nat, b as nat).take(c - a),
                            decreases b + 1 - c,
                        {
                            out.push(c);
                            proof {
                                assert(out@ =~= range_seq(a as nat, b as nat).take(c + 1 - a));
                            }
                            c += 1;
                        }
                        proof {
                            assert(out@ =~= range_seq(a as nat, b as nat));
                        }
                    }
                    out
                },
                _ => Vec::new(),
            }
        },
        None => match parse_usize(p.as_slice()) {
            Some(a) => vec![a],
            None => Vec::new(),
        },
    }
}

/// Parses a cpuset cpus value ("0-3,5" gives [0, 1, 2, 3, 5]); ranges are
/// accepted only with `a <= b < 1024`, malformed parts are skipped.
pub fn parse_cpu_list(s: &str) -> (r: Vec<usize>)
    ensures
        r@ == cpu_list(s@),
{
    let chars = str_to_chars(s);
    let parts = split_chars(chars.as_slice(), ',');
    let ghost ps = split(chars@, ',');
    let mut out: Vec<usize> = Vec::new();
    let mut k: usize = 0;
    while k < parts.len()
        invariant
            k <= parts.len(),
            parts@.len() == ps.len(),
            forall|j: int| 0 <= j < parts@.len() ==> #[trigger] parts@[j]@ == ps[j],
            out@ == parts_cpus(ps.take(k as int)),
        decreases parts.len() - k,
    {
        let mut more = part_cpus_exec(parts[k].as_slice());
        proof {
            assert(ps.take(k + 1).drop_last() =~= ps.take(k as int));
        }
        out.append(&mut more);
        k += 1;
    }
    proof {
        assert(ps.take(parts.len() as int) =~= ps);
    }
    out
}

// ---------------------------------------------------------------------------
// Bitmaps
// ---------------------------------------------------------------------------

/// Whether one comma-separated part of a list marks core `c` in a bitmap of
/// `max_cpu` cores: `lo-hi` marks `lo..=min(hi, max_cpu - 1)`, a single
/// number below `max_cpu` marks itself.
pub open spec fn part_marks(raw: Seq<char>, c: int, max_cpu: nat) -> bool {
    let t = trim(raw);
    t.len() > 0 && match split_once(t, '-') {
        Some((x, y)) => match (
            parse_unsigned(trim(x), usize::MAX as nat),
            parse_unsigned(trim(y), usize::MAX as nat),
        ) {
            (Some(lo), Some(hi)) => lo <= c && c <= hi && c < max_cpu,
            _ => false,
        },
        None => match parse_unsigned(t, usize::MAX as nat) {
            Some(v) => v == c && c < max_cpu,
            None => false,
        },
    }
}

/// A part that is a range starting at core 0 (`0-hi`): it needs a bitmap
/// with at least one core.
pub open spec fn zero_range_part(raw: Seq<char>) -> bool {
    let t = trim(raw);
    t.len() > 0 && match split_once(t, '-') {
        Some((x, y)) => match (
            parse_unsigned(trim(x), usize::MAX as nat),
            parse_unsigned(trim(y), usize::MAX as nat),
        ) {
            (Some(lo), Some(hi)) => lo == 0,
            _ => false,
        },
        None => false,
    }
}

/// Core `c` is marked by some part of the list `s`.
pub open spec fn bitmap_marks(s: Seq<char>, c: int, max_cpu: nat) -> bool {
    exists|k: int| 0 <= k < split(s, ',').len() && part_marks(#[trigger] split(s, ',')[k], c, max_cpu)
}

fn mark_part(bits: &mut Vec<bool>, raw: &[char], max_cpu: usize)
    requires
        old(bits)@.len() == max_cpu,
        max_cpu > 0 || !zero_range_part(raw@),
    ensures
        final(bits)@.len() == max_cpu,
        forall|c: int|
            0 <= c < max_cpu ==> #[trigger] final(bits)@[c] == (old(bits)@[c] || part_marks(
                raw@,
                c,
                max_cpu as nat,
            )),
{
    let t = trim_chars(raw);
    if t.len() == 0 {
        return ;
    }
    match split_once_chars(t.as_slice(), '-') {
        Some((x, y)) => {
            let tx = trim_chars(x.as_slice());
            let ty = trim_chars(y.as_slice());
            match (parse_usize(tx.as_slice()), parse_usize(ty.as_slice())) {
                (Some(lo), Some(hi)) => {
                    if max_cpu == 0 {
                        return ;
                    }
                    let top = if hi < max_cpu - 1 {
                        hi
                    } else {
                        max_cpu - 1
                    };
                    let mut c: usize = lo;
                    while c <= top
                        invariant
                            bits@.len() == max_cpu,
                            top < max_cpu,
                            lo <= c,
                            c <= top + 1 || c == lo,
                            forall|d: int|
                                0 <= d < max_cpu ==> #[trigger] bits@[d] == (old(bits)@[d] || (lo
                                    <= d && d < c)),
                        decreases top + 1 - c,
                    {
                        bits.set(c, true);
                        c += 1;
                    }
                },
                _ => {},
            }
        },
        None => match parse_usize(t.as_slice()) {
            Some(v) => {
                if v < max_cpu {
                    bits.set(v, true);
                }
            },
            None => {},
        },
    }
}

/// Parses a cpuset-style list into a bitmap of `max_cpu` cores; entries at
/// or above `max_cpu` are ignored. An empty bitmap takes no range from 0.
pub fn parse_cpu_bitmap(s: &str, max_cpu: usize) -> (r: Vec<bool>)
    requires
        max_cpu > 0 || forall|k: int| 0 <= k < split(s@, ',').len() ==> !zero_range_part(
            #[trigger] split(s@, ',')[k],
        ),
    ensures
        r@.len() == max_cpu,
        forall|c: int| 0 <= c < max_cpu ==> #[trigger] r@[c] == bitmap_marks(s@, c, max_cpu as nat),
{
    let mut bits: Vec<bool> = Vec::new();
    let mut i: usize = 0;
    while i < max_cpu
        invariant
            i <= max_cpu,
            bits@.len() == i,
            forall|c: int| 0 <= c < i ==> !#[trigger] bits@[c],
        decreases max_cpu - i,
    {
        bits.push(false);
        i += 1;
    }
    let chars = str_to_chars(s);
    let parts = split_chars(chars.as_slice(), ',');
    let ghost ps = split(chars@, ',');
    let mut k: usize = 0;
    while k < parts.len()
        invariant
            max_cpu > 0 || forall|j: int| 0 <= j < ps.len() ==> !zero_range_part(#[trigger] ps[j]),
            k <= parts.len(),
            bits@.len() == max_cpu,
            parts@.len() == ps.len(),
            ps == split(s@, ','),
            forall|j: int| 0 <= j < parts@.len() ==> #[trigger] parts@[j]@ == ps[j],
            forall|c: int|
                0 <= c < max_cpu ==> #[trigger] bits@[c] == exists|j: int|
                    0 <= j < k && part_marks(#[trigger] ps[j], c, max_cpu as nat),
        decreases parts.len() - k,
    {
        mark_part(&mut bits, parts[k].as_slice(), max_cpu);
        k += 1;
        proof {
            assert forall|c: int| 0 <= c < max_cpu implies #[trigger] bits@[c] == exists|j: int|
                0 <= j < k && part_marks(#[trigger] ps[j], c, max_cpu as nat) by {
                if part_marks(ps[k - 1], c, max_cpu as nat) {
                    assert(exists|j: int| 0 <= j < k && part_marks(#[trigger] ps[j], c, max_cpu as nat));
                }
            }
        }
    }
    bits
}

/// Online-core bitmap from the text of `/sys/devices/system/cpu/online`:
/// an empty (or all-blank) text, or one that marks no core, counts as every
/// core online.
pub fn online_bitmap_from(text: &str, max_cpu: usize) -> (r: Vec<bool>)
    requires
        max_cpu > 0 || forall|k: int| 0 <= k < split(text@, ',').len() ==> !zero_range_part(
            #[trigger] split(text@, ',')[k],
        ),
    ensures
        r@.len() == max_cpu,
        (trim(text@).len() == 0 || forall|c: int| 0 <= c < max_cpu ==> !bitmap_marks(
            text@,
            c,
            max_cpu as nat,
        )) ==> forall|c: int| 0 <= c < max_cpu ==> #[trigger] r@[c],
        !(trim(text@).len() == 0 || forall|c: int| 0 <= c < max_cpu ==> !bitmap_marks(
            text@,
            c,
            max_cpu as nat,
        )) ==> forall|c: int| 0 <= c < max_cpu ==> #[trigger] r@[c] == bitmap_marks(
            text@,
            c,
            max_cpu as nat,
        ),
{
    let chars = str_to_chars(text);
    let t = trim_chars(chars.as_slice());
    if t.len() == 0 {
        return all_true(max_cpu);
    }
    let bits = parse_cpu_bitmap(text, max_cpu);
    let mut any = false;
    let mut i: usize = 0;
    while i < max_cpu
        invariant
            i <= max_cpu,
            bits@.len() == max_cpu,
            any == exists|c: int| 0 <= c < i && #[trigger] bits@[c],
        decreases max_cpu - i,
    {
        if bits[i] {
            any = true;
        }
        i += 1;
    }
    if !any {
        proof {
            assert forall|c: int| 0 <= c < max_cpu implies !bitmap_marks(text@, c, max_cpu as nat) by {
                assert(!bits@[c]);
            }
        }
        all_true(max_cpu)
    } else {
        bits
    }
}

fn all_true(n: usize) -> (r: Vec<bool>)
    ensures
        r@.len() == n,
        forall|c: int| 0 <= c < n ==> #[trigger] r@[c],
{
    let mut v: Vec<bool> = Vec::new();
    let mut i: usize = 0;
    while i < n
        invariant
            i <= n,
            v@.len() == i,
            forall|c: int| 0 <= c < i ==> #[trigger] v@[c],
        decreases n - i,
    {
        v.push(true);
        i += 1;
    }
    v
}


// ---------------------------------------------------------------------------
// Formatting
// ---------------------------------------------------------------------------

pub open spec fn strictly_increasing(s: Seq<usize>) -> bool {
    forall|i: int, j: int| 0 <= i < j < s.len() ==> s[i] < s[j]
}

pub open spec fn same_elements(a: Seq<usize>, b: Seq<usize>) -> bool {
    forall|x: usize| a.contains(x) <==> b.contains(x)
}

/// The distinct values of `ids` in increasing order.
pub open spec fn sorted_distinct(ids: Seq<usize>) -> Seq<usize> {
    choose|s: Seq<usize>| strictly_increasing(s) && same_elements(s, ids)
}

/// The decimal numbers of `s` joined by commas.
pub open spec fn join_dec(s: Seq<usize>) -> Seq<char>
    decreases s.len(),
{
    if s.len() == 0 {
        Seq::empty()
    } else if s.len() == 1 {
        dec(s[0] as nat)
    } else {
        join_dec(s.drop_last()).push(',') + dec(s.last() as nat)
    }
}

/// Two increasing sequences with the same elements are equal.
pub proof fn lemma_sorted_unique(a: Seq<usize>, b: Seq<usize>)
    requires
        strictly_increasing(a),
        strictly_increasing(b),
        same_elements(a, b),
    ensures
        a == b,
    decreases a.len(),
{
    if a.len() == 0 {
        if b.len() > 0 {
            assert(b.contains(b[0]));
        }
        assert(a =~= b);
    } else {
        assert(a.contains(a[0]));
        assert(b.len() > 0);
        assert(b.contains(b[0]));
        let k = choose|k: int| 0 <= k < b.len() && b[k] == a[0];
        let m = choose|m: int| 0 <= m < a.len() && a[m] == b[0];
        assert(a[0] == b[0]) by {
            if k > 0 {
                assert(b[0] < b[k]);
            }
            if m > 0 {
                assert(a[0] < a[m]);
            }
        }
        let a1 = a.drop_first();
        let b1 = b.drop_first();
        assert forall|x: usize| a1.contains(x) <==> b1.contains(x) by {
            if a1.contains(x) {
                let i = choose|i: int| 0 <= i < a1.len() && a1[i] == x;
                assert(a[i + 1] == x);
                assert(a.contains(x));
                assert(b.contains(x));
                let j = choose|j: int| 0 <= j < b.len() && b[j] == x;
                assert(a[0] < a[i + 1]);
                assert(j != 0);
                assert(b1[j - 1] == x);
            }
            if b1.contains(x) {
                let i = choose|i: int| 0 <= i < b1.len() && b1[i] == x;
                assert(b[i + 1] == x);
                assert(b.contains(x));
                assert(a.contains(x));
                let j = choose|j: int| 0 <= j < a.len() && a[j] == x;
                assert(b[0] < b[i + 1]);
                assert(j != 0);
                assert(a1[j - 1] == x);
            }
        }
        lemma_sorted_unique(a1, b1);
        assert(a =~= b) by {
            assert forall|i: int| 0 <= i < a.len() implies a[i] == b[i] by {
                if i > 0 {
                    assert(a[i] == a1[i - 1]);
                    assert(b[i] == b1[i - 1]);
                }
            }
        }
    }
}

/// The distinct values of `ids`, increasing (sort + dedup).
pub fn sort_dedup(ids: &Vec<usize>) -> (r: Vec<usize>)
    ensures
        r@ == sorted_distinct(ids@),
        strictly_increasing(r@),
        same_elements(r@, ids@),
{
    let mut out: Vec<usize> = Vec::new();
    let mut i: usize = 0;
    while i < ids.len()
        invariant
            i <= ids.len(),
            strictly_increasing(out@),
            forall|x: usize| out@.contains(x) <==> ids@.take(i as int).contains(x),
        decreases ids.len() - i,
    {
        let x = ids[i];
        let mut p: usize = 0;
        while p < out.len() && out[p] < x
            invariant
                p <= out.len(),
                forall|q: int| 0 <= q < p ==> out@[q] < x,
            decreases out.len() - p,
        {
            p += 1;
        }
        let ghost before = out@;
        if p < out.len() && out[p] == x {
        } else {
            out.insert(p, x);
            proof {
                assert forall|a: int, b: int| 0 <= a < b < out@.len() implies out@[a] < out@[b] by {
                    if a < p && b == p {
                    } else if a < p && b > p {
                        assert(out@[b] == before[b - 1]);
                        if b - 1 > p {
                            assert(before[p as int] < before[b - 1]);
                        }
                    } else if a == p && b > p {
                        assert(out@[b] == before[b - 1]);
                        if b - 1 > p {
                            assert(before[p as int] < before[b - 1]);
                        }
                    } else if a > p {
                        assert(out@[a] == before[a - 1]);
                        assert(out@[b] == before[b - 1]);
                    }
                }
            }
        }
        proof {
            let ghost prev = ids@.take(i as int);
            let ghost next = ids@.take(i + 1);
            assert(next =~= prev.push(x));
            assert forall|y: usize| next.contains(y) <==> (prev.contains(y) || y == x) by {
                if next.contains(y) && y != x {
                    let q = choose|q: int| 0 <= q < next.len() && next[q] == y;
                    assert(q < prev.len());
                    assert(prev[q] == y);
                }
                if prev.contains(y) {
                    let q = choose|q: int| 0 <= q < prev.len() && prev[q] == y;
                    assert(next[q] == y);
                }
                if y == x {
                    assert(next[prev.len() as int] == x);
                }
            }
            assert forall|y: usize| out@.contains(y) <==> ids@.take(i + 1).contains(y) by {
                if out@.contains(y) && y != x {
                    let q = choose|q: int| 0 <= q < out@.len() && out@[q] == y;
                    if p < before.len() && before[p as int] == x {
                        assert(before.contains(y));
                    } else {
                        if q < p {
                            assert(before[q] == y);
                        } else {
                            assert(q != p);
                            assert(before[q - 1] == y);
                        }
                        assert(before.contains(y));
                    }
                }
                if before.contains(y) {
                    let q = choose|q: int| 0 <= q < before.len() && before[q] == y;
                    if !(p < before.len() && before[p as int] == x) {
                        if q < p {
                            assert(out@[q] == y);
                        } else {
                            assert(out@[q + 1] == y);
                        }
                    }
                    assert(out@.contains(y));
                }
                if y == x {
                    if p < before.len() && before[p as int] == x {
                        assert(out@[p as int] == x);
                    } else {
                        assert(out@[p as int] == x);
                    }
                }
            }
        }
        i += 1;
    }
    proof {
        assert(ids@.take(ids.len() as int) =~= ids@);
        let s = sorted_distinct(ids@);
        assert(strictly_increasing(out@) && same_elements(out@, ids@));
        assert(strictly_increasing(s) && same_elements(s, ids@));
        assert(same_elements(out@, s));
        lemma_sorted_unique(out@, s);
    }
    out
}

/// Joins the decimal numbers with commas.
pub fn join_dec_exec(s: &Vec<usize>) -> (r: Vec<char>)
    ensures
        r@ == join_dec(s@),
{
    let mut out: Vec<char> = Vec::new();
    let mut i: usize = 0;
    while i < s.len()
        invariant
            i <= s.len(),
            out@ == join_dec(s@.take(i as int)),
        decreases s.len() - i,
    {
        proof {
            assert(s@.take(i + 1).drop_last() =~= s@.take(i as int));
        }
        if i > 0 {
            out.push(',');
        }
        let d = dec_chars(s[i] as u64);
        push_all(&mut out, d.as_slice());
        i += 1;
    }
    proof {
        assert(s@.take(s.len() as int) =~= s@);
    }
    out
}

/// Formats core ids as a cpuset cpus value: sorted, without duplicates,
/// comma-separated ("3,0,3,1" gives "0,1,3").
pub fn format_cpu_list(ids: Vec<usize>) -> (r: String)
    ensures
        r@ == join_dec(sorted_distinct(ids@)),
{
    let sd = sort_dedup(&ids);
    chars_to_string(join_dec_exec(&sd))
}

// ---------------------------------------------------------------------------
// Round trip
// ---------------------------------------------------------------------------

/// One number written in decimal reads back as that core.
proof fn lemma_part_dec(n: usize)
    ensures
        part_cpus(dec(n as nat)) == seq![n],
{
    let d = dec(n as nat);
    lemma_dec_digits(n as nat);
    lemma_trim_digits(d);
    assert(!exists|i: int| 0 <= i < d.len() && d[i] == '-') by {
        assert forall|i: int| 0 <= i < d.len() implies d[i] != '-' by {
            assert(is_digit(d[i]));
        }
    }
    assert(first_index(d, '-') is None);
    lemma_parse_dec(n as nat, usize::MAX as nat);
}

/// Decimal numbers contain no comma.
proof fn lemma_dec_no_comma(n: nat)
    ensures
        forall|i: int| 0 <= i < dec(n).len() ==> dec(n)[i] != ',',
{
    lemma_dec_digits(n);
    assert forall|i: int| 0 <= i < dec(n).len() implies dec(n)[i] != ',' by {
        assert(is_digit(dec(n)[i]));
    }
}

/// A list of cores written by `format_cpu_list`'s joining reads back as
/// the same cores in the same order: what the daemon writes to a cpuset
/// `cpus` node is what it reads from it.
pub proof fn law_cpu_list_round_trip(s: Seq<usize>)
    ensures
        cpu_list(join_dec(s)) == s,
    decreases s.len(),
{
    if s.len() == 0 {
        let e = Seq::<char>::empty();
        assert(join_dec(s) == e);
        lemma_split_no_sep(e, ',');
        assert(split(e, ',') == seq![e]);
        assert(seq![e].drop_last() =~= Seq::<Seq<char>>::empty());
        assert(trim(e) =~= e) by {
            lemma_trim_digits(e);
        }
        assert(first_index(e, '-') is None);
        assert(parse_unsigned(e, usize::MAX as nat) is None);
        assert(part_cpus(e) =~= Seq::<usize>::empty());
        assert(parts_cpus(Seq::<Seq<char>>::empty()) == Seq::<usize>::empty());
        assert(seq![e].last() == e);
        assert(parts_cpus(seq![e]) == parts_cpus(seq![e].drop_last()) + part_cpus(seq![e].last()));
        assert(cpu_list(join_dec(s)) =~= s);
    } else if s.len() == 1 {
        let d = dec(s[0] as nat);
        assert(join_dec(s) == d);
        lemma_dec_no_comma(s[0] as nat);
        lemma_split_no_sep(d, ',');
        assert(seq![d].drop_last() =~= Seq::<Seq<char>>::empty());
        lemma_part_dec(s[0]);
        assert(parts_cpus(Seq::<Seq<char>>::empty()) == Seq::<usize>::empty());
        assert(seq![d].last() == d);
        assert(parts_cpus(seq![d]) == parts_cpus(seq![d].drop_last()) + part_cpus(seq![d].last()));
        assert(cpu_list(join_dec(s)) =~= seq![s[0]]);
        assert(seq![s[0]] =~= s);
    } else {
        let front = s.drop_last();
        let d = dec(s.last() as nat);
        law_cpu_list_round_trip(front);
        lemma_dec_no_comma(s.last() as nat);
        lemma_split_append(join_dec(front), d, ',');
        assert(join_dec(s) == join_dec(front).push(',') + d);
        let ps = split(join_dec(front), ',');
        assert(split(join_dec(s), ',') == ps.push(d));
        assert(ps.push(d).drop_last() =~= ps);
        assert(ps.push(d).last() == d);
        lemma_part_dec(s.last());
        assert(cpu_list(join_dec(s)) == front + seq![s.last()]);
        assert(front + seq![s.last()] =~= s);
    }
}

/// Formatting a set of cores and parsing the text gives the cores back,
/// in increasing order and each once.
pub proof fn law_format_parse(ids: Seq<usize>)
    ensures
        cpu_list(join_dec(sorted_distinct(ids))) == sorted_distinct(ids),
{
    law_cpu_list_round_trip(sorted_distinct(ids));
}


/// A part of a cpu list marks the same cores as its whitespace-trimmed
/// form: a list read raw from sysfs (`"0-6\n"`) marks what `"0-6"` marks.
pub proof fn law_part_marks_ignores_whitespace(raw: Seq<char>, c: int, max_cpu: nat)
    ensures
        part_marks(raw, c, max_cpu) == part_marks(trim(raw), c, max_cpu),
{
    crate::text::lemma_trim_idempotent(raw);
}

/// A text with no whitespace at either end is its own trimmed form.
proof fn lemma_trim_fixed(s: Seq<char>)
    requires
        s.len() > 0,
        !crate::text::is_ws(s[0]),
        !crate::text::is_ws(s.last()),
    ensures
        trim(s) == s,
{
    assert(crate::text::trim_start(s) == s);
    assert(crate::text::trim_end(s) == s);
}

/// The range `lo-hi` marks exactly the cores from `lo` to `hi` (both
/// included) that fit in the bitmap.
pub proof fn law_range_marks(lo: usize, hi: usize, c: int, max_cpu: nat)
    ensures
        part_marks(dec(lo as nat) + "-"@ + dec(hi as nat), c, max_cpu) == (lo <= c && c <= hi && c < max_cpu),
{
    reveal_strlit("-");
    let a = dec(lo as nat);
    let b = dec(hi as nat);
    let t = a + "-"@ + b;
    lemma_dec_digits(lo as nat);
    lemma_dec_digits(hi as nat);
    assert(is_digit(a[0]));
    assert(is_digit(b[b.len() - 1]));
    assert(t[0] == a[0]);
    assert(t.last() == b[b.len() - 1]);
    lemma_trim_fixed(t);
    assert(t[a.len() as int] == '-');
    assert forall|j: int| 0 <= j < a.len() implies t[j] != '-' by {
        assert(t[j] == a[j]);
        assert(is_digit(a[j]));
    }
    crate::text::lemma_first_index_is(t, '-', a.len() as int);
    assert(t.take(a.len() as int) =~= a);
    assert(t.skip(a.len() as int + 1) =~= b);
    lemma_trim_digits(a);
    lemma_trim_digits(b);
    lemma_parse_dec(lo as nat, usize::MAX as nat);
    lemma_parse_dec(hi as nat, usize::MAX as nat);
}

/// A single number marks exactly that core, when it fits in the bitmap.
pub proof fn law_single_marks(n: usize, c: int, max_cpu: nat)
    ensures
        part_marks(dec(n as nat), c, max_cpu) == (c == n && c < max_cpu),
{
    let d = dec(n as nat);
    lemma_dec_digits(n as nat);
    lemma_trim_digits(d);
    assert forall|j: int| 0 <= j < d.len() implies d[j] != '-' by {
        assert(is_digit(d[j]));
    }
    assert(first_index(d, '-') is None);
    lemma_parse_dec(n as nat, usize::MAX as nat);
}

} // verus!
