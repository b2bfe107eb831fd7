//! Node paths under sysfs and the writes the daemon hands to its I/O layer.
use vstd::prelude::*;
use crate::text::{chars_to_string, dec_int, dec_int_chars, push_all, str_to_chars};

verus! {

/// One value to be written to one node, in the order planned.
pub struct NodeWrite {
    pub path: String,
    pub value: String,
}

/// A planned write as a pair of character sequences.
pub open spec fn write_view(w: NodeWrite) -> (Seq<char>, Seq<char>) {
    (w.path@, w.value@)
}

/// A list of planned writes as pairs of character sequences.
pub open spec fn writes_view(ws: Seq<NodeWrite>) -> Seq<(Seq<char>, Seq<char>)> {
    ws.map_values(|w: NodeWrite| write_view(w))
}

/// `/sys/devices/system/cpu/cpufreq/policy{id}/{node}`.
pub open spec fn policy_path(id: int, node: Seq<char>) -> Seq<char> {
    "/sys/devices/system/cpu/cpufreq/policy"@ + dec_int(id) + seq!['/'] + node
}

/// The path of a node of a cpufreq policy.
pub fn policy_node(id: i32, node: &str) -> (r: String)
    ensures
        r@ == policy_path(id as int, node@),
{
    let mut out = str_to_chars("/sys/devices/system/cpu/cpufreq/policy");
    let d = dec_int_chars(id as i64);
    push_all(&mut out, d.as_slice());
    out.push('/');
    let n = str_to_chars(node);
    push_all(&mut out, n.as_slice());
    proof {
        assert(out@ =~= policy_path(id as int, node@));
    }
    chars_to_string(out)
}

/// A write of `value` to `path`.
pub fn node_write(path: String, value: &str) -> (r: NodeWrite)
    ensures
        r.path@ == path@,
        r.value@ == value@,
{
    NodeWrite { path, value: chars_to_string(str_to_chars(value)) }
}


/// Appends copies of `ws` to `out`.
pub fn append_writes(out: &mut Vec<NodeWrite>, ws: &Vec<NodeWrite>)
    ensures
        writes_view(final(out)@) == writes_view(old(out)@) + writes_view(ws@),
{
    let ghost before = writes_view(out@);
    let mut i: usize = 0;
    while i < ws.len()
        invariant
            i <= ws.len(),
            writes_view(out@) == before + writes_view(ws@.take(i as int)),
        decreases ws.len() - i,
    {
        let x = NodeWrite {
            path: chars_to_string(str_to_chars(ws[i].path.as_str())),
            value: chars_to_string(str_to_chars(ws[i].value.as_str())),
        };
        let ghost prev = out@;
        out.push(x);
        proof {
            assert(writes_view(out@) =~= writes_view(prev).push((ws@[i as int].path@, ws@[i as int].value@)));
            assert(writes_view(ws@.take(i + 1)) =~= writes_view(ws@.take(i as int)).push(
                (ws@[i as int].path@, ws@[i as int].value@),
            ));
            assert(writes_view(out@) =~= before + writes_view(ws@.take(i + 1)));
        }
        i += 1;
    }
    proof {
        assert(ws@.take(ws.len() as int) =~= ws@);
    }
}

} // verus!
