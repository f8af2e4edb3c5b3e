//! Process-tree termination: from a snapshot of the host process table,
//! compute the order in which a tree rooted at one process id is signalled —
//! every transitive descendant exactly once, children strictly before their
//! parent, the root last — and send the signals.

use vstd::prelude::*;

verus! {

/// A snapshot row: a process id and its parent's id, when it has one.
pub type ProcEntry = (u32, Option<u32>);

/// Process ids are unique within a snapshot.
pub open spec fn pids_distinct(t: Seq<ProcEntry>) -> bool {
    forall|p: int, q: int| 0 <= p < q < t.len() ==> t[p].0 != t[q].0
}

/// Row `k` of the table links child `p` to parent `par`.
pub open spec fn edge(t: Seq<ProcEntry>, k: int, p: u32, par: u32) -> bool {
    &&& 0 <= k < t.len()
    &&& t[k].0 == p
    &&& t[k].1 == Some(par)
}

/// Element `j` of `c` has a table parent standing somewhere before it in `c`.
pub open spec fn parent_earlier(t: Seq<ProcEntry>, c: Seq<u32>, j: int) -> bool {
    exists|k: int, par: u32, i: int| edge(t, k, c[j], par) && 0 <= i < j && c[i] == par
}

/// Element `j` of `r` has a table parent standing somewhere after it in `r`.
pub open spec fn parent_later(t: Seq<ProcEntry>, r: Seq<u32>, j: int) -> bool {
    exists|k: int, par: u32, i: int| edge(t, k, r[j], par) && j < i < r.len() && r[i] == par
}

/// The collection invariant: the list starts at the root, never repeats a
/// pid, and every later element's parent stands somewhere before it.
pub open spec fn collected_inv(t: Seq<ProcEntry>, c: Seq<u32>, root: u32) -> bool {
    &&& c.len() >= 1
    &&& c[0] == root
    &&& (forall|p: int, q: int| 0 <= p < q < c.len() ==> c[p] != c[q])
    &&& (forall|j: int| 1 <= j < c.len() ==> #[trigger] parent_earlier(t, c, j))
}

/// A duplicate-free collection over a duplicate-free table cannot outgrow
/// the table by more than the root.
proof fn lemma_collected_len_bound(t: Seq<ProcEntry>, c: Seq<u32>, root: u32)
    requires
        pids_distinct(t),
        collected_inv(t, c, root),
    ensures
        c.len() <= t.len() + 1,
{
    broadcast use vstd::seq_lib::seq_to_set_is_finite;
    broadcast use vstd::set::group_set_axioms;

    let pid_seq = t.map_values(|e: ProcEntry| e.0);
    let pid_set = pid_seq.to_set();
    c.unique_seq_to_set();
    assert forall|j: int| 1 <= j < c.len() implies pid_set.contains(c[j]) by {
        assert(parent_earlier(t, c, j));
        let (k, par, i): (int, u32, int) = choose|k: int, par: u32, i: int|
            edge(t, k, c[j], par) && 0 <= i < j && c[i] == par;
        assert(pid_seq[k] == c[j]);
        assert(pid_seq.contains(c[j]));
    }
    assert(c.to_set().subset_of(pid_set.insert(root))) by {
        assert forall|x: u32| c.to_set().contains(x) implies pid_set.insert(root).contains(x) by {
            let j = choose|j: int| 0 <= j < c.len() && c[j] == x;
            if j == 0 {
            } else {
                assert(pid_set.contains(c[j]));
            }
        }
    }
    pid_seq.lemma_cardinality_of_set();
    vstd::set_lib::lemma_len_subset(c.to_set(), pid_set.insert(root));
    assert(pid_set.insert(root).len() <= pid_set.len() + 1);
}

/// Whether `x` occurs in `v`.
fn vec_contains(v: &Vec<u32>, x: u32) -> (r: bool)
    ensures
        r == v@.contains(x),
{
    let n = v.len();
    let mut i: usize = 0;
    while i < n
        invariant
            n == v@.len(),
            forall|j: int| 0 <= j < i ==> v@[j] != x,
        decreases n - i,
    {
        if v[i] == x {
            return true;
        }
        i = i + 1;
    }
    false
}

/// The order in which the tree rooted at `root` is signalled, computed from
/// a process-table snapshot: every pid whose parent chain reaches `root` is
/// present exactly once, each child comes strictly before its parent, and
/// `root` itself comes last.
#[verifier::loop_isolation(false)]
pub fn kill_order(table: &Vec<ProcEntry>, root: u32) -> (r: Vec<u32>)
    requires
        pids_distinct(table@),
    ensures
        r@.len() >= 1,
        r@[r@.len() - 1] == root,
        forall|p: int, q: int| 0 <= p < q < r@.len() ==> r@[p] != r@[q],
        // Complete: a child whose parent is signalled is signalled too.
        forall|k: int, p: u32, par: u32|
            edge(table@, k, p, par) && r@.contains(par) ==> r@.contains(p),
        // Sound: every signalled pid except the root has its parent
        // signalled after it.
        forall|j: int| 0 <= j < r@.len() - 1 ==> #[trigger] parent_later(table@, r@, j),
        // Ordered: a child is signalled strictly before its parent.
        forall|k: int, p: u32, par: u32, jp: int, jq: int|
            edge(table@, k, p, par) && p != root && 0 <= jp < r@.len() && r@[jp] == p && 0 <= jq
                < r@.len() && r@[jq] == par ==> jp < jq,
{
    let ghost t = table@;
    let n = table.len();
    let mut collected: Vec<u32> = Vec::new();
    collected.push(root);
    proof {
        assert(collected_inv(t, collected@, root));
        lemma_collected_len_bound(t, collected@, root);
    }
    let mut changed = true;
    while changed
        invariant
            collected_inv(t, collected@, root),
            collected@.len() <= n + 1,
            !changed ==> forall|k2: int, p: u32, par: u32|
                edge(t, k2, p, par) && collected@.contains(par) ==> collected@.contains(p),
        decreases n + 1 - collected@.len(), (if changed { 1int } else { 0int }),
    {
        let ghost c_start = collected@;
        changed = false;
        let mut k: usize = 0;
        while k < n
            invariant
                collected_inv(t, collected@, root),
                collected@.len() <= n + 1,
                !changed ==> collected@ == c_start,
                changed ==> collected@.len() > c_start.len(),
                !changed ==> forall|k2: int, p: u32, par: u32|
                    0 <= k2 < k && edge(t, k2, p, par) && collected@.contains(par)
                        ==> collected@.contains(p),
            decreases n - k,
        {
            let entry = table[k];
            if let Some(par) = entry.1 {
                let has_parent = vec_contains(&collected, par);
                let already = vec_contains(&collected, entry.0);
                if has_parent && !already {
                    let ghost c_old = collected@;
                    collected.push(entry.0);
                    changed = true;
                    proof {
                        let j = c_old.len() as int;
                        assert(forall|p: int|
                            0 <= p < c_old.len() ==> collected@[p] == c_old[p]);
                        assert(collected@[j] == entry.0);
                        assert(forall|p: int| 0 <= p < c_old.len() ==> c_old[p] != entry.0);
                        let i = choose|i: int| 0 <= i < c_old.len() && c_old[i] == par;
                        assert(collected@[i] == par);
                        assert(edge(t, k as int, collected@[j], par));
                        assert forall|j2: int|
                            1 <= j2 < collected@.len() implies #[trigger] parent_earlier(
                            t,
                            collected@,
                            j2,
                        ) by {
                            if j2 < j {
                                assert(collected@[j2] == c_old[j2]);
                                assert(parent_earlier(t, c_old, j2));
                                let (k3, par3, i3): (int, u32, int) = choose|
                                    k3: int,
                                    par3: u32,
                                    i3: int,
                                |
                                    edge(t, k3, c_old[j2], par3) && 0 <= i3 < j2 && c_old[i3]
                                        == par3;
                                assert(edge(t, k3, collected@[j2], par3) && 0 <= i3 < j2
                                    && collected@[i3] == par3);
                            } else {
                                assert(edge(t, k as int, collected@[j2], par) && 0 <= i < j2
                                    && collected@[i] == par);
                            }
                        }
                        assert(collected_inv(t, collected@, root));
                        lemma_collected_len_bound(t, collected@, root);
                    }
                }
            }
            k = k + 1;
        }
    }
    // Reverse the collection order: children were found after their parents,
    // so the reversal signals children first and the root last.
    let m = collected.len();
    let mut order: Vec<u32> = Vec::new();
    let mut i = m;
    while i > 0
        invariant
            i <= m,
            order@.len() == m - i,
            forall|j: int| 0 <= j < order@.len() ==> order@[j] == collected@[m - 1 - j],
        decreases i,
    {
        i = i - 1;
        order.push(collected[i]);
    }
    proof {
        let c = collected@;
        let r = order@;
        assert(r.len() == c.len());
        assert(forall|j: int| 0 <= j < r.len() ==> r[j] == c[c.len() - 1 - j]);
        assert(r[r.len() - 1] == c[0]);
        // Membership carries over between the two orders.
        assert forall|x: u32| r.contains(x) implies c.contains(x) by {
            let j = choose|j: int| 0 <= j < r.len() && r[j] == x;
            assert(c[c.len() - 1 - j] == x);
        }
        assert forall|x: u32| c.contains(x) implies r.contains(x) by {
            let j = choose|j: int| 0 <= j < c.len() && c[j] == x;
            assert(r[c.len() - 1 - j] == x);
        }
        // Soundness in the reversed order.
        assert forall|j: int| 0 <= j < r.len() - 1 implies #[trigger] parent_later(t, r, j) by {
            let jc = r.len() - 1 - j;
            assert(r[j] == c[jc]);
            assert(parent_earlier(t, c, jc));
            let (k3, par3, i3): (int, u32, int) = choose|k3: int, par3: u32, i3: int|
                edge(t, k3, c[jc], par3) && 0 <= i3 < jc && c[i3] == par3;
            let ir = r.len() - 1 - i3;
            assert(r[ir] == c[i3]);
            assert(edge(t, k3, r[j], par3) && j < ir < r.len() && r[ir] == par3);
        }
        // Ordering: a child precedes its parent.
        assert forall|k: int, p: u32, par: u32, jp: int, jq: int|
            edge(t, k, p, par) && p != root && 0 <= jp < r.len() && r[jp] == p && 0 <= jq < r.len()
                && r[jq] == par implies jp < jq by {
            assert(r[r.len() - 1] == root);
            assert(jp < r.len() - 1);
            assert(parent_later(t, r, jp));
            let (k3, par3, i3): (int, u32, int) = choose|k3: int, par3: u32, i3: int|
                edge(t, k3, r[jp], par3) && jp < i3 < r.len() && r[i3] == par3;
            assert(t[k3].0 == p && t[k].0 == p);
            if k3 != k {
                assert(false);
            }
            assert(par3 == par);
            if jq != i3 {
                assert(r[jq] == r[i3]);
                let cq = r.len() - 1 - jq;
                let ci = r.len() - 1 - i3;
                assert(c[cq] == c[ci] && cq != ci);
                assert(false);
            }
        }
    }
    order
}

/// Relies on `sysinfo::System::refresh_processes` and `processes()`: the
/// host process table as (pid, parent pid) rows, one per process; the map is
/// keyed by pid, so pids are pairwise distinct.
#[verifier::external_body]
pub(crate) fn process_snapshot() -> (r: Vec<ProcEntry>)
    ensures
        pids_distinct(r@),
{
    let mut sys = sysinfo::System::new();
    sys.refresh_processes(sysinfo::ProcessesToUpdate::All, true);
    let mut rows: Vec<(u32, Option<u32>)> = Vec::new();
    for (pid, proc) in sys.processes() {
        rows.push((pid.as_u32(), proc.parent().map(|p| p.as_u32())));
    }
    rows
}

/// Relies on `nix::sys::signal::kill`: sends SIGKILL to one process,
/// best-effort; reports whether the signal was delivered.
#[verifier::external_body]
pub(crate) fn send_kill(pid: u32) -> (r: bool) {
    nix::sys::signal::kill(
        nix::unistd::Pid::from_raw(pid as i32),
        nix::sys::signal::Signal::SIGKILL,
    ).is_ok()
}

/// Whether `pid` appears in the table.
pub fn pid_in_table(table: &Vec<ProcEntry>, pid: u32) -> (r: bool)
    ensures
        r == exists|k: int| 0 <= k < table@.len() && table@[k].0 == pid,
{
    let n = table.len();
    let mut k: usize = 0;
    while k < n
        invariant
            n == table@.len(),
            forall|j: int| 0 <= j < k ==> table@[j].0 != pid,
        decreases n - k,
    {
        if table[k].0 == pid {
            return true;
        }
        k = k + 1;
    }
    false
}

/// The well-known compatibility-layer helper binaries that the bulk
/// name-based cleanup targets.
pub fn wine_process_names() -> (r: Vec<String>)
    ensures
        r@.len() == 6,
        r@[0]@ == "wineserver"@,
        r@[1]@ == "wine64-preloader"@,
        r@[2]@ == "winedevice.exe"@,
        r@[3]@ == "plugplay.exe"@,
        r@[4]@ == "services.exe"@,
        r@[5]@ == "explorer.exe"@,
{
    let mut v: Vec<String> = Vec::new();
    v.push(String::from_str("wineserver"));
    v.push(String::from_str("wine64-preloader"));
    v.push(String::from_str("winedevice.exe"));
    v.push(String::from_str("plugplay.exe"));
    v.push(String::from_str("services.exe"));
    v.push(String::from_str("explorer.exe"));
    v
}

} // verus!
