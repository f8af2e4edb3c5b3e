//! The registry of running games: a list of tracked processes and a bounded
//! most-recent-first title list. Callers read the persisted collections,
//! apply these pure operations, and write the whole collections back.

use vstd::prelude::*;

verus! {

/// A tracked launch: a display title and the process ids it runs under.
pub struct GameProcess {
    /// Display title of the game.
    pub game_title: String,
    /// Root OS process id.
    pub main_pid: u32,
    /// Secondary launcher process id, when one was discovered.
    pub umu_pid: Option<u32>,
}

impl GameProcess {
    /// A field-for-field copy.
    pub fn duplicate_exact(&self) -> (r: GameProcess)
        ensures
            r == *self,
    {
        GameProcess {
            game_title: self.game_title.clone(),
            main_pid: self.main_pid,
            umu_pid: self.umu_pid,
        }
    }
}

/// Index of the first tracked process with the given title, or `-1`.
pub open spec fn find_title(ps: Seq<GameProcess>, title: Seq<char>) -> int
    decreases ps.len(),
{
    if ps.len() == 0 {
        -1
    } else if ps[0].game_title@ == title {
        0
    } else {
        let r = find_title(ps.drop_first(), title);
        if r < 0 {
            -1
        } else {
            r + 1
        }
    }
}

pub proof fn lemma_find_title_characterization(ps: Seq<GameProcess>, title: Seq<char>)
    ensures
        find_title(ps, title) == -1 ==> forall|i: int|
            0 <= i < ps.len() ==> ps[i].game_title@ != title,
        find_title(ps, title) != -1 ==> {
            let f = find_title(ps, title);
            &&& 0 <= f < ps.len()
            &&& ps[f].game_title@ == title
            &&& forall|i: int| 0 <= i < f ==> ps[i].game_title@ != title
        },
    decreases ps.len(),
{
    if ps.len() > 0 && ps[0].game_title@ != title {
        lemma_find_title_characterization(ps.drop_first(), title);
        assert(forall|i: int| 1 <= i < ps.len() ==> ps[i] == ps.drop_first()[i - 1]);
    }
}

/// Converse: a first match at `f` pins down `find_title`.
pub proof fn lemma_find_title_from_witness(ps: Seq<GameProcess>, title: Seq<char>, f: int)
    requires
        0 <= f < ps.len(),
        ps[f].game_title@ == title,
        forall|i: int| 0 <= i < f ==> ps[i].game_title@ != title,
    ensures
        find_title(ps, title) == f,
{
    lemma_find_title_characterization(ps, title);
}

/// The tracked list without any entry carrying the given title.
pub open spec fn without_process_title(ps: Seq<GameProcess>, title: Seq<char>) -> Seq<GameProcess> {
    ps.filter(|p: GameProcess| p.game_title@ != title)
}

/// Every entry of the filtered list carries another title.
pub proof fn lemma_without_process_title_pred(ps: Seq<GameProcess>, title: Seq<char>)
    ensures
        forall|i: int|
            0 <= i < without_process_title(ps, title).len() ==> #[trigger] without_process_title(
                ps,
                title,
            )[i].game_title@ != title,
    decreases ps.len(),
{
    reveal_with_fuel(Seq::filter, 2);
    if ps.len() > 0 {
        lemma_without_process_title_pred(ps.drop_last(), title);
        let f = without_process_title(ps, title);
        let fr = without_process_title(ps.drop_last(), title);
        assert(forall|i: int| 0 <= i < fr.len() ==> f[i] == fr[i]);
    }
}

/// The title views of a title list.
pub open spec fn title_views(ts: Seq<String>) -> Seq<Seq<char>> {
    ts.map_values(|t: String| t@)
}

/// The title list without any occurrence of the given title.
pub open spec fn without_title(ts: Seq<Seq<char>>, title: Seq<char>) -> Seq<Seq<char>> {
    ts.filter(|t: Seq<char>| t != title)
}

/// The recency list after a launch of `title`: the title moves to the front,
/// any earlier occurrence disappears, and only the ten most recent stay.
pub open spec fn recent_spec(old_titles: Seq<Seq<char>>, title: Seq<char>) -> Seq<Seq<char>> {
    let with_front = seq![title] + without_title(old_titles, title);
    if with_front.len() <= 10 {
        with_front
    } else {
        with_front.take(10)
    }
}

/// Dropping a title keeps a duplicate-free list duplicate-free, keeps only
/// elements of the original, and keeps no occurrence of the title.
proof fn lemma_without_title_no_dup(s: Seq<Seq<char>>, title: Seq<char>)
    requires
        forall|p: int, q: int| 0 <= p < q < s.len() ==> s[p] != s[q],
    ensures
        ({
            let f = without_title(s, title);
            &&& (forall|p: int, q: int| 0 <= p < q < f.len() ==> f[p] != f[q])
            &&& (forall|x: Seq<char>| f.contains(x) ==> s.contains(x))
            &&& (forall|i: int| 0 <= i < f.len() ==> #[trigger] f[i] != title)
        }),
    decreases s.len(),
{
    reveal_with_fuel(Seq::filter, 2);
    if s.len() > 0 {
        let rest = s.drop_last();
        lemma_without_title_no_dup(rest, title);
        let fr = without_title(rest, title);
        let f = without_title(s, title);
        assert(forall|i: int| 0 <= i < rest.len() ==> rest[i] == s[i]);
        assert(forall|i: int| 0 <= i < fr.len() ==> f[i] == fr[i]);
        assert forall|x: Seq<char>| f.contains(x) implies s.contains(x) by {
            let j = choose|j: int| 0 <= j < f.len() && f[j] == x;
            if s.last() != title && j == f.len() - 1 {
                assert(s[s.len() - 1] == x);
            } else {
                assert(fr.contains(x));
                let j2 = choose|j2: int| 0 <= j2 < rest.len() && rest[j2] == x;
                assert(s[j2] == x);
            }
        }
        if s.last() != title {
            assert forall|p: int, q: int| 0 <= p < q < f.len() implies f[p] != f[q] by {
                if q == f.len() - 1 {
                    assert(f[p] == fr[p]);
                    assert(fr.contains(f[p]));
                    let j2 = choose|j2: int| 0 <= j2 < rest.len() && rest[j2] == f[p];
                    assert(s[j2] == f[p]);
                    assert(s[j2] != s.last());
                } else {
                    assert(f[p] == fr[p] && f[q] == fr[q]);
                }
            }
        }
    }
}

/// The recency list never exceeds ten entries and, over a duplicate-free
/// list, never gains a duplicate title.
pub proof fn lemma_recent_bounded_unique(old_titles: Seq<Seq<char>>, title: Seq<char>)
    requires
        forall|p: int, q: int| 0 <= p < q < old_titles.len() ==> old_titles[p] != old_titles[q],
    ensures
        recent_spec(old_titles, title).len() <= 10,
        forall|p: int, q: int|
            0 <= p < q < recent_spec(old_titles, title).len() ==> recent_spec(old_titles, title)[p]
                != recent_spec(old_titles, title)[q],
{
    lemma_without_title_no_dup(old_titles, title);
    let filtered = without_title(old_titles, title);
    let with_front = seq![title] + filtered;
    assert(with_front[0] == title);
    assert forall|p: int, q: int| 0 <= p < q < with_front.len() implies with_front[p]
        != with_front[q] by {
        if p == 0 {
            assert(with_front[q] == filtered[q - 1]);
            assert(filtered[q - 1] != title);
        } else {
            assert(with_front[p] == filtered[p - 1] && with_front[q] == filtered[q - 1]);
        }
    }
    let r = recent_spec(old_titles, title);
    assert(r == with_front || r == with_front.take(10));
    assert(forall|i: int| 0 <= i < r.len() ==> r[i] == with_front[i]);
}

/// Recording a title that is not yet tracked and looking it up returns the
/// recorded handle, pid and all; forgetting a title and looking it up finds
/// nothing.
pub proof fn lemma_registry_round_trip(ps: Seq<GameProcess>, p: GameProcess)
    requires
        find_title(ps, p.game_title@) == -1,
    ensures
        ({
            let f = find_title(ps.push(p), p.game_title@);
            &&& f == ps.len()
            &&& ps.push(p)[f] == p
            &&& ps.push(p)[f].main_pid == p.main_pid
        }),
        find_title(without_process_title(ps, p.game_title@), p.game_title@) == -1,
{
    lemma_find_title_characterization(ps, p.game_title@);
    let pushed = ps.push(p);
    assert(forall|i: int| 0 <= i < ps.len() ==> pushed[i] == ps[i]);
    lemma_find_title_from_witness(pushed, p.game_title@, ps.len() as int);
    let filtered = without_process_title(ps, p.game_title@);
    lemma_without_process_title_pred(ps, p.game_title@);
    lemma_find_title_characterization(filtered, p.game_title@);
    if find_title(filtered, p.game_title@) != -1 {
        assert(false);
    }
}

} // verus!
