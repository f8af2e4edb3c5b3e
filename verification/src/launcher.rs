//! The launcher facade: building the spawn command line, locating the
//! launcher binary, keeping the registry of running games, and tearing down
//! process trees. The caller performs the surrounding I/O — reading and
//! writing the persisted collections, enumerating directories, spawning —
//! and hands the plain values in.

use vstd::prelude::*;

use crate::game::Game;
use crate::process;
use crate::registry::{
    find_title, recent_spec, title_views, without_process_title, GameProcess,
};
use crate::text::{split_ws_spec, string_views};
use crate::LauncherError;

verus! {

/// The game identifier named on a well-formed command line
/// `<program> --game <gameid>`.
pub fn parse_args(args: &Vec<String>) -> (r: Result<String, LauncherError>)
    ensures
        match r {
            Ok(id) => args@.len() == 3 && args@[1]@ == "--game"@ && id@ == args@[2]@,
            Err(e) => if args@.len() != 3 {
                e == LauncherError::Usage
            } else {
                args@[1]@ != "--game"@ && e == LauncherError::UnknownFlag
            },
        },
{
    if args.len() != 3 {
        return Err(LauncherError::Usage);
    }
    if !crate::text::str_eq(args[1].as_str(), "--game") {
        return Err(LauncherError::UnknownFlag);
    }
    Ok(args[2].clone())
}

/// The launcher itself: operations around spawning and stopping games.
pub struct GameLauncher;

impl GameLauncher {
    /// Choose the launcher binary: the configured path when it exists on
    /// disk, else whatever a search of the host path turned up, else an
    /// error — a launch must not proceed without the launcher.
    pub fn get_umu_run(configured: String, configured_exists: bool, path_lookup: Option<String>)
        -> (r: Result<String, LauncherError>)
        ensures
            match r {
                Ok(p) => if configured_exists {
                    p == configured
                } else {
                    path_lookup == Some(p)
                },
                Err(e) => {
                    &&& !configured_exists
                    &&& path_lookup is None
                    &&& e == LauncherError::LauncherMissing
                },
            },
    {
        if configured_exists {
            Ok(configured)
        } else {
            match path_lookup {
                Some(p) => Ok(p),
                None => Err(LauncherError::LauncherMissing),
            }
        }
    }

    /// The argument list of a launch: the game executable's path, then the
    /// whitespace-separated launcher arguments, then the whitespace-separated
    /// game arguments, in order.
    pub fn build_arguments(game: &Game) -> (r: Vec<String>)
        ensures
            string_views(r@) == seq![game.path@] + split_ws_spec(game.launch_arguments@)
                + split_ws_spec(game.game_arguments@),
    {
        let mut args: Vec<String> = Vec::new();
        args.push(game.path.clone());
        proof {
            assert(string_views(args@) =~= seq![game.path@]);
        }
        let ghost after_path = string_views(args@);
        let mut launch = crate::text::split_whitespace(game.launch_arguments.as_str());
        let ghost launch_views = string_views(launch@);
        args.append(&mut launch);
        proof {
            assert(string_views(args@) =~= after_path + launch_views);
        }
        let ghost after_launch = string_views(args@);
        let mut extra = crate::text::split_whitespace(game.game_arguments.as_str());
        let ghost extra_views = string_views(extra@);
        args.append(&mut extra);
        proof {
            assert(string_views(args@) =~= after_launch + extra_views);
            assert(string_views(args@) =~= seq![game.path@] + split_ws_spec(
                game.launch_arguments@,
            ) + split_ws_spec(game.game_arguments@));
        }
        args
    }

    /// Stop a tracked launch: tear down the whole process tree under `pid`.
    /// Signalling is best-effort, so this never fails.
    pub fn terminate(pid: u32) -> (r: Result<(), LauncherError>)
        ensures
            r is Ok,
    {
        let _ = Self::terminate_tree(pid);
        Ok(())
    }

    /// Snapshot the host process table and send SIGKILL to the whole tree
    /// under `pid`: every descendant exactly once, children strictly before
    /// their parent, the root last. Returns the pids signalled, in order.
    pub fn terminate_tree(pid: u32) -> (r: Vec<u32>)
        ensures
            r@.len() >= 1,
            r@[r@.len() - 1] == pid,
            forall|p: int, q: int| 0 <= p < q < r@.len() ==> r@[p] != r@[q],
    {
        let table = process::process_snapshot();
        let order = process::kill_order(&table, pid);
        let n = order.len();
        let mut i: usize = 0;
        while i < n
            invariant
                n == order@.len(),
            decreases n - i,
        {
            let _ = process::send_kill(order[i]);
            i = i + 1;
        }
        order
    }

    /// Whether the process is present in a fresh snapshot of the host
    /// process table.
    pub fn is_process_running(pid: u32) -> bool {
        let table = process::process_snapshot();
        process::pid_in_table(&table, pid)
    }

    /// Record a freshly spawned process: append it to the tracked list. No
    /// de-duplication happens here; a caller wanting single-instance
    /// semantics forgets the title first.
    pub fn save_process(processes: &mut Vec<GameProcess>, process: &GameProcess)
        ensures
            final(processes)@ == old(processes)@.push(*process),
    {
        processes.push(process.duplicate_exact());
    }

    /// Look a tracked process up by title: the first entry with that title.
    pub fn get_game_process(processes: &Vec<GameProcess>, title: &str) -> (r: Option<
        GameProcess,
    >)
        ensures
            ({
                let f = find_title(processes@, title@);
                match r {
                    Some(p) => f >= 0 && p == processes@[f],
                    None => f == -1,
                }
            }),
    {
        proof {
            crate::registry::lemma_find_title_characterization(processes@, title@);
        }
        let n = processes.len();
        let mut i: usize = 0;
        while i < n
            invariant
                n == processes@.len(),
                forall|j: int| 0 <= j < i ==> processes@[j].game_title@ != title@,
            decreases n - i,
        {
            if crate::text::str_eq(processes[i].game_title.as_str(), title) {
                proof {
                    crate::registry::lemma_find_title_from_witness(processes@, title@, i as int);
                }
                return Some(processes[i].duplicate_exact());
            }
            i = i + 1;
        }
        proof {
            crate::registry::lemma_find_title_characterization(processes@, title@);
        }
        None
    }

    /// Forget every tracked process with the given title.
    pub fn remove_process(processes: &mut Vec<GameProcess>, title: &str)
        ensures
            final(processes)@ == without_process_title(old(processes)@, title@),
    {
        let n = processes.len();
        let mut kept: Vec<GameProcess> = Vec::new();
        let mut i: usize = 0;
        while i < n
            invariant
                n == processes@.len(),
                processes@ == old(processes)@,
                i <= n,
                kept@ == without_process_title(processes@.subrange(0, i as int), title@),
            decreases n - i,
        {
            let ghost prefix = processes@.subrange(0, i as int);
            if !crate::text::str_eq(processes[i].game_title.as_str(), title) {
                kept.push(processes[i].duplicate_exact());
            }
            proof {
                reveal_with_fuel(Seq::filter, 2);
                assert(processes@.subrange(0, i + 1).drop_last() =~= prefix);
                assert(processes@.subrange(0, i + 1).last() == processes@[i as int]);
            }
            i = i + 1;
        }
        proof {
            assert(processes@.subrange(0, n as int) =~= processes@);
        }
        *processes = kept;
    }

    /// Move `title` to the front of the recency list, dropping any earlier
    /// occurrence and anything beyond the ten most recent.
    pub fn update_latest_games(titles: &mut Vec<String>, title: &str)
        ensures
            title_views(final(titles)@) == recent_spec(title_views(old(titles)@), title@),
            final(titles)@.len() <= 10,
    {
        let ghost old_views = title_views(titles@);
        let n = titles.len();
        let mut kept: Vec<String> = Vec::new();
        kept.push(String::from_str(title));
        proof {
            reveal_with_fuel(Seq::filter, 1);
            assert(title_views(kept@) =~= seq![title@] + crate::registry::without_title(
                old_views.subrange(0, 0),
                title@,
            ));
        }
        let mut i: usize = 0;
        while i < n
            invariant
                n == titles@.len(),
                titles@ == old(titles)@,
                old_views == title_views(titles@),
                i <= n,
                title_views(kept@) == seq![title@] + crate::registry::without_title(
                    old_views.subrange(0, i as int),
                    title@,
                ),
            decreases n - i,
        {
            let ghost prefix = old_views.subrange(0, i as int);
            let ghost kept_before = kept@;
            if !crate::text::str_eq(titles[i].as_str(), title) {
                kept.push(titles[i].clone());
                proof {
                    assert(title_views(kept@) =~= title_views(kept_before).push(
                        old_views[i as int],
                    ));
                }
            }
            proof {
                reveal_with_fuel(Seq::filter, 2);
                assert(old_views.subrange(0, i + 1).drop_last() =~= prefix);
                assert(old_views.subrange(0, i + 1).last() == old_views[i as int]);
                assert(title_views(kept@) =~= seq![title@] + crate::registry::without_title(
                    old_views.subrange(0, i + 1),
                    title@,
                ));
            }
            i = i + 1;
        }
        proof {
            assert(old_views.subrange(0, n as int) =~= old_views);
        }
        if kept.len() > 10 {
            let ghost full = title_views(kept@);
            kept.truncate(10);
            proof {
                assert(title_views(kept@) =~= full.take(10));
            }
        }
        *titles = kept;
    }
}

} // verus!
