//! The live process table: sampling it and matching the target process.
//!
//! The table itself comes from the sysinfo crate, through trusted wrappers:
//! what processes exist depends on the machine at that instant, so nothing
//! is promised of a snapshot's content.  Every decision made on a snapshot
//! — whether the watched path is running, and which unique path a named
//! process resolves to — is verified for every snapshot the wrappers could
//! hand back.

use vstd::prelude::*;

use crate::strutil::{eq_ignore_ascii_case, lower_chars, str_eq};
use crate::watcher::{spec_edge, Edge, ProcessWatcher};

verus! {

#[verifier::external_type_specification]
#[verifier::external_body]
pub struct ExSystem(sysinfo::System);

/// Relies on sysinfo's `System::new_all`: a fresh system snapshot with
/// everything refreshed once.  What it holds depends on the machine.
#[verifier::external_body]
pub fn new_system() -> sysinfo::System {
    sysinfo::System::new_all()
}

/// Relies on sysinfo's `System::refresh_processes`: re-samples the whole
/// process table, dropping dead processes.  What it finds depends on the
/// machine at that instant.
#[verifier::external_body]
pub fn refresh_process_table(sys: &mut sysinfo::System) {
    sys.refresh_processes(sysinfo::ProcessesToUpdate::All, true);
}

/// Relies on sysinfo's `System::processes`, with `Process::name` and
/// `Process::exe`: each live process as its name and its executable path,
/// both lossily decoded to text; a process without a known path keeps none.
/// The table's order and content depend on the machine.
#[verifier::external_body]
pub fn process_snapshot(sys: &sysinfo::System) -> (r: Vec<(String, Option<String>)>) {
    sys.processes().iter().map(
        |(_, p)|
            (
                p.name().to_string_lossy().into_owned(),
                p.exe().map(|e| e.to_string_lossy().into_owned()),
            ),
    ).collect()
}

/// Whether some process of the snapshot has exactly this executable path.
/// Path matching is exact and case-sensitive; a process without a known
/// path matches nothing.
pub open spec fn spec_path_running(snap: Seq<(String, Option<String>)>, target: Seq<char>) -> bool {
    exists|i: int|
        0 <= i < snap.len() && (match (#[trigger] snap[i]).1 {
            Some(p) => p@ == target,
            None => false,
        })
}

/// Whether the watched executable path appears in the snapshot.
pub fn process_path_running(snapshot: &Vec<(String, Option<String>)>, target: &str) -> (r: bool)
    ensures
        r == spec_path_running(snapshot@, target@),
{
    let n = snapshot.len();
    let mut i: usize = 0;
    while i < n
        invariant
            n == snapshot@.len(),
            i <= n,
            forall|j: int|
                0 <= j < i ==> (match (#[trigger] snapshot@[j]).1 {
                    Some(p) => p@ != target@,
                    None => true,
                }),
        decreases n - i,
    {
        match &snapshot[i].1 {
            Some(p) => {
                if str_eq(p.as_str(), target) {
                    return true;
                }
            },
            None => {},
        }
        i += 1;
    }
    false
}

/// Two process names match up to ASCII case.
pub open spec fn spec_name_matches(a: Seq<char>, b: Seq<char>) -> bool {
    lower_chars(a) == lower_chars(b)
}

/// The executable paths (known or not) of the snapshot's processes whose
/// name matches, in table order.
pub open spec fn spec_matches_of(snap: Seq<(String, Option<String>)>, name: Seq<char>) -> Seq<
    Option<String>,
>
    decreases snap.len(),
{
    if snap.len() == 0 {
        Seq::empty()
    } else {
        spec_matches_of(snap.drop_last(), name) + (if spec_name_matches(snap.last().0@, name) {
            seq![snap.last().1]
        } else {
            Seq::empty()
        })
    }
}

/// Whether some process of the snapshot carries this name, up to ASCII
/// case — the matching the name-based watcher variant uses.
pub fn process_name_running(snapshot: &Vec<(String, Option<String>)>, name: &str) -> (r: bool)
    ensures
        r == (spec_matches_of(snapshot@, name@).len() > 0),
{
    let n = snapshot.len();
    let mut i: usize = 0;
    proof {
        assert(snapshot@.take(0) =~= Seq::<(String, Option<String>)>::empty());
    }
    while i < n
        invariant
            n == snapshot@.len(),
            i <= n,
            spec_matches_of(snapshot@.take(i as int), name@).len() == 0,
        decreases n - i,
    {
        let ghost prefix = snapshot@.take(i as int + 1);
        proof {
            assert(prefix.drop_last() =~= snapshot@.take(i as int));
            assert(prefix.last() == snapshot@[i as int]);
        }
        if eq_ignore_ascii_case(snapshot[i].0.as_str(), name) {
            proof {
                lemma_matches_of_prefix(snapshot@, name@, i as int + 1);
            }
            return true;
        }
        i += 1;
    }
    proof {
        assert(snapshot@.take(n as int) =~= snapshot@);
    }
    false
}

/// A name that matches within a prefix still matches in the whole table.
proof fn lemma_matches_of_prefix(snap: Seq<(String, Option<String>)>, name: Seq<char>, k: int)
    requires
        0 <= k <= snap.len(),
        spec_matches_of(snap.take(k), name).len() > 0,
    ensures
        spec_matches_of(snap, name).len() > 0,
    decreases snap.len() - k,
{
    if k < snap.len() {
        assert(snap.take(k + 1).drop_last() =~= snap.take(k));
        lemma_matches_of_prefix(snap, name, k + 1);
    } else {
        assert(snap.take(k) =~= snap);
    }
}

/// The unique path several equally named processes resolve to, folded over
/// their known paths from an accumulator: the first known path is taken, a
/// repeat of it is passed over, and any other known path makes the whole
/// resolution fail.
pub open spec fn spec_resolve_multi(ms: Seq<Option<String>>, acc: Seq<char>) -> Option<Seq<char>>
    decreases ms.len(),
{
    if ms.len() == 0 {
        Some(acc)
    } else {
        match ms[0] {
            None => spec_resolve_multi(ms.skip(1), acc),
            Some(p) => {
                if acc.len() == 0 {
                    spec_resolve_multi(ms.skip(1), p@)
                } else if p@ == acc {
                    spec_resolve_multi(ms.skip(1), acc)
                } else {
                    None
                }
            },
        }
    }
}

/// The path the named processes of a snapshot resolve to: none when no
/// process carries the name, the single match's path (if known) when there
/// is one, and for several matches their one common known path — different
/// paths abort the resolution.
pub open spec fn spec_resolve_named(snap: Seq<(String, Option<String>)>, name: Seq<char>) -> Option<
    Seq<char>,
> {
    let ms = spec_matches_of(snap, name);
    if ms.len() == 0 {
        None
    } else if ms.len() == 1 {
        match ms[0] {
            Some(p) => Some(p@),
            None => None,
        }
    } else {
        spec_resolve_multi(ms, Seq::empty())
    }
}

/// Resolves the executable path of the process with this name, as the
/// game-path scan does: exactly one matching process gives its path; several
/// give their path only when every known path agrees.
pub fn get_running_process_path(snapshot: &Vec<(String, Option<String>)>, process_name: &str) -> (r:
    Option<String>)
    ensures
        match spec_resolve_named(snapshot@, process_name@) {
            Some(p) => r matches Some(q) && q@ == p,
            None => r is None,
        },
{
    let n = snapshot.len();
    let mut found: Vec<Option<String>> = Vec::new();
    let mut i: usize = 0;
    proof {
        assert(found@ =~= spec_matches_of(snapshot@.take(0), process_name@));
    }
    while i < n
        invariant
            n == snapshot@.len(),
            i <= n,
            found@ == spec_matches_of(snapshot@.take(i as int), process_name@),
        decreases n - i,
    {
        let ghost prefix = snapshot@.take(i as int + 1);
        proof {
            assert(prefix.drop_last() =~= snapshot@.take(i as int));
            assert(prefix.last() == snapshot@[i as int]);
        }
        if eq_ignore_ascii_case(snapshot[i].0.as_str(), process_name) {
            let entry = match &snapshot[i].1 {
                Some(p) => Some(p.clone()),
                None => None,
            };
            let ghost before = found@;
            found.push(entry);
            proof {
                assert(found@ =~= before + seq![snapshot@[i as int].1]);
            }
        }
        i += 1;
    }
    proof {
        assert(snapshot@.take(n as int) =~= snapshot@);
    }
    let k = found.len();
    if k == 0 {
        return None;
    }
    if k == 1 {
        let only = match &found[0] {
            Some(p) => Some(p.clone()),
            None => None,
        };
        return only;
    }
    let mut acc = String::new();
    let mut i: usize = 0;
    proof {
        assert(found@.skip(0) =~= found@);
    }
    while i < k
        invariant
            k == found@.len(),
            2 <= k,
            i <= k,
            found@ == spec_matches_of(snapshot@, process_name@),
            spec_resolve_multi(found@, Seq::empty()) == spec_resolve_multi(
                found@.skip(i as int),
                acc@,
            ),
        decreases k - i,
    {
        let ghost remaining = found@.skip(i as int);
        proof {
            assert(remaining[0] == found@[i as int]);
            assert(remaining.skip(1) =~= found@.skip(i as int + 1));
        }
        match &found[i] {
            None => {},
            Some(p) => {
                if acc.as_str().is_empty() {
                    acc = p.clone();
                } else if str_eq(acc.as_str(), p.as_str()) {
                } else {
                    return None;
                }
            },
        }
        i += 1;
    }
    proof {
        assert(found@.skip(k as int).len() == 0);
    }
    Some(acc)
}

/// One polling tick: re-samples the process table, checks whether the
/// watcher's target path is among the live processes, and records the
/// sample, reporting the edge.  The loop around this call performs the
/// edge's display command and sleeps until the next tick; whatever the
/// machine's process table held, the watcher changes only its recorded
/// `running` flag.
pub fn poll_once(sys: &mut sysinfo::System, watcher: &mut ProcessWatcher) -> (edge: Edge)
    ensures
        edge == spec_edge(old(watcher).running_flag(), final(watcher).running_flag()),
        final(watcher).watching() == old(watcher).watching(),
        final(watcher).spawn_count() == old(watcher).spawn_count(),
        final(watcher).stop_count() == old(watcher).stop_count(),
        final(watcher).process_path == old(watcher).process_path,
        final(watcher).display_mode == old(watcher).display_mode,
        old(watcher).wf() ==> final(watcher).wf(),
{
    refresh_process_table(sys);
    let snapshot = process_snapshot(sys);
    let running_now = process_path_running(&snapshot, watcher.process_path.as_str());
    watcher.observe(running_now)
}

} // verus!
