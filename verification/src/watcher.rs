//! The polling watcher: an edge-triggered state machine.
//!
//! A watcher owns one target process path and one target display mode.  While
//! it is watching, a polling task samples the live process table on a fixed
//! tick; the watcher compares each sample with the previously recorded
//! `running` flag and acts only on the transition edges.  The asynchronous
//! loop itself runs outside the library; it feeds each sample to [`ProcessWatcher::observe`]
//! and performs the [`Edge`]-derived display commands it gets back.

use vstd::prelude::*;

use crate::display::DisplayMode;

verus! {

/// What one poll tick observed, relative to the previous tick.
#[derive(Clone, Copy, Debug, PartialEq, Eq, Structural)]
pub enum Edge {
    /// The process was absent and is now present.
    Rise,
    /// The process was present and is now absent.
    Fall,
    /// No change.
    Steady,
}

/// The edge between the previously recorded flag and the new sample.
pub open spec fn spec_edge(prev: bool, now: bool) -> Edge {
    if !prev && now {
        Edge::Rise
    } else if prev && !now {
        Edge::Fall
    } else {
        Edge::Steady
    }
}

/// The sequence of edges a watcher reports when it starts from flag `init`
/// and observes `samples` one tick at a time.
pub open spec fn edges_of(init: bool, samples: Seq<bool>) -> Seq<Edge>
    decreases samples.len(),
{
    if samples.len() == 0 {
        Seq::empty()
    } else {
        seq![spec_edge(init, samples[0])] + edges_of(samples[0], samples.skip(1))
    }
}

/// How many rising edges (process appeared) a run of `samples` from `init` holds.
pub open spec fn rise_count(init: bool, samples: Seq<bool>) -> nat
    decreases samples.len(),
{
    if samples.len() == 0 {
        0nat
    } else {
        (if !init && samples[0] {
            1nat
        } else {
            0nat
        }) + rise_count(samples[0], samples.skip(1))
    }
}

/// How many falling edges (process disappeared) a run of `samples` from `init` holds.
pub open spec fn fall_count(init: bool, samples: Seq<bool>) -> nat
    decreases samples.len(),
{
    if samples.len() == 0 {
        0nat
    } else {
        (if init && !samples[0] {
            1nat
        } else {
            0nat
        }) + fall_count(samples[0], samples.skip(1))
    }
}

/// The watching flag after `n` toggles of a watcher whose flag starts at `init`.
pub open spec fn state_after_toggles(init: bool, n: nat) -> bool
    decreases n,
{
    if n == 0 {
        init
    } else {
        !state_after_toggles(init, (n - 1) as nat)
    }
}

/// The watching flag and spawn count after one `start`: starting an already
/// watching watcher spawns nothing.
pub open spec fn spec_start(watching: bool, spawns: nat) -> (bool, nat) {
    if watching {
        (true, spawns)
    } else {
        (true, spawns + 1)
    }
}

/// The watching flag and stop count after one `stop`: stopping an idle
/// watcher aborts nothing.
pub open spec fn spec_stop(watching: bool, stops: nat) -> (bool, nat) {
    if watching {
        (false, stops + 1)
    } else {
        (false, stops)
    }
}

/// The watcher bound to one target process and one target display mode.
///
/// `task_live` models whether the polling task exists; it is the sole source
/// of truth for "is watching".  The ghost counters record how many polling
/// tasks were ever spawned and stopped, so that the single-task invariant can
/// be stated: a watcher never has more than one live task.
pub struct ProcessWatcher {
    /// The executable path the polling loop looks for in the process table.
    pub process_path: String,
    /// The display mode applied when the process appears.
    pub display_mode: DisplayMode,
    pub running: bool,
    pub task_live: bool,
    pub spawns: Ghost<nat>,
    pub stops: Ghost<nat>,
}

impl ProcessWatcher {
    /// Whether the watcher believes the target process is currently running.
    pub open spec fn running_flag(self) -> bool {
        self.running
    }

    /// Whether a polling task is live.
    pub open spec fn watching(self) -> bool {
        self.task_live
    }

    /// How many polling tasks were ever spawned.
    pub open spec fn spawn_count(self) -> nat {
        self.spawns@
    }

    /// How many polling tasks were ever stopped.
    pub open spec fn stop_count(self) -> nat {
        self.stops@
    }

    /// Every task ever spawned but the possibly live one was stopped: the
    /// number of live polling tasks is `spawn_count - stop_count`, and it is
    /// zero or one, exactly as `watching` says.
    pub open spec fn wf(self) -> bool {
        self.spawns@ == self.stops@ + (if self.task_live {
            1nat
        } else {
            0nat
        })
    }

    /// Creates an idle watcher; the caller decides when to start it.
    pub fn new(process_path: String, display_mode: DisplayMode) -> (w: Self)
        ensures
            w.process_path == process_path,
            w.display_mode == display_mode,
            !w.running_flag(),
            !w.watching(),
            w.spawn_count() == 0,
            w.stop_count() == 0,
            w.wf(),
    {
        ProcessWatcher {
            process_path,
            display_mode,
            running: false,
            task_live: false,
            spawns: Ghost(0nat),
            stops: Ghost(0nat),
        }
    }

    /// Whether the watcher last observed the target process as running.
    pub fn is_running(&self) -> (r: bool)
        ensures
            r == self.running_flag(),
    {
        self.running
    }

    /// Whether a polling task is live.
    pub fn is_watching(&self) -> (r: bool)
        ensures
            r == self.watching(),
    {
        self.task_live
    }

    /// Starts watching.  A no-op when already watching: at most one polling
    /// task is ever live.  Returns whether a task was spawned.
    pub fn start(&mut self) -> (spawned: bool)
        requires
            old(self).wf(),
        ensures
            final(self).wf(),
            spawned == !old(self).watching(),
            final(self).watching(),
            (final(self).watching(), final(self).spawn_count()) == spec_start(
                old(self).watching(),
                old(self).spawn_count(),
            ),
            final(self).stop_count() == old(self).stop_count(),
            final(self).running_flag() == old(self).running_flag(),
            final(self).process_path == old(self).process_path,
            final(self).display_mode == old(self).display_mode,
            old(self).watching() ==> *final(self) == *old(self),
    {
        if self.task_live {
            false
        } else {
            self.task_live = true;
            proof {
                self.spawns@ = self.spawns@ + 1;
            }
            true
        }
    }

    /// Stops watching by aborting the polling task.  A no-op when idle.  The
    /// `running` flag is left as last observed: a hard abort performs no final
    /// restore.  Returns whether a task was aborted.
    pub fn stop(&mut self) -> (aborted: bool)
        requires
            old(self).wf(),
        ensures
            final(self).wf(),
            aborted == old(self).watching(),
            !final(self).watching(),
            (final(self).watching(), final(self).stop_count()) == spec_stop(
                old(self).watching(),
                old(self).stop_count(),
            ),
            final(self).spawn_count() == old(self).spawn_count(),
            final(self).running_flag() == old(self).running_flag(),
            final(self).process_path == old(self).process_path,
            final(self).display_mode == old(self).display_mode,
            !old(self).watching() ==> *final(self) == *old(self),
    {
        if self.task_live {
            self.task_live = false;
            proof {
                self.stops@ = self.stops@ + 1;
            }
            true
        } else {
            false
        }
    }

    /// Watching becomes idle and idle becomes watching.  Returns the new
    /// watching flag.
    pub fn toggle(&mut self) -> (now_watching: bool)
        requires
            old(self).wf(),
        ensures
            final(self).wf(),
            now_watching == !old(self).watching(),
            final(self).watching() == !old(self).watching(),
            final(self).running_flag() == old(self).running_flag(),
            final(self).process_path == old(self).process_path,
            final(self).display_mode == old(self).display_mode,
            old(self).watching() ==> final(self).spawn_count() == old(self).spawn_count()
                && final(self).stop_count() == old(self).stop_count() + 1,
            !old(self).watching() ==> final(self).spawn_count() == old(self).spawn_count() + 1
                && final(self).stop_count() == old(self).stop_count(),
    {
        if self.task_live {
            self.stop();
            false
        } else {
            self.start();
            true
        }
    }

    /// Records one poll sample and reports the edge against the previous
    /// sample.  The caller acts on the edge alone; steady states trigger
    /// nothing.
    pub fn observe(&mut self, running_now: bool) -> (edge: Edge)
        ensures
            edge == spec_edge(old(self).running_flag(), running_now),
            final(self).running_flag() == running_now,
            final(self).watching() == old(self).watching(),
            final(self).spawn_count() == old(self).spawn_count(),
            final(self).stop_count() == old(self).stop_count(),
            final(self).process_path == old(self).process_path,
            final(self).display_mode == old(self).display_mode,
            old(self).wf() ==> final(self).wf(),
            edge == Edge::Steady <==> old(self).running_flag() == running_now,
    {
        let prev = self.running;
        self.running = running_now;
        if !prev && running_now {
            Edge::Rise
        } else if prev && !running_now {
            Edge::Fall
        } else {
            Edge::Steady
        }
    }

    /// Replaces the target display mode in place; the watcher keeps its state.
    pub fn set_display_mode(&mut self, display_mode: DisplayMode)
        ensures
            final(self).display_mode == display_mode,
            final(self).process_path == old(self).process_path,
            final(self).running_flag() == old(self).running_flag(),
            final(self).watching() == old(self).watching(),
            final(self).spawn_count() == old(self).spawn_count(),
            final(self).stop_count() == old(self).stop_count(),
            old(self).wf() ==> final(self).wf(),
    {
        self.display_mode = display_mode;
    }

    /// Binds the target mode to one named monitor; the rest of the mode and
    /// the watcher's state are kept.
    pub fn select_monitor(&mut self, monitor_name: String)
        ensures
            final(self).display_mode.monitor_name == monitor_name,
            final(self).display_mode.width == old(self).display_mode.width,
            final(self).display_mode.height == old(self).display_mode.height,
            final(self).display_mode.refresh_rate == old(self).display_mode.refresh_rate,
            final(self).display_mode.bits_per_pixel == old(self).display_mode.bits_per_pixel,
            final(self).process_path == old(self).process_path,
            final(self).running_flag() == old(self).running_flag(),
            final(self).watching() == old(self).watching(),
            final(self).spawn_count() == old(self).spawn_count(),
            final(self).stop_count() == old(self).stop_count(),
            old(self).wf() ==> final(self).wf(),
    {
        self.display_mode.monitor_name = monitor_name;
    }
}

/// A watcher never has more than one live polling task: however many times
/// `start` was called, the spawn counter exceeds the stop counter by at most
/// one.
pub proof fn lemma_single_task(w: ProcessWatcher)
    requires
        w.wf(),
    ensures
        w.spawn_count() <= w.stop_count() + 1,
        w.spawn_count() - w.stop_count() == (if w.watching() {
            1int
        } else {
            0int
        }),
{
}

/// Two `start` calls in a row spawn exactly one task: the second is a no-op,
/// whatever state the watcher began in.
pub proof fn lemma_start_twice_spawns_once(watching: bool, spawns: nat)
    ensures
        spec_start(spec_start(watching, spawns).0, spec_start(watching, spawns).1) == spec_start(
            watching,
            spawns,
        ),
        spec_start(watching, spawns).1 <= spawns + 1,
{
}

/// Two `stop` calls in a row abort exactly one task: the second is a no-op.
pub proof fn lemma_stop_twice_stops_once(watching: bool, stops: nat)
    ensures
        spec_stop(spec_stop(watching, stops).0, spec_stop(watching, stops).1) == spec_stop(
            watching,
            stops,
        ),
        spec_stop(watching, stops).1 <= stops + 1,
{
}

/// After any sequence of toggles, the watching flag of a watcher that began
/// idle equals the parity of the number of toggles; in particular a double
/// toggle is a no-op, not an error.
pub proof fn lemma_toggle_parity(n: nat)
    ensures
        state_after_toggles(false, n) == (n % 2 == 1),
    decreases n,
{
    if n > 0 {
        lemma_toggle_parity((n - 1) as nat);
    }
}

/// Edges fire exactly on transitions: the edge reported at tick `i` is
/// `Steady` if and only if the sample equals the one before it (or the
/// initial flag, at the first tick).
pub proof fn lemma_edges_pointwise(init: bool, samples: Seq<bool>, i: int)
    requires
        0 <= i < samples.len(),
    ensures
        edges_of(init, samples).len() == samples.len(),
        edges_of(init, samples)[i] == spec_edge(
            if i == 0 {
                init
            } else {
                samples[i - 1]
            },
            samples[i],
        ),
    decreases samples.len(),
{
    lemma_edges_len(samples[0], samples.skip(1));
    if i > 0 {
        lemma_edges_pointwise(samples[0], samples.skip(1), i - 1);
    }
}

/// A run reports one edge per sample.
pub proof fn lemma_edges_len(init: bool, samples: Seq<bool>)
    ensures
        edges_of(init, samples).len() == samples.len(),
    decreases samples.len(),
{
    if samples.len() > 0 {
        lemma_edges_len(samples[0], samples.skip(1));
    }
}

/// How many edges of kind `e` a run of edges holds.
pub open spec fn count_edges(es: Seq<Edge>, e: Edge) -> nat
    decreases es.len(),
{
    if es.len() == 0 {
        0nat
    } else {
        (if es[0] == e {
            1nat
        } else {
            0nat
        }) + count_edges(es.skip(1), e)
    }
}

/// The display is reconfigured exactly once per rising edge and restored
/// exactly once per falling edge: over any run, the `Rise` edges the watcher
/// reports are exactly the false-to-true transitions of the samples, and the
/// `Fall` edges exactly the true-to-false transitions.
pub proof fn lemma_action_counts(init: bool, samples: Seq<bool>)
    ensures
        count_edges(edges_of(init, samples), Edge::Rise) == rise_count(init, samples),
        count_edges(edges_of(init, samples), Edge::Fall) == fall_count(init, samples),
    decreases samples.len(),
{
    if samples.len() > 0 {
        lemma_action_counts(samples[0], samples.skip(1));
        assert(edges_of(init, samples).skip(1) =~= edges_of(samples[0], samples.skip(1)));
    }
}

/// Holding a steady sample for one more tick changes nothing: repeating the
/// value the watcher already recorded, at any point of the run, leaves both
/// edge counts as they were.  The display is reconfigured once per rising
/// edge and restored once per falling edge, regardless of how many ticks the
/// process stays present or absent.
pub proof fn lemma_steady_tick_no_action(init: bool, samples: Seq<bool>, i: int)
    requires
        0 <= i <= samples.len(),
    ensures
        rise_count(init, samples.insert(i, if i == 0 {
            init
        } else {
            samples[i - 1]
        })) == rise_count(init, samples),
        fall_count(init, samples.insert(i, if i == 0 {
            init
        } else {
            samples[i - 1]
        })) == fall_count(init, samples),
    decreases samples.len(),
{
    let prev = if i == 0 {
        init
    } else {
        samples[i - 1]
    };
    let stretched = samples.insert(i, prev);
    if i == 0 {
        assert(stretched.skip(1) =~= samples);
    } else {
        assert(stretched[0] == samples[0]);
        assert(stretched.skip(1) =~= samples.skip(1).insert(i - 1, if i - 1 == 0 {
            samples[0]
        } else {
            samples.skip(1)[i - 2]
        }));
        lemma_steady_tick_no_action(samples[0], samples.skip(1), i - 1);
    }
}

} // verus!
