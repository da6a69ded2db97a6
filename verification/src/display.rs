//! Display modes and the two-phase (test-then-commit) mode change protocol.
//!
//! The OS display API is driven from outside the library; here live the value
//! types, the exact interpretation of the API's result codes, and the protocol
//! state machine that guarantees a mode is committed only after the driver has
//! accepted it in a test pass.

use vstd::prelude::*;

verus! {

/// Result code the display API returns when a change succeeds.
pub const DISP_CHANGE_SUCCESSFUL: i32 = 0;
/// Result code: the change was accepted but needs a restart to take effect.
pub const DISP_CHANGE_RESTART: i32 = 1;
/// Result code: the display driver failed the requested mode.
pub const DISP_CHANGE_FAILED: i32 = -1;
/// Result code: the requested graphics mode is not supported.
pub const DISP_CHANGE_BADMODE: i32 = -2;

/// A display mode: resolution, refresh rate, optional colour depth, and the
/// device name of the monitor it targets (empty means the primary output).
#[derive(Debug)]
pub struct DisplayMode {
    pub width: u32,
    pub height: u32,
    pub refresh_rate: u32,
    pub bits_per_pixel: Option<u32>,
    pub monitor_name: String,
}

impl Clone for DisplayMode {
    fn clone(&self) -> (r: Self)
        ensures
            r == *self,
    {
        DisplayMode {
            width: self.width,
            height: self.height,
            refresh_rate: self.refresh_rate,
            bits_per_pixel: self.bits_per_pixel,
            monitor_name: self.monitor_name.clone(),
        }
    }
}

impl DisplayMode {
    /// True when the mode targets the primary output rather than a named monitor.
    pub fn targets_primary(&self) -> (r: bool)
        ensures
            r == (self.monitor_name@.len() == 0),
    {
        self.monitor_name.as_str().is_empty()
    }
}

impl Default for DisplayMode {
    fn default() -> (r: Self)
        ensures
            r.width == 0,
            r.height == 0,
            r.refresh_rate == 0,
            r.bits_per_pixel is None,
            r.monitor_name@.len() == 0,
    {
        DisplayMode {
            width: 0,
            height: 0,
            refresh_rate: 0,
            bits_per_pixel: None,
            monitor_name: String::new(),
        }
    }
}

/// Why a display mode change was refused.
#[derive(Clone, Copy, Debug, PartialEq, Eq, Structural)]
pub enum ChangeReason {
    /// The driver rejected the mode in the test pass; nothing was applied.
    TestRejected,
    /// The mode was applied but the system must restart for it to take effect.
    RestartRequired,
    /// The hardware does not support the requested graphics mode.
    BadMode,
    /// The display driver failed.
    DriverFailed,
    /// Any other result code.
    Unknown,
}

/// Errors of the display layer.
#[derive(Clone, Copy, Debug, PartialEq, Eq, Structural)]
pub enum DisplayError {
    /// The OS could not enumerate display settings.
    EnumFailed,
    /// A mode change was refused, with the reason.
    ChangeFailed(ChangeReason),
    /// No advertised mode matches the requested one.
    ModeNotFound,
}

/// The reason that a commit-phase result code stands for, for codes that are
/// not success.
pub open spec fn spec_commit_failure(code: i32) -> ChangeReason {
    if code == DISP_CHANGE_RESTART {
        ChangeReason::RestartRequired
    } else if code == DISP_CHANGE_BADMODE {
        ChangeReason::BadMode
    } else if code == DISP_CHANGE_FAILED {
        ChangeReason::DriverFailed
    } else {
        ChangeReason::Unknown
    }
}

/// Interprets the result code of the commit pass of a mode change.
pub fn interpret_commit_result(code: i32) -> (r: Result<(), DisplayError>)
    ensures
        r is Ok <==> code == DISP_CHANGE_SUCCESSFUL,
        code == DISP_CHANGE_SUCCESSFUL ==> r == Result::<(), DisplayError>::Ok(()),
        code != DISP_CHANGE_SUCCESSFUL ==> r == Result::<(), DisplayError>::Err(
            DisplayError::ChangeFailed(spec_commit_failure(code)),
        ),
{
    if code == DISP_CHANGE_SUCCESSFUL {
        Ok(())
    } else if code == DISP_CHANGE_RESTART {
        Err(DisplayError::ChangeFailed(ChangeReason::RestartRequired))
    } else if code == DISP_CHANGE_BADMODE {
        Err(DisplayError::ChangeFailed(ChangeReason::BadMode))
    } else if code == DISP_CHANGE_FAILED {
        Err(DisplayError::ChangeFailed(ChangeReason::DriverFailed))
    } else {
        Err(DisplayError::ChangeFailed(ChangeReason::Unknown))
    }
}

/// Interprets the result code of the test pass of a mode change: any code
/// other than success means the driver rejected the mode, and nothing may be
/// applied.
pub fn interpret_test_result(code: i32) -> (r: Result<(), DisplayError>)
    ensures
        r is Ok <==> code == DISP_CHANGE_SUCCESSFUL,
        code != DISP_CHANGE_SUCCESSFUL ==> r == Result::<(), DisplayError>::Err(
            DisplayError::ChangeFailed(ChangeReason::TestRejected),
        ),
{
    if code == DISP_CHANGE_SUCCESSFUL {
        Ok(())
    } else {
        Err(DisplayError::ChangeFailed(ChangeReason::TestRejected))
    }
}

/// Interprets the result code of a restore-to-defaults call.
pub fn interpret_restore_result(code: i32) -> (r: Result<(), DisplayError>)
    ensures
        r is Ok <==> code == DISP_CHANGE_SUCCESSFUL,
        code != DISP_CHANGE_SUCCESSFUL ==> r == Result::<(), DisplayError>::Err(
            DisplayError::ChangeFailed(spec_commit_failure(code)),
        ),
{
    interpret_commit_result(code)
}

/// Which OS call a mode change session asks for next.
#[derive(Clone, Copy, Debug, PartialEq, Eq, Structural)]
pub enum DisplayCall {
    /// Validate the mode against the driver without applying it.
    TestCall,
    /// Apply the mode, as a session-only or a persisted change.
    CommitCall,
}

/// Where a mode change session stands.
#[derive(Clone, Copy, Debug)]
pub enum ChangePhase {
    /// The mode still has to pass the driver's test.
    Testing,
    /// The test passed; the mode may be applied.
    Committing,
    /// The session ended with this outcome.
    Done(Result<(), DisplayError>),
}

/// The phase after feeding one OS result code to a session in phase `p`.
pub open spec fn spec_change_step(p: ChangePhase, code: i32) -> ChangePhase {
    match p {
        ChangePhase::Testing => {
            if code == DISP_CHANGE_SUCCESSFUL {
                ChangePhase::Committing
            } else {
                ChangePhase::Done(Err(DisplayError::ChangeFailed(ChangeReason::TestRejected)))
            }
        },
        ChangePhase::Committing => {
            if code == DISP_CHANGE_SUCCESSFUL {
                ChangePhase::Done(Ok(()))
            } else {
                ChangePhase::Done(Err(DisplayError::ChangeFailed(spec_commit_failure(code))))
            }
        },
        ChangePhase::Done(r) => ChangePhase::Done(r),
    }
}

/// The OS call a phase asks for, if any.
pub open spec fn spec_change_call(p: ChangePhase) -> Option<DisplayCall> {
    match p {
        ChangePhase::Testing => Some(DisplayCall::TestCall),
        ChangePhase::Committing => Some(DisplayCall::CommitCall),
        ChangePhase::Done(_) => None,
    }
}

/// The phase a fresh session reaches after the result codes `codes`, fed in
/// order.
pub open spec fn spec_change_run(codes: Seq<i32>) -> ChangePhase
    decreases codes.len(),
{
    if codes.len() == 0 {
        ChangePhase::Testing
    } else {
        spec_change_step(spec_change_run(codes.drop_last()), codes.last())
    }
}

/// One two-phase mode change: the requested mode is validated by a test call
/// first, and only a mode the driver accepted in the test pass is ever
/// committed.  The session tells its driver loop which OS call to make next;
/// the loop feeds each result code back.
pub struct ModeChange {
    /// The requested mode.
    pub mode: DisplayMode,
    /// Whether the commit writes the mode back as the persistent default.
    pub permanent: bool,
    /// Where the session stands.
    pub phase: ChangePhase,
    /// Whether the driver has accepted the mode in the test pass.
    pub test_passed: Ghost<bool>,
}

impl ModeChange {
    /// A session never commits, and never ends successfully, unless the
    /// driver accepted the mode in the test pass.
    pub open spec fn wf(self) -> bool {
        (self.phase == ChangePhase::Committing ==> self.test_passed@) && (self.phase
            == ChangePhase::Done(Ok::<(), DisplayError>(())) ==> self.test_passed@)
    }

    /// Opens a session for one mode; nothing has been asked of the OS yet.
    pub fn begin(mode: DisplayMode, permanent: bool) -> (s: Self)
        ensures
            s.mode == mode,
            s.permanent == permanent,
            s.phase == ChangePhase::Testing,
            !s.test_passed@,
            s.wf(),
    {
        ModeChange { mode, permanent, phase: ChangePhase::Testing, test_passed: Ghost(false) }
    }

    /// The OS call to make next: the test pass first, the commit only once
    /// the test has passed, nothing once the session is done.
    pub fn next_call(&self) -> (c: Option<DisplayCall>)
        ensures
            c == spec_change_call(self.phase),
            c == Some(DisplayCall::CommitCall) ==> self.wf() ==> self.test_passed@,
    {
        match self.phase {
            ChangePhase::Testing => Some(DisplayCall::TestCall),
            ChangePhase::Committing => Some(DisplayCall::CommitCall),
            ChangePhase::Done(_) => None,
        }
    }

    /// Feeds the result code of the call back.  A failed test ends the
    /// session before anything was applied; a commit result ends it with the
    /// commit's outcome.
    pub fn on_result(&mut self, code: i32)
        requires
            old(self).wf(),
        ensures
            final(self).wf(),
            final(self).phase == spec_change_step(old(self).phase, code),
            final(self).mode == old(self).mode,
            final(self).permanent == old(self).permanent,
            old(self).phase == ChangePhase::Testing && code == DISP_CHANGE_SUCCESSFUL ==> final(
                self).test_passed@,
            old(self).phase == ChangePhase::Testing && code != DISP_CHANGE_SUCCESSFUL ==> final(
                self).test_passed@ == old(self).test_passed@,
    {
        match self.phase {
            ChangePhase::Testing => {
                if code == DISP_CHANGE_SUCCESSFUL {
                    proof {
                        self.test_passed@ = true;
                    }
                    self.phase = ChangePhase::Committing;
                } else {
                    self.phase = ChangePhase::Done(
                        Err(DisplayError::ChangeFailed(ChangeReason::TestRejected)),
                    );
                }
            },
            ChangePhase::Committing => {
                let outcome = interpret_commit_result(code);
                self.phase = ChangePhase::Done(outcome);
            },
            ChangePhase::Done(_) => {},
        }
    }

    /// The session's outcome, once it is done.
    pub fn outcome(&self) -> (r: Option<Result<(), DisplayError>>)
        ensures
            r == match self.phase {
                ChangePhase::Done(o) => Some(o),
                _ => None::<Result<(), DisplayError>>,
            },
    {
        match self.phase {
            ChangePhase::Done(o) => Some(o),
            _ => None,
        }
    }
}

/// A mode for which the test pass failed is never applied: whatever result
/// codes the OS returns, a session asks for the commit call only right after
/// its very first code — the test result — was a success, and a failed test
/// ends the session at once with the test rejection, no commit issued.
pub proof fn lemma_no_commit_without_test_pass(codes: Seq<i32>)
    requires
        spec_change_call(spec_change_run(codes)) == Some(DisplayCall::CommitCall),
    ensures
        codes.len() == 1,
        codes[0] == DISP_CHANGE_SUCCESSFUL,
    decreases codes.len(),
{
    if codes.len() > 1 {
        let prev = spec_change_run(codes.drop_last());
        assert(spec_change_run(codes) == spec_change_step(prev, codes.last()));
        match prev {
            ChangePhase::Testing => {
                assert(codes.drop_last().len() >= 1);
                lemma_run_from_testing_is_start(codes.drop_last());
            },
            ChangePhase::Committing => {},
            ChangePhase::Done(_) => {},
        }
    }
}

/// Once any code was fed, a session is never back at the test phase.
proof fn lemma_run_from_testing_is_start(codes: Seq<i32>)
    requires
        codes.len() > 0,
    ensures
        spec_change_run(codes) != ChangePhase::Testing,
    decreases codes.len(),
{
}

/// A failed test ends the session with the rejection and no commit request.
pub proof fn lemma_failed_test_ends_session(code: i32)
    requires
        code != DISP_CHANGE_SUCCESSFUL,
    ensures
        spec_change_step(ChangePhase::Testing, code) == ChangePhase::Done(
            Err::<(), DisplayError>(DisplayError::ChangeFailed(ChangeReason::TestRejected)),
        ),
        spec_change_call(spec_change_step(ChangePhase::Testing, code)) is None,
{
}

/// Picks the first advertised mode whose width, height and refresh rate equal
/// the requested ones, where exact matching is required; reports that no mode
/// matches otherwise.
pub fn find_mode(modes: &Vec<DisplayMode>, width: u32, height: u32, refresh_rate: u32) -> (r:
    Result<usize, DisplayError>)
    ensures
        match r {
            Ok(i) => 0 <= i < modes@.len() && modes@[i as int].width == width && modes@[
                i as int
            ].height == height && modes@[i as int].refresh_rate == refresh_rate && forall|j: int|
                0 <= j < i ==> !(modes@[j].width == width && modes@[j].height == height && modes@[
                    j
                ].refresh_rate == refresh_rate),
            Err(e) => e == DisplayError::ModeNotFound && forall|j: int|
                0 <= j < modes@.len() ==> !(modes@[j].width == width && modes@[j].height == height
                    && modes@[j].refresh_rate == refresh_rate),
        },
{
    let n = modes.len();
    let mut i: usize = 0;
    while i < n
        invariant
            n == modes@.len(),
            i <= n,
            forall|j: int|
                0 <= j < i ==> !(modes@[j].width == width && modes@[j].height == height && modes@[
                    j
                ].refresh_rate == refresh_rate),
        decreases n - i,
    {
        if modes[i].width == width && modes[i].height == height && modes[i].refresh_rate
            == refresh_rate {
            return Ok(i);
        }
        i += 1;
    }
    Err(DisplayError::ModeNotFound)
}

} // verus!
