//! The voice assistant's phase machine: idle, entrance audio after a clap,
//! acknowledging the wake word, waiting for a command (with a deadline) and
//! executing it. Time is passed in as milliseconds of a monotonic clock.

use vstd::prelude::*;
use vstd::string::*;
use crate::text::{chars_of, string_of, strip_prefix, strip_prefix_str, trim, trim_chars};

verus! {

#[derive(Debug, Clone, Copy, PartialEq, Eq, Structural)]
pub enum VoicePhase {
    Idle,
    Entrance,
    Acknowledging,
    AwaitingCommand,
    Executing,
}

/// How long the assistant waits for a command after being woken.
pub const VOICE_COMMAND_TIMEOUT_MS: u64 = 12_000;

/// What a transition asks the caller to stop.
#[derive(Debug, Clone, Copy, PartialEq, Eq, Structural)]
pub struct TransitionEffects {
    pub stop_entrance: bool,
    pub stop_tts: bool,
}

/// The current phase and the time at which it falls back to idle, if any.
#[derive(Debug, Clone, Copy, PartialEq, Eq, Structural)]
pub struct VoiceState {
    pub phase: VoicePhase,
    pub deadline: Option<u64>,
}

/// The state as seen at `now`: a passed deadline means idle.
pub open spec fn at(s: VoiceState, now: u64) -> VoiceState {
    match s.deadline {
        Some(d) if now >= d => VoiceState { phase: VoicePhase::Idle, deadline: None },
        _ => s,
    }
}

/// The deadline `timeout` milliseconds after `now`.
pub open spec fn deadline_after(now: u64, timeout: Option<u64>) -> Option<u64> {
    match timeout {
        Some(ms) => Some((now + ms) as u64),
        None => None,
    }
}

/// A timeout that can be added to `now` without overflow.
pub open spec fn timeout_fits(now: u64, timeout: Option<u64>) -> bool {
    match timeout {
        Some(ms) => now + ms <= u64::MAX,
        None => true,
    }
}

/// Only the command window carries a deadline.
pub open spec fn well_formed(s: VoiceState) -> bool {
    s.deadline is Some ==> s.phase == VoicePhase::AwaitingCommand
}

/// The state after a clap: the entrance starts from idle.
pub open spec fn clap_next(s: VoiceState, now: u64) -> VoiceState {
    if at(s, now).phase == VoicePhase::Idle {
        VoiceState { phase: VoicePhase::Entrance, deadline: None }
    } else {
        at(s, now)
    }
}

/// The command window, opened at `now`.
pub open spec fn command_window(now: u64) -> VoiceState {
    VoiceState {
        phase: VoicePhase::AwaitingCommand,
        deadline: Some((now + VOICE_COMMAND_TIMEOUT_MS) as u64),
    }
}

/// The state after the entrance: the command window opens.
pub open spec fn arm_next(s: VoiceState, now: u64) -> VoiceState {
    if at(s, now).phase == VoicePhase::Entrance {
        command_window(now)
    } else {
        at(s, now)
    }
}

/// The state after the wake word: acknowledging, from idle or the entrance.
pub open spec fn wake_next(s: VoiceState, now: u64) -> VoiceState {
    let from = at(s, now).phase;
    if from == VoicePhase::Idle || from == VoicePhase::Entrance {
        VoiceState { phase: VoicePhase::Acknowledging, deadline: None }
    } else {
        at(s, now)
    }
}

/// What the wake word stops: the entrance, if it was playing.
pub open spec fn wake_effects(s: VoiceState, now: u64) -> Option<TransitionEffects> {
    let from = at(s, now).phase;
    if from == VoicePhase::Idle || from == VoicePhase::Entrance {
        Some(TransitionEffects { stop_entrance: from == VoicePhase::Entrance, stop_tts: false })
    } else {
        None
    }
}

/// The state after the acknowledgement: the command window opens.
pub open spec fn ack_done_next(s: VoiceState, now: u64) -> VoiceState {
    if at(s, now).phase == VoicePhase::Acknowledging {
        command_window(now)
    } else {
        at(s, now)
    }
}

/// The state when a command starts: executing, unless one already runs.
pub open spec fn command_next(s: VoiceState, now: u64) -> VoiceState {
    if at(s, now).phase != VoicePhase::Executing {
        VoiceState { phase: VoicePhase::Executing, deadline: None }
    } else {
        at(s, now)
    }
}

/// What a starting command stops: the entrance or the acknowledgement speech.
pub open spec fn command_effects(s: VoiceState, now: u64) -> Option<TransitionEffects> {
    let from = at(s, now).phase;
    if from != VoicePhase::Executing {
        Some(
            TransitionEffects {
                stop_entrance: from == VoicePhase::Entrance,
                stop_tts: from == VoicePhase::Acknowledging,
            },
        )
    } else {
        None
    }
}

/// The idle state.
pub open spec fn idle_state() -> VoiceState {
    VoiceState { phase: VoicePhase::Idle, deadline: None }
}

impl VoiceState {
    pub fn idle() -> (s: VoiceState)
        ensures
            s == (VoiceState { phase: VoicePhase::Idle, deadline: None }),
    {
        VoiceState { phase: VoicePhase::Idle, deadline: None }
    }

    /// Falls back to idle once the deadline has passed.
    pub fn normalize(&mut self, now: u64)
        ensures
            *final(self) == at(*old(self), now),
    {
        if let Some(deadline) = self.deadline {
            if now >= deadline {
                self.phase = VoicePhase::Idle;
                self.deadline = None;
            }
        }
    }

    /// The state at `now`, normalised in place.
    pub fn snapshot(&mut self, now: u64) -> (r: VoiceState)
        ensures
            *final(self) == at(*old(self), now),
            r == at(*old(self), now),
    {
        self.normalize(now);
        *self
    }

    /// Enters `phase`, with a deadline `timeout_ms` from `now` if given.
    pub fn set_phase(&mut self, phase: VoicePhase, timeout_ms: Option<u64>, now: u64)
        requires
            timeout_fits(now, timeout_ms),
        ensures
            *final(self) == (VoiceState { phase, deadline: deadline_after(now, timeout_ms) }),
    {
        self.phase = phase;
        self.deadline = match timeout_ms {
            Some(ms) => Some(now + ms),
            None => None,
        };
    }

    /// Enters `phase` only from one of the `allowed` phases (seen at `now`);
    /// tells whether it did. A refused transition still expires the deadline.
    pub fn try_set_phase(&mut self, allowed: &[VoicePhase], phase: VoicePhase, timeout_ms: Option<u64>, now: u64) -> (r: bool)
        requires
            timeout_fits(now, timeout_ms),
        ensures
            r == allowed@.contains(at(*old(self), now).phase),
            r ==> *final(self) == (VoiceState { phase, deadline: deadline_after(now, timeout_ms) }),
            !r ==> *final(self) == at(*old(self), now),
    {
        self.normalize(now);
        let mut k: usize = 0;
        while k < allowed.len()
            invariant
                k <= allowed@.len(),
                *self == at(*old(self), now),
                timeout_fits(now, timeout_ms),
                forall|j: int| 0 <= j < k ==> allowed@[j] != self.phase,
            decreases allowed.len() - k,
        {
            if allowed[k] == self.phase {
                assert(allowed@[k as int] == self.phase);
                self.set_phase(phase, timeout_ms, now);
                return true;
            }
            k = k + 1;
        }
        false
    }

    /// Back to idle.
    pub fn reset(&mut self)
        ensures
            *final(self) == idle_state(),
    {
        self.set_phase(VoicePhase::Idle, None, 0);
    }

    /// A clap starts the entrance only from idle.
    pub fn begin_clap_session(&mut self, now: u64) -> (r: bool)
        ensures
            r == (at(*old(self), now).phase == VoicePhase::Idle),
            *final(self) == clap_next(*old(self), now),
    {
        let allowed = [VoicePhase::Idle];
        let r = self.try_set_phase(&allowed, VoicePhase::Entrance, None, now);
        assert(allowed@ =~= seq![VoicePhase::Idle]);
        r
    }

    /// After the entrance, the command window opens for the timeout.
    pub fn arm_command_window_after_clap(&mut self, now: u64)
        requires
            now + VOICE_COMMAND_TIMEOUT_MS <= u64::MAX,
        ensures
            *final(self) == arm_next(*old(self), now),
    {
        if self.snapshot(now).phase == VoicePhase::Entrance {
            self.set_phase(VoicePhase::AwaitingCommand, Some(VOICE_COMMAND_TIMEOUT_MS), now);
        }
    }

    /// The wake word is acknowledged from idle or during the entrance, which
    /// is then stopped.
    pub fn begin_wake_acknowledgement(&mut self, now: u64) -> (r: Option<TransitionEffects>)
        ensures
            r == wake_effects(*old(self), now),
            *final(self) == wake_next(*old(self), now),
    {
        let from_phase = self.snapshot(now).phase;
        let allowed = [VoicePhase::Idle, VoicePhase::Entrance];
        assert(allowed@ =~= seq![VoicePhase::Idle, VoicePhase::Entrance]);
        if self.try_set_phase(&allowed, VoicePhase::Acknowledging, None, now) {
            Some(TransitionEffects { stop_entrance: from_phase == VoicePhase::Entrance, stop_tts: false })
        } else {
            None
        }
    }

    /// After the acknowledgement, the command window opens for the timeout.
    pub fn finish_wake_acknowledgement(&mut self, now: u64)
        requires
            now + VOICE_COMMAND_TIMEOUT_MS <= u64::MAX,
        ensures
            *final(self) == ack_done_next(*old(self), now),
    {
        if self.snapshot(now).phase == VoicePhase::Acknowledging {
            self.set_phase(VoicePhase::AwaitingCommand, Some(VOICE_COMMAND_TIMEOUT_MS), now);
        }
    }

    /// A command runs from any phase but a running command; it stops the
    /// entrance or the acknowledgement speech that was playing.
    pub fn begin_voice_command(&mut self, now: u64) -> (r: Option<TransitionEffects>)
        ensures
            r == command_effects(*old(self), now),
            *final(self) == command_next(*old(self), now),
    {
        let from_phase = self.snapshot(now).phase;
        let allowed = [
            VoicePhase::Idle,
            VoicePhase::Entrance,
            VoicePhase::Acknowledging,
            VoicePhase::AwaitingCommand,
        ];
        assert(allowed@ =~= seq![
            VoicePhase::Idle,
            VoicePhase::Entrance,
            VoicePhase::Acknowledging,
            VoicePhase::AwaitingCommand,
        ]);
        assert(from_phase == VoicePhase::Executing ==> !allowed@.contains(from_phase));
        if self.try_set_phase(&allowed, VoicePhase::Executing, None, now) {
            Some(TransitionEffects {
                stop_entrance: from_phase == VoicePhase::Entrance,
                stop_tts: from_phase == VoicePhase::Acknowledging,
            })
        } else {
            None
        }
    }

    /// The command is done: back to idle.
    pub fn finish_voice_command(&mut self)
        ensures
            *final(self) == idle_state(),
    {
        self.set_phase(VoicePhase::Idle, None, 0);
    }
}

// ─── Laws ─────────────────────────────────────────────────────

/// Every transition keeps the rule that only the command window has a deadline.
pub proof fn law_transitions_keep_well_formed(s: VoiceState, now: u64)
    requires
        well_formed(s),
    ensures
        well_formed(at(s, now)),
        well_formed(clap_next(s, now)),
        well_formed(arm_next(s, now)),
        well_formed(wake_next(s, now)),
        well_formed(ack_done_next(s, now)),
        well_formed(command_next(s, now)),
        well_formed(idle_state()),
{
}

/// A command window that is not used within the timeout is idle again.
pub proof fn law_command_window_expires(now: u64, later: u64)
    requires
        now + VOICE_COMMAND_TIMEOUT_MS <= u64::MAX,
        later >= now + VOICE_COMMAND_TIMEOUT_MS,
    ensures
        at(command_window(now), later) == idle_state(),
{
}

/// Within the timeout the command window stays open.
pub proof fn law_command_window_holds(now: u64, later: u64)
    requires
        now + VOICE_COMMAND_TIMEOUT_MS <= u64::MAX,
        later < now + VOICE_COMMAND_TIMEOUT_MS,
    ensures
        at(command_window(now), later) == command_window(now),
{
}

/// While a command runs, no other command, clap or wake word takes over.
pub proof fn law_executing_is_exclusive(s: VoiceState, now: u64)
    requires
        well_formed(s),
        s.phase == VoicePhase::Executing,
    ensures
        command_next(s, now) == s,
        command_effects(s, now) is None,
        clap_next(s, now) == s,
        wake_next(s, now) == s,
        wake_effects(s, now) is None,
{
}

/// Clap, entrance, command and its end lead from idle back to idle; the
/// command stops nothing, since the entrance already gave way to the window.
pub proof fn law_clap_cycle(t0: u64, t1: u64, t2: u64)
    requires
        t1 + VOICE_COMMAND_TIMEOUT_MS <= u64::MAX,
        t2 < t1 + VOICE_COMMAND_TIMEOUT_MS,
    ensures
        clap_next(idle_state(), t0) == (VoiceState { phase: VoicePhase::Entrance, deadline: None }),
        arm_next(clap_next(idle_state(), t0), t1) == command_window(t1),
        command_effects(command_window(t1), t2) == Some(
            TransitionEffects { stop_entrance: false, stop_tts: false },
        ),
        command_next(command_window(t1), t2) == (VoiceState { phase: VoicePhase::Executing, deadline: None }),
{
}

// ─── Speech recogniser and synthesiser ───────────────────────

/// What one line of the speech-recognition worker means: a transcript
/// ("TEXT:" with non-empty text, trimmed), an error ("ERROR:" and its
/// trimmed message), or nothing to act on (status lines, empty transcripts).
pub open spec fn listen_line_of(line: Seq<char>) -> Option<Result<Seq<char>, Seq<char>>> {
    let t = trim(line);
    match strip_prefix(t, "TEXT:"@) {
        Some(x) if trim(x).len() > 0 => Some(Ok(trim(x))),
        _ => match strip_prefix(t, "ERROR:"@) {
            Some(e) => Some(Err(trim(e))),
            None => None,
        },
    }
}

/// Reads one line of the recognition worker; `None` means: read the next.
pub fn listen_line(line: &str) -> (r: Option<Result<String, String>>)
    ensures
        match (r, listen_line_of(line@)) {
            (Some(Ok(a)), Some(Ok(b))) => a@ == b,
            (Some(Err(a)), Some(Err(b))) => a@ == b,
            (None, None) => true,
            _ => false,
        },
{
    let t = trim_chars(&chars_of(line));
    match strip_prefix_str(&t, "TEXT:") {
        Some(x) => {
            let x = trim_chars(&x);
            if x.len() > 0 {
                return Some(Ok(string_of(&x)));
            }
        },
        None => {},
    }
    match strip_prefix_str(&t, "ERROR:") {
        Some(e) => Some(Err(string_of(&trim_chars(&e)))),
        None => None,
    }
}

/// Text is only spoken when it holds more than white space.
pub fn speech_text_check(text: &str) -> (r: Result<(), String>)
    ensures
        match r {
            Ok(()) => trim(text@).len() > 0,
            Err(m) => trim(text@).len() == 0 && m@ == "No text to speak"@,
        },
{
    if trim_chars(&chars_of(text)).len() == 0 {
        Err(String::from_str("No text to speak"))
    } else {
        Ok(())
    }
}

} // verus!
