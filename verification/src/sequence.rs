//! A whole boot sequence: the boot attempts tried in plan order, stopping at
//! the first success, at a stop request or at a virtualization failure, and
//! the outcome recorded in the launch status.

use vstd::prelude::*;

use crate::attempt::{cancelled_error, cancelled_text};
use crate::diagnostics::{limit_tail_chars, tail_limited};
use crate::launch::{
    gpu_name, gpu_text, launch_plans, planned_attempts, planned_cores, planned_ram, AttemptPlan,
    ProfileSettings,
};
use crate::status::{is_idle, mark_launch_error, LaunchStatus};
use crate::text::{
    ascii_lower, ascii_lower_chars, chars_eq_str, contains, contains_str, join, join_chars,
    lemma_char_vec_deep_view, push_chars, push_str, str_chars, string_from_chars,
};

verus! {

broadcast use lemma_char_vec_deep_view;

/// What the caller must do after an attempt, in order.
pub enum SequenceAction {
    /// Append a line to the engine log.
    Log(String),
    /// Mark the launch ready in the launch status.
    MarkReady,
    /// Wait this many milliseconds.
    Sleep(u64),
}

/// What comes next in a boot sequence.
pub enum NextStep {
    /// Run the attempt at this position with this plan.
    Attempt(usize, AttemptPlan),
    /// The sequence is over with this result.
    Finish(Result<(), String>),
}

/// The boot attempts of one start request.
pub struct BootSequence {
    /// The settings every attempt runs with.
    pub settings: ProfileSettings,
    /// The attempts, in the order they are tried.
    pub plans: Vec<AttemptPlan>,
    /// The emulator version, for the final report.
    pub version: String,
    /// The position of the next attempt.
    pub next: usize,
    /// The failure report of each attempt made so far.
    pub failures: Vec<String>,
    /// A failure ended the fallbacks early.
    pub stopped: bool,
}

pub enum SequenceActionView {
    Log(Seq<char>),
    MarkReady,
    Sleep(u64),
}

pub open spec fn sequence_action_view(a: SequenceAction) -> SequenceActionView {
    match a {
        SequenceAction::Log(s) => SequenceActionView::Log(s@),
        SequenceAction::MarkReady => SequenceActionView::MarkReady,
        SequenceAction::Sleep(ms) => SequenceActionView::Sleep(ms),
    }
}

pub open spec fn sequence_actions_view(v: Seq<SequenceAction>) -> Seq<SequenceActionView> {
    v.map_values(|a: SequenceAction| sequence_action_view(a))
}

impl BootSequence {
    /// Every attempt made so far failed and left its report.
    pub open spec fn wf(self) -> bool {
        &&& self.next <= self.plans@.len()
        &&& self.failures@.len() == self.next
    }

    /// More attempts remain to be tried.
    pub open spec fn has_more(self) -> bool {
        !self.stopped && self.next < self.plans@.len()
    }

    /// The report of a sequence whose attempts all failed.
    pub open spec fn failure_report(self) -> Seq<char> {
        "Todas as tentativas de boot falharam com Emulator "@ + self.version@ + ". "@
            + tail_limited(join(self.failures.deep_view(), " | "@), 5200)
    }
}

/// An attempt failure that no other graphics mode can avoid: the hypervisor
/// itself failed.
pub open spec fn is_virtualization_failure(error: Seq<char>) -> bool {
    contains(ascii_lower(error), "falha de virtualiza\u{e7}\u{e3}o/whpx"@)
}

/// The log line recording a successful boot.
pub open spec fn success_log_text(serial: Seq<char>, plan: AttemptPlan) -> Seq<char> {
    "boot_success serial="@ + serial + " gpu="@ + gpu_text(plan.gpu)
}

/// The log line that opens a boot sequence.
pub open spec fn sequence_log_text(version: Seq<char>) -> Seq<char> {
    "NOVA boot engine \u{b7} emulator="@ + version
}

/// The log line that opens a boot sequence.
pub fn sequence_log_line(version: &str) -> (res: String)
    ensures
        res@ == sequence_log_text(version@),
{
    let mut out: Vec<char> = Vec::new();
    push_str(&mut out, "NOVA boot engine \u{b7} emulator=");
    push_str(&mut out, version);
    string_from_chars(out.as_slice())
}

/// Whether an attempt failure is a virtualization failure.
pub fn virtualization_failure(error: &str) -> (r: bool)
    ensures
        r == is_virtualization_failure(error@),
{
    let lower = ascii_lower_chars(&str_chars(error));
    contains_str(&lower, "falha de virtualiza\u{e7}\u{e3}o/whpx")
}

impl BootSequence {
    /// The sequence for a start with `profile`, on a device that never booted
    /// when `first_boot`, with emulator version `version` (see `launch_plans`).
    pub fn new(profile: ProfileSettings, first_boot: bool, version: String) -> (res: Self)
        ensures
            res.wf(),
            res.next == 0,
            !res.stopped,
            res.version == version,
            res.settings.cores == planned_cores(profile.cores, first_boot),
            res.settings.ram_mb == planned_ram(profile.ram_mb, first_boot),
            res.settings.gpu_modes@ == profile.gpu_modes@,
            res.plans@ == planned_attempts(profile.gpu_modes@, first_boot),
    {
        let (settings, plans) = launch_plans(profile, first_boot);
        BootSequence { settings, plans, version, next: 0, failures: Vec::new(), stopped: false }
    }

    /// The report of a sequence whose attempts all failed.
    pub fn failure_message(&self) -> (res: String)
        ensures
            res@ == self.failure_report(),
    {
        let mut parts: Vec<Vec<char>> = Vec::new();
        let ghost fv = self.failures.deep_view();
        let mut k: usize = 0;
        while k < self.failures.len()
            invariant
                k <= self.failures.len(),
                fv == self.failures.deep_view(),
                parts.deep_view() == fv.subrange(0, k as int),
            decreases self.failures.len() - k,
        {
            let ghost before = parts.deep_view();
            parts.push(str_chars(self.failures[k].as_str()));
            k = k + 1;
            assert(parts.deep_view() =~= before.push(fv[k - 1]));
            assert(fv.subrange(0, k as int) =~= fv.subrange(0, k - 1).push(fv[k - 1]));
        }
        assert(fv.subrange(0, fv.len() as int) =~= fv);
        let sep = str_chars(" | ");
        let joined = join_chars(&parts, &sep);
        let limited = limit_tail_chars(joined, 5200);
        let mut out: Vec<char> = Vec::new();
        push_str(&mut out, "Todas as tentativas de boot falharam com Emulator ");
        push_str(&mut out, self.version.as_str());
        push_str(&mut out, ". ");
        push_chars(&mut out, &limited);
        string_from_chars(out.as_slice())
    }

    /// What comes next: while attempts remain, a stop request ends the
    /// sequence as cancelled and otherwise the next attempt runs; when none
    /// remain the sequence fails with its report.
    pub fn next_step(&self, cancelled: bool) -> (res: NextStep)
        requires
            self.wf(),
        ensures
            self.has_more() && cancelled ==> (res matches NextStep::Finish(Err(e))
                && e@ == cancelled_text()),
            self.has_more() && !cancelled ==> (res matches NextStep::Attempt(i, plan)
                && i == self.next && plan == self.plans@[self.next as int]),
            !self.has_more() ==> (res matches NextStep::Finish(Err(e))
                && e@ == self.failure_report()),
    {
        if !self.stopped && self.next < self.plans.len() {
            if cancelled {
                NextStep::Finish(Err(cancelled_error()))
            } else {
                NextStep::Attempt(self.next, self.plans[self.next])
            }
        } else {
            NextStep::Finish(Err(self.failure_message()))
        }
    }

    /// Records the result of the current attempt. A boot logs its success,
    /// marks the launch ready and ends the sequence; a stop request ends it as
    /// cancelled; any other failure is logged and kept, and the next attempt
    /// follows after two seconds unless the failure was a virtualization
    /// failure, which ends the fallbacks.
    pub fn record(&mut self, result: Result<String, String>) -> (res: (
        Vec<SequenceAction>,
        Option<Result<(), String>>,
    ))
        requires
            old(self).wf(),
            old(self).has_more(),
        ensures
            final(self).wf(),
            final(self).plans@ == old(self).plans@,
            final(self).version == old(self).version,
            final(self).settings == old(self).settings,
            match result {
                Ok(serial) => {
                    &&& sequence_actions_view(res.0@) == seq![
                        SequenceActionView::Log(
                            success_log_text(serial@, old(self).plans@[old(self).next as int]),
                        ),
                        SequenceActionView::MarkReady,
                    ]
                    &&& res.1 == Some(Ok::<(), String>(()))
                    &&& final(self).next == old(self).next
                    &&& final(self).failures@ == old(self).failures@
                    &&& final(self).stopped == old(self).stopped
                },
                Err(e) => if e@ == cancelled_text() {
                    &&& res.0@.len() == 0
                    &&& res.1 matches Some(Err(x)) && x@ == cancelled_text()
                    &&& final(self).next == old(self).next
                    &&& final(self).failures@ == old(self).failures@
                    &&& final(self).stopped == old(self).stopped
                } else {
                    &&& sequence_actions_view(res.0@) == (if is_virtualization_failure(e@) {
                        seq![SequenceActionView::Log("attempt_failed "@ + e@)]
                    } else {
                        seq![
                            SequenceActionView::Log("attempt_failed "@ + e@),
                            SequenceActionView::Sleep(2000),
                        ]
                    })
                    &&& res.1 is None
                    &&& final(self).next == old(self).next + 1
                    &&& final(self).failures.deep_view() == old(self).failures.deep_view().push(e@)
                    &&& final(self).stopped == is_virtualization_failure(e@)
                },
            },
    {
        let mut actions: Vec<SequenceAction> = Vec::new();
        match result {
            Ok(serial) => {
                let plan = self.plans[self.next];
                let mut line: Vec<char> = Vec::new();
                push_str(&mut line, "boot_success serial=");
                push_str(&mut line, serial.as_str());
                push_str(&mut line, " gpu=");
                push_str(&mut line, gpu_name(plan.gpu));
                let ghost lv = line@;
                actions.push(SequenceAction::Log(string_from_chars(line.as_slice())));
                actions.push(SequenceAction::MarkReady);
                assert(sequence_actions_view(actions@) =~= seq![
                    SequenceActionView::Log(lv),
                    SequenceActionView::MarkReady,
                ]);
                (actions, Some(Ok(())))
            },
            Err(e) => {
                let ec = str_chars(e.as_str());
                if chars_eq_str(&ec, "__cancelled__") {
                    return (actions, Some(Err(e)));
                }
                let mut line: Vec<char> = Vec::new();
                push_str(&mut line, "attempt_failed ");
                push_str(&mut line, e.as_str());
                let ghost lv = line@;
                actions.push(SequenceAction::Log(string_from_chars(line.as_slice())));
                let stop = virtualization_failure(e.as_str());
                let ghost ev = e@;
                let ghost before = self.failures.deep_view();
                self.failures.push(e);
                assert(self.failures.deep_view() =~= before.push(ev));
                let plan_count = self.plans.len();
                assert(self.next < plan_count);
                self.next = self.next + 1;
                if stop {
                    self.stopped = true;
                    assert(sequence_actions_view(actions@) =~= seq![SequenceActionView::Log(lv)]);
                } else {
                    actions.push(SequenceAction::Sleep(2000));
                    assert(sequence_actions_view(actions@) =~= seq![
                        SequenceActionView::Log(lv),
                        SequenceActionView::Sleep(2000),
                    ]);
                }
                (actions, None)
            },
        }
    }
}

/// Records the end of a boot sequence in the launch status: success leaves it
/// as the sequence left it, a stop request returns it to idle, any other
/// failure marks the launch failed with that error.
pub fn finish_launch(status: &mut LaunchStatus, result: Result<(), String>)
    ensures
        result is Ok ==> *final(status) == *old(status),
        result matches Err(e) && e@ == cancelled_text() ==> is_idle(*final(status)),
        result is Err && result->Err_0@ != cancelled_text() ==> {
            &&& !final(status).in_progress
            &&& !final(status).cancel_requested
            &&& final(status).stage@ == "error"@
            &&& final(status).last_error == Some(result->Err_0)
            &&& final(status).pid is None
            &&& final(status).serial == old(status).serial
            &&& final(status).port == old(status).port
        },
{
    match result {
        Ok(()) => {},
        Err(e) => {
            let ec = str_chars(e.as_str());
            if chars_eq_str(&ec, "__cancelled__") {
                *status = LaunchStatus::default();
            } else {
                mark_launch_error(status, e);
            }
        },
    }
}

} // verus!
