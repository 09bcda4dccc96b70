//! One boot attempt, after its emulator was started: the decisions taken while
//! waiting for ADB to see the device and for Android to finish booting. The
//! caller observes the machine, performs the actions and reports events.

use vstd::prelude::*;

use crate::diagnostics::{classify_failure, failure_message};
use crate::launch::{gpu_name, gpu_text, GpuMode};
use crate::text::{decimal, push_decimal, push_str, string_from_chars};

verus! {

/// The error text of a boot that was stopped on request.
pub open spec fn cancelled_text() -> Seq<char> {
    "__cancelled__"@
}

/// The error text of a boot that was stopped on request.
pub fn cancelled_error() -> (res: String)
    ensures
        res@ == cancelled_text(),
{
    String::from_str("__cancelled__")
}

/// How the emulator process ended.
pub struct ChildExit {
    pub success: bool,
    /// The exit status as the system describes it.
    pub description: String,
}

/// What the caller reports to an attempt.
pub enum AttemptEvent {
    /// One round of waiting for ADB: whether a stop was requested, whether ADB
    /// shows the device online, and how the emulator process ended, if it did.
    AdbPoll { cancelled: bool, online: bool, exit: Option<ChildExit> },
    /// The wait for ADB is over (the device was seen, or the time ran out)
    /// and ADB was asked once more: whether it shows the device online now.
    AdbCheck { online: bool },
    /// One round of waiting for the boot: whether a stop was requested and
    /// whether Android reports the boot completed.
    BootPoll { cancelled: bool, booted: bool },
    /// The time for the boot has run out.
    BootDeadline,
    /// The diagnostic read from the attempt's logs.
    Diagnostics { details: String },
}

/// What the caller must do, in order.
pub enum AttemptAction {
    /// Set the launch status stage.
    SetStage(String),
    /// Append a line to the engine log.
    Log(String),
    /// Stop the emulator process and its children.
    KillProcessTree,
    /// Stop every emulator left running from the runtime.
    KillStaleEmulators,
    /// Ask ADB to stop the emulator.
    EmulatorKill,
    /// Wait this many milliseconds.
    Sleep(u64),
    /// Read the attempt's logs and report them as `Diagnostics`.
    ReadDiagnostics,
    /// Record the successful boot: write the boot marker, remove the process
    /// id file, record serial and port and forget the process id.
    MarkBooted,
}

/// Where an attempt stands.
pub enum AttemptPhase {
    WaitingAdb,
    /// ADB was seen online; the wait is over and awaits one more reading.
    ConfirmingAdb,
    Booting,
    /// The attempt failed and waits for its diagnostic; `kill_stale_after`
    /// tells whether stale emulators are stopped once it is read.
    AwaitingDiagnostics { label: String, kill_stale_after: bool },
    Finished,
}

/// The result of a step.
pub enum AttemptOutcome {
    Pending,
    Booted(String),
    Failed(String),
}

/// A boot attempt of the emulator with ADB serial `serial`.
pub struct AttemptMachine {
    pub gpu: GpuMode,
    pub serial: String,
    pub first_boot: bool,
    pub cold_boot: bool,
    pub handoff_logged: bool,
    pub phase: AttemptPhase,
}

// ---------------------------------------------------------------------------
// Views
// ---------------------------------------------------------------------------

pub enum ActionView {
    SetStage(Seq<char>),
    Log(Seq<char>),
    KillProcessTree,
    KillStaleEmulators,
    EmulatorKill,
    Sleep(u64),
    ReadDiagnostics,
    MarkBooted,
}

pub enum PhaseView {
    WaitingAdb,
    ConfirmingAdb,
    Booting,
    AwaitingDiagnostics { label: Seq<char>, kill_stale_after: bool },
    Finished,
}

pub enum OutcomeView {
    Pending,
    Booted(Seq<char>),
    Failed(Seq<char>),
}

pub struct ExitView {
    pub success: bool,
    pub description: Seq<char>,
}

pub enum EventView {
    AdbPoll { cancelled: bool, online: bool, exit: Option<ExitView> },
    AdbCheck { online: bool },
    BootPoll { cancelled: bool, booted: bool },
    BootDeadline,
    Diagnostics { details: Seq<char> },
}

pub struct MachineView {
    pub gpu: GpuMode,
    pub serial: Seq<char>,
    pub first_boot: bool,
    pub cold_boot: bool,
    pub handoff_logged: bool,
    pub phase: PhaseView,
}

pub open spec fn action_view(a: AttemptAction) -> ActionView {
    match a {
        AttemptAction::SetStage(s) => ActionView::SetStage(s@),
        AttemptAction::Log(s) => ActionView::Log(s@),
        AttemptAction::KillProcessTree => ActionView::KillProcessTree,
        AttemptAction::KillStaleEmulators => ActionView::KillStaleEmulators,
        AttemptAction::EmulatorKill => ActionView::EmulatorKill,
        AttemptAction::Sleep(ms) => ActionView::Sleep(ms),
        AttemptAction::ReadDiagnostics => ActionView::ReadDiagnostics,
        AttemptAction::MarkBooted => ActionView::MarkBooted,
    }
}

pub open spec fn actions_view(v: Seq<AttemptAction>) -> Seq<ActionView> {
    v.map_values(|a: AttemptAction| action_view(a))
}

pub open spec fn phase_view(p: AttemptPhase) -> PhaseView {
    match p {
        AttemptPhase::WaitingAdb => PhaseView::WaitingAdb,
        AttemptPhase::ConfirmingAdb => PhaseView::ConfirmingAdb,
        AttemptPhase::Booting => PhaseView::Booting,
        AttemptPhase::AwaitingDiagnostics { label, kill_stale_after } => {
            PhaseView::AwaitingDiagnostics { label: label@, kill_stale_after }
        },
        AttemptPhase::Finished => PhaseView::Finished,
    }
}

pub open spec fn outcome_view(o: AttemptOutcome) -> OutcomeView {
    match o {
        AttemptOutcome::Pending => OutcomeView::Pending,
        AttemptOutcome::Booted(s) => OutcomeView::Booted(s@),
        AttemptOutcome::Failed(s) => OutcomeView::Failed(s@),
    }
}

pub open spec fn event_view(e: AttemptEvent) -> EventView {
    match e {
        AttemptEvent::AdbPoll { cancelled, online, exit } => EventView::AdbPoll {
            cancelled,
            online,
            exit: match exit {
                Some(x) => Some(ExitView { success: x.success, description: x.description@ }),
                None => None,
            },
        },
        AttemptEvent::AdbCheck { online } => EventView::AdbCheck { online },
        AttemptEvent::BootPoll { cancelled, booted } => EventView::BootPoll { cancelled, booted },
        AttemptEvent::BootDeadline => EventView::BootDeadline,
        AttemptEvent::Diagnostics { details } => EventView::Diagnostics { details: details@ },
    }
}

pub open spec fn machine_view(m: AttemptMachine) -> MachineView {
    MachineView {
        gpu: m.gpu,
        serial: m.serial@,
        first_boot: m.first_boot,
        cold_boot: m.cold_boot,
        handoff_logged: m.handoff_logged,
        phase: phase_view(m.phase),
    }
}

// ---------------------------------------------------------------------------
// The transition relation
// ---------------------------------------------------------------------------

/// How long ADB may take to see the device, in seconds: longer for a first
/// boot or a cold boot.
pub open spec fn adb_wait_secs(first_boot: bool, cold_boot: bool) -> u64 {
    if first_boot || cold_boot {
        180
    } else {
        120
    }
}

/// How long Android may take to boot once ADB sees it, in seconds.
pub open spec fn boot_wait_secs(first_boot: bool) -> u64 {
    if first_boot {
        300
    } else {
        240
    }
}

/// The machine in phase `p`, the rest unchanged.
pub open spec fn with_phase(m: MachineView, p: PhaseView) -> MachineView {
    MachineView { phase: p, ..m }
}

/// The step on the last reading of ADB once the wait for it is over: the boot
/// wait begins when the device is online; else the emulator is stopped and
/// the attempt fails as timed out, once its diagnostic is read.
pub open spec fn adb_check_step(m: MachineView, online: bool) -> (
    MachineView,
    Seq<ActionView>,
    OutcomeView,
) {
    if online {
        (with_phase(m, PhaseView::Booting), Seq::<ActionView>::empty(), OutcomeView::Pending)
    } else {
        (
            with_phase(
                m,
                PhaseView::AwaitingDiagnostics {
                    label: "Emulator n\u{e3}o apareceu no ADB em "@ + decimal(
                        adb_wait_secs(m.first_boot, m.cold_boot) as nat,
                    ) + " segundos"@,
                    kill_stale_after: false,
                },
            ),
            seq![
                ActionView::KillProcessTree,
                ActionView::KillStaleEmulators,
                ActionView::Sleep(900),
                ActionView::ReadDiagnostics,
            ],
            OutcomeView::Pending,
        )
    }
}

/// One step of an attempt: the next machine, the actions to perform and the
/// outcome. Events that do not belong to the current phase change nothing.
pub open spec fn attempt_step(m: MachineView, e: EventView) -> (
    MachineView,
    Seq<ActionView>,
    OutcomeView,
) {
    match (m.phase, e) {
        (PhaseView::WaitingAdb, EventView::AdbPoll { cancelled, online, exit }) => {
            if cancelled {
                (
                    with_phase(m, PhaseView::Finished),
                    seq![ActionView::KillProcessTree, ActionView::KillStaleEmulators],
                    OutcomeView::Failed(cancelled_text()),
                )
            } else if online {
                (
                    with_phase(m, PhaseView::ConfirmingAdb),
                    seq![
                        ActionView::SetStage("booting:"@ + gpu_text(m.gpu)),
                        ActionView::Log("adb_online serial="@ + m.serial),
                    ],
                    OutcomeView::Pending,
                )
            } else if exit is Some && !exit->0.success {
                (
                    with_phase(
                        m,
                        PhaseView::AwaitingDiagnostics {
                            label: "emulator.exe encerrou com "@ + exit->0.description,
                            kill_stale_after: true,
                        },
                    ),
                    seq![ActionView::Sleep(700), ActionView::ReadDiagnostics],
                    OutcomeView::Pending,
                )
            } else if exit is Some && !m.handoff_logged {
                (
                    MachineView { handoff_logged: true, ..m },
                    seq![
                        ActionView::Log(
                            "emulator.exe retornou sucesso; aguardando poss\u{ed}vel QEMU filho/ADB"@,
                        ),
                        ActionView::Sleep(750),
                    ],
                    OutcomeView::Pending,
                )
            } else {
                (m, seq![ActionView::Sleep(750)], OutcomeView::Pending)
            }
        },
        (PhaseView::WaitingAdb, EventView::AdbCheck { online }) => adb_check_step(m, online),
        (PhaseView::ConfirmingAdb, EventView::AdbCheck { online }) => adb_check_step(m, online),
        (PhaseView::Booting, EventView::BootPoll { cancelled, booted }) => {
            if cancelled {
                (
                    with_phase(m, PhaseView::Finished),
                    seq![
                        ActionView::EmulatorKill,
                        ActionView::KillProcessTree,
                        ActionView::KillStaleEmulators,
                    ],
                    OutcomeView::Failed(cancelled_text()),
                )
            } else if booted {
                (
                    with_phase(m, PhaseView::Finished),
                    seq![ActionView::MarkBooted],
                    OutcomeView::Booted(m.serial),
                )
            } else {
                (m, seq![ActionView::Sleep(1000)], OutcomeView::Pending)
            }
        },
        (PhaseView::Booting, EventView::BootDeadline) => {
            (
                with_phase(
                    m,
                    PhaseView::AwaitingDiagnostics {
                        label: "ADB conectou, mas o Android n\u{e3}o concluiu o boot em "@
                            + decimal(boot_wait_secs(m.first_boot) as nat) + " segundos"@,
                        kill_stale_after: false,
                    },
                ),
                seq![
                    ActionView::EmulatorKill,
                    ActionView::KillProcessTree,
                    ActionView::KillStaleEmulators,
                    ActionView::ReadDiagnostics,
                ],
                OutcomeView::Pending,
            )
        },
        (
            PhaseView::AwaitingDiagnostics { label, kill_stale_after },
            EventView::Diagnostics { details },
        ) => {
            (
                with_phase(m, PhaseView::Finished),
                if kill_stale_after {
                    seq![ActionView::KillStaleEmulators]
                } else {
                    Seq::<ActionView>::empty()
                },
                OutcomeView::Failed(failure_message(gpu_text(m.gpu), details, label)),
            )
        },
        _ => (m, Seq::<ActionView>::empty(), OutcomeView::Pending),
    }
}

// ---------------------------------------------------------------------------
// Execution
// ---------------------------------------------------------------------------

/// Appends an action to a list of actions.
fn push_action(v: &mut Vec<AttemptAction>, a: AttemptAction)
    ensures
        actions_view(final(v)@) == actions_view(old(v)@).push(action_view(a)),
{
    let ghost before = v@;
    let ghost av = action_view(a);
    v.push(a);
    assert(actions_view(v@) =~= actions_view(before).push(av));
}

/// A list of actions.
fn actions_of(a: Option<AttemptAction>, b: Option<AttemptAction>, c: Option<AttemptAction>, d: Option<AttemptAction>) -> (res: Vec<AttemptAction>)
    ensures
        actions_view(res@) == opt_actions(a) + opt_actions(b) + opt_actions(c) + opt_actions(d),
{
    let ghost va = opt_actions(a);
    let ghost vb = opt_actions(b);
    let ghost vc = opt_actions(c);
    let ghost vd = opt_actions(d);
    let mut v: Vec<AttemptAction> = Vec::new();
    assert(actions_view(v@) =~= Seq::<ActionView>::empty());
    if let Some(x) = a {
        push_action(&mut v, x);
    }
    assert(actions_view(v@) =~= va);
    if let Some(x) = b {
        push_action(&mut v, x);
    }
    assert(actions_view(v@) =~= va + vb);
    if let Some(x) = c {
        push_action(&mut v, x);
    }
    assert(actions_view(v@) =~= va + vb + vc);
    if let Some(x) = d {
        push_action(&mut v, x);
    }
    assert(actions_view(v@) =~= va + vb + vc + vd);
    v
}

/// The view of an optional action, as a list.
pub open spec fn opt_actions(a: Option<AttemptAction>) -> Seq<ActionView> {
    match a {
        Some(x) => seq![action_view(x)],
        None => Seq::<ActionView>::empty(),
    }
}

/// `prefix` + `n` + `suffix`.
fn number_text(prefix: &str, n: u64, suffix: &str) -> (res: String)
    ensures
        res@ == prefix@ + decimal(n as nat) + suffix@,
{
    let mut out: Vec<char> = Vec::new();
    push_str(&mut out, prefix);
    push_decimal(&mut out, n);
    push_str(&mut out, suffix);
    string_from_chars(out.as_slice())
}

/// `prefix` + `s`.
fn prefixed(prefix: &str, s: &str) -> (res: String)
    ensures
        res@ == prefix@ + s@,
{
    let mut out: Vec<char> = Vec::new();
    push_str(&mut out, prefix);
    push_str(&mut out, s);
    string_from_chars(out.as_slice())
}

impl AttemptMachine {
    /// An attempt whose emulator was just started, waiting for ADB.
    pub fn new(gpu: GpuMode, serial: String, first_boot: bool, cold_boot: bool) -> (res: Self)
        ensures
            machine_view(res) == (MachineView {
                gpu,
                serial: serial@,
                first_boot,
                cold_boot,
                handoff_logged: false,
                phase: PhaseView::WaitingAdb,
            }),
    {
        AttemptMachine {
            gpu,
            serial,
            first_boot,
            cold_boot,
            handoff_logged: false,
            phase: AttemptPhase::WaitingAdb,
        }
    }

    /// How long ADB may take to see the device, in seconds.
    pub fn adb_wait(&self) -> (r: u64)
        ensures
            r == adb_wait_secs(self.first_boot, self.cold_boot),
    {
        if self.first_boot || self.cold_boot {
            180
        } else {
            120
        }
    }

    /// How long Android may take to boot once ADB sees it, in seconds.
    pub fn boot_wait(&self) -> (r: u64)
        ensures
            r == boot_wait_secs(self.first_boot),
    {
        if self.first_boot {
            300
        } else {
            240
        }
    }

    /// Whether the attempt is over.
    pub fn is_finished(&self) -> (r: bool)
        ensures
            r == (phase_view(self.phase) == PhaseView::Finished),
    {
        match self.phase {
            AttemptPhase::Finished => true,
            _ => false,
        }
    }

    /// The step on the last reading of ADB (see `adb_check_step`).
    fn check_adb(&mut self, online: bool) -> (res: (Vec<AttemptAction>, AttemptOutcome))
        ensures
            (machine_view(*final(self)), actions_view(res.0@), outcome_view(res.1))
                == adb_check_step(machine_view(*old(self)), online),
    {
        if online {
            self.phase = AttemptPhase::Booting;
            let acts: Vec<AttemptAction> = Vec::new();
            assert(actions_view(acts@) =~= Seq::<ActionView>::empty());
            (acts, AttemptOutcome::Pending)
        } else {
            let wait = self.adb_wait();
            let label = number_text("Emulator n\u{e3}o apareceu no ADB em ", wait, " segundos");
            self.phase = AttemptPhase::AwaitingDiagnostics { label, kill_stale_after: false };
            let acts = actions_of(
                Some(AttemptAction::KillProcessTree),
                Some(AttemptAction::KillStaleEmulators),
                Some(AttemptAction::Sleep(900)),
                Some(AttemptAction::ReadDiagnostics),
            );
            assert(actions_view(acts@) =~= seq![
                ActionView::KillProcessTree,
                ActionView::KillStaleEmulators,
                ActionView::Sleep(900),
                ActionView::ReadDiagnostics,
            ]);
            (acts, AttemptOutcome::Pending)
        }
    }

    /// Takes one step on `event` (see `attempt_step`).
    pub fn step(&mut self, event: AttemptEvent) -> (res: (Vec<AttemptAction>, AttemptOutcome))
        ensures
            (machine_view(*final(self)), actions_view(res.0@), outcome_view(res.1))
                == attempt_step(machine_view(*old(self)), event_view(event)),
    {
        let ghost m0 = machine_view(*self);
        let ghost ev = event_view(event);
        match (&self.phase, event) {
            (AttemptPhase::WaitingAdb, AttemptEvent::AdbPoll { cancelled, online, exit }) => {
                if cancelled {
                    self.phase = AttemptPhase::Finished;
                    let acts = actions_of(
                        Some(AttemptAction::KillProcessTree),
                        Some(AttemptAction::KillStaleEmulators),
                        None,
                        None,
                    );
                    assert(actions_view(acts@) =~= seq![
                        ActionView::KillProcessTree,
                        ActionView::KillStaleEmulators,
                    ]);
                    (acts, AttemptOutcome::Failed(cancelled_error()))
                } else if online {
                    self.phase = AttemptPhase::ConfirmingAdb;
                    let stage = prefixed("booting:", gpu_name(self.gpu));
                    let line = prefixed("adb_online serial=", self.serial.as_str());
                    let ghost sv = stage@;
                    let ghost lv = line@;
                    let acts = actions_of(
                        Some(AttemptAction::SetStage(stage)),
                        Some(AttemptAction::Log(line)),
                        None,
                        None,
                    );
                    assert(actions_view(acts@) =~= seq![
                        ActionView::SetStage(sv),
                        ActionView::Log(lv),
                    ]);
                    (acts, AttemptOutcome::Pending)
                } else {
                    match exit {
                        Some(x) => {
                            if !x.success {
                                let label = prefixed("emulator.exe encerrou com ", x.description.as_str());
                                self.phase = AttemptPhase::AwaitingDiagnostics {
                                    label,
                                    kill_stale_after: true,
                                };
                                let acts = actions_of(
                                    Some(AttemptAction::Sleep(700)),
                                    Some(AttemptAction::ReadDiagnostics),
                                    None,
                                    None,
                                );
                                assert(actions_view(acts@) =~= seq![
                                    ActionView::Sleep(700),
                                    ActionView::ReadDiagnostics,
                                ]);
                                (acts, AttemptOutcome::Pending)
                            } else if !self.handoff_logged {
                                self.handoff_logged = true;
                                let line = String::from_str(
                                    "emulator.exe retornou sucesso; aguardando poss\u{ed}vel QEMU filho/ADB",
                                );
                                let ghost lv = line@;
                                let acts = actions_of(
                                    Some(AttemptAction::Log(line)),
                                    Some(AttemptAction::Sleep(750)),
                                    None,
                                    None,
                                );
                                assert(actions_view(acts@) =~= seq![
                                    ActionView::Log(lv),
                                    ActionView::Sleep(750),
                                ]);
                                (acts, AttemptOutcome::Pending)
                            } else {
                                let acts = actions_of(Some(AttemptAction::Sleep(750)), None, None, None);
                                assert(actions_view(acts@) =~= seq![ActionView::Sleep(750)]);
                                (acts, AttemptOutcome::Pending)
                            }
                        },
                        None => {
                            let acts = actions_of(Some(AttemptAction::Sleep(750)), None, None, None);
                            assert(actions_view(acts@) =~= seq![ActionView::Sleep(750)]);
                            (acts, AttemptOutcome::Pending)
                        },
                    }
                }
            },
            (AttemptPhase::WaitingAdb, AttemptEvent::AdbCheck { online }) => self.check_adb(online),
            (AttemptPhase::ConfirmingAdb, AttemptEvent::AdbCheck { online }) => self.check_adb(online),
            (AttemptPhase::Booting, AttemptEvent::BootPoll { cancelled, booted }) => {
                if cancelled {
                    self.phase = AttemptPhase::Finished;
                    let acts = actions_of(
                        Some(AttemptAction::EmulatorKill),
                        Some(AttemptAction::KillProcessTree),
                        Some(AttemptAction::KillStaleEmulators),
                        None,
                    );
                    assert(actions_view(acts@) =~= seq![
                        ActionView::EmulatorKill,
                        ActionView::KillProcessTree,
                        ActionView::KillStaleEmulators,
                    ]);
                    (acts, AttemptOutcome::Failed(cancelled_error()))
                } else if booted {
                    self.phase = AttemptPhase::Finished;
                    let acts = actions_of(Some(AttemptAction::MarkBooted), None, None, None);
                    assert(actions_view(acts@) =~= seq![ActionView::MarkBooted]);
                    (acts, AttemptOutcome::Booted(self.serial.clone()))
                } else {
                    let acts = actions_of(Some(AttemptAction::Sleep(1000)), None, None, None);
                    assert(actions_view(acts@) =~= seq![ActionView::Sleep(1000)]);
                    (acts, AttemptOutcome::Pending)
                }
            },
            (AttemptPhase::Booting, AttemptEvent::BootDeadline) => {
                let wait = self.boot_wait();
                let label = number_text(
                    "ADB conectou, mas o Android n\u{e3}o concluiu o boot em ",
                    wait,
                    " segundos",
                );
                self.phase = AttemptPhase::AwaitingDiagnostics { label, kill_stale_after: false };
                let acts = actions_of(
                    Some(AttemptAction::EmulatorKill),
                    Some(AttemptAction::KillProcessTree),
                    Some(AttemptAction::KillStaleEmulators),
                    Some(AttemptAction::ReadDiagnostics),
                );
                assert(actions_view(acts@) =~= seq![
                    ActionView::EmulatorKill,
                    ActionView::KillProcessTree,
                    ActionView::KillStaleEmulators,
                    ActionView::ReadDiagnostics,
                ]);
                (acts, AttemptOutcome::Pending)
            },
            (
                AttemptPhase::AwaitingDiagnostics { label, kill_stale_after },
                AttemptEvent::Diagnostics { details },
            ) => {
                let message = classify_failure(gpu_name(self.gpu), details.as_str(), label.as_str());
                let kill = *kill_stale_after;
                self.phase = AttemptPhase::Finished;
                if kill {
                    let acts = actions_of(Some(AttemptAction::KillStaleEmulators), None, None, None);
                    assert(actions_view(acts@) =~= seq![ActionView::KillStaleEmulators]);
                    (acts, AttemptOutcome::Failed(message))
                } else {
                    let acts: Vec<AttemptAction> = Vec::new();
                    assert(actions_view(acts@) =~= Seq::<ActionView>::empty());
                    (acts, AttemptOutcome::Failed(message))
                }
            },
            _ => {
                let acts: Vec<AttemptAction> = Vec::new();
                assert(actions_view(acts@) =~= Seq::<ActionView>::empty());
                (acts, AttemptOutcome::Pending)
            },
        }
    }
}

} // verus!
