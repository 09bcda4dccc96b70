//! The launch status record shared between the boot sequence and the user
//! interface, and the engine state reported to the interface.

use vstd::prelude::*;

use crate::text::{
    chars_eq_str, copy_range, push_chars, push_str, starts_with, starts_with_str, str_chars,
    string_from_chars,
};

verus! {

/// Progress of the current (or last) boot sequence.
#[derive(Clone)]
pub struct LaunchStatus {
    pub in_progress: bool,
    pub cancel_requested: bool,
    pub last_error: Option<String>,
    pub stage: String,
    pub serial: Option<String>,
    pub port: Option<u16>,
    pub pid: Option<u32>,
}

/// The status of an engine that has never launched: idle, no stage, nothing
/// recorded.
pub open spec fn is_idle(s: LaunchStatus) -> bool {
    &&& !s.in_progress
    &&& !s.cancel_requested
    &&& s.last_error is None
    &&& s.stage@ == Seq::<char>::empty()
    &&& s.serial is None
    &&& s.port is None
    &&& s.pid is None
}

impl Default for LaunchStatus {
    fn default() -> (s: Self)
        ensures
            is_idle(s),
    {
        LaunchStatus {
            in_progress: false,
            cancel_requested: false,
            last_error: None,
            stage: String::new(),
            serial: None,
            port: None,
            pid: None,
        }
    }
}

/// The status of a boot sequence that has just been requested: in progress,
/// at the "preflight" stage, with nothing else recorded.
pub fn begin_launch() -> (s: LaunchStatus)
    ensures
        s.in_progress,
        !s.cancel_requested,
        s.last_error is None,
        s.stage@ == "preflight"@,
        s.serial is None,
        s.port is None,
        s.pid is None,
{
    LaunchStatus {
        in_progress: true,
        cancel_requested: false,
        last_error: None,
        stage: String::from_str("preflight"),
        serial: None,
        port: None,
        pid: None,
    }
}

/// Enters a new stage of the boot sequence: the sequence is in progress and
/// no error is pending; the rest of the record is kept.
pub fn set_stage(status: &mut LaunchStatus, stage: &str)
    ensures
        final(status).stage@ == stage@,
        final(status).in_progress,
        final(status).last_error is None,
        final(status).cancel_requested == old(status).cancel_requested,
        final(status).serial == old(status).serial,
        final(status).port == old(status).port,
        final(status).pid == old(status).pid,
{
    status.stage = String::from_str(stage);
    status.in_progress = true;
    status.last_error = None;
}

/// Ends the boot sequence with an error: stage "error", the error recorded,
/// no cancellation pending and no process tracked.
pub fn mark_launch_error(status: &mut LaunchStatus, error: String)
    ensures
        !final(status).in_progress,
        !final(status).cancel_requested,
        final(status).stage@ == "error"@,
        final(status).last_error == Some(error),
        final(status).pid is None,
        final(status).serial == old(status).serial,
        final(status).port == old(status).port,
{
    status.in_progress = false;
    status.cancel_requested = false;
    status.stage = String::from_str("error");
    status.last_error = Some(error);
    status.pid = None;
}

/// Ends the boot sequence successfully: stage "running", no error, no
/// cancellation pending and no process tracked.
pub fn mark_launch_ready(status: &mut LaunchStatus)
    ensures
        !final(status).in_progress,
        !final(status).cancel_requested,
        final(status).stage@ == "running"@,
        final(status).last_error is None,
        final(status).pid is None,
        final(status).serial == old(status).serial,
        final(status).port == old(status).port,
{
    status.in_progress = false;
    status.cancel_requested = false;
    status.stage = String::from_str("running");
    status.last_error = None;
    status.pid = None;
}

/// Asks the running boot sequence to stop; nothing else changes.
pub fn request_cancel(status: &mut LaunchStatus)
    ensures
        final(status).cancel_requested,
        final(status).in_progress == old(status).in_progress,
        final(status).last_error == old(status).last_error,
        final(status).stage == old(status).stage,
        final(status).serial == old(status).serial,
        final(status).port == old(status).port,
        final(status).pid == old(status).pid,
{
    status.cancel_requested = true;
}

/// Whether a stop of the boot sequence has been requested.
pub fn launch_cancelled(status: &LaunchStatus) -> (r: bool)
    ensures
        r == status.cancel_requested,
{
    status.cancel_requested
}

// ---------------------------------------------------------------------------
// Stage messages
// ---------------------------------------------------------------------------

/// The part of `s` after `prefix`.
pub open spec fn after(s: Seq<char>, prefix: Seq<char>) -> Seq<char> {
    s.subrange(prefix.len() as int, s.len() as int)
}

/// The message shown to the user for a boot stage.
pub open spec fn stage_text(stage: Seq<char>) -> Seq<char> {
    if stage == "preflight"@ {
        "Limpando processos antigos, reparando o AVD e validando o runtime..."@
    } else if starts_with(stage, "launching:"@) {
        "Abrindo Android com GPU "@ + after(stage, "launching:"@)
            + ". No primeiro cold boot o ADB pode levar at\u{e9} 3 minutos..."@
    } else if starts_with(stage, "waiting-adb:"@) {
        "Android Emulator est\u{e1} aberto com GPU "@ + after(stage, "waiting-adb:"@)
            + "; aguardando o ADB aparecer (at\u{e9} 3 minutos no primeiro boot)..."@
    } else if starts_with(stage, "fallback:"@) {
        "A tentativa anterior falhou; testando automaticamente o modo gr\u{e1}fico "@ + after(
            stage,
            "fallback:"@,
        ) + "..."@
    } else if starts_with(stage, "booting:"@) {
        "ADB conectado. Android est\u{e1} concluindo o boot com GPU "@ + after(stage, "booting:"@)
            + "..."@
    } else {
        "Iniciando Android Emulator..."@
    }
}

/// `before` + the part of `s` after `prefix` + `tail`, for a `prefix` of `s`.
fn wrap_rest(s: &Vec<char>, prefix: &str, before: &str, tail: &str) -> (res: String)
    requires
        starts_with(s@, prefix@),
    ensures
        res@ == before@ + after(s@, prefix@) + tail@,
{
    let p = str_chars(prefix);
    let rest = copy_range(s, p.len(), s.len());
    let mut out: Vec<char> = Vec::new();
    push_str(&mut out, before);
    push_chars(&mut out, &rest);
    push_str(&mut out, tail);
    string_from_chars(out.as_slice())
}

/// The message shown to the user for a boot stage.
pub fn stage_message(stage: &str) -> (res: String)
    ensures
        res@ == stage_text(stage@),
{
    let s = str_chars(stage);
    if chars_eq_str(&s, "preflight") {
        return String::from_str(
            "Limpando processos antigos, reparando o AVD e validando o runtime...",
        );
    }
    if starts_with_str(&s, "launching:") {
        return wrap_rest(
            &s,
            "launching:",
            "Abrindo Android com GPU ",
            ". No primeiro cold boot o ADB pode levar at\u{e9} 3 minutos...",
        );
    }
    if starts_with_str(&s, "waiting-adb:") {
        return wrap_rest(
            &s,
            "waiting-adb:",
            "Android Emulator est\u{e1} aberto com GPU ",
            "; aguardando o ADB aparecer (at\u{e9} 3 minutos no primeiro boot)...",
        );
    }
    if starts_with_str(&s, "fallback:") {
        return wrap_rest(
            &s,
            "fallback:",
            "A tentativa anterior falhou; testando automaticamente o modo gr\u{e1}fico ",
            "...",
        );
    }
    if starts_with_str(&s, "booting:") {
        return wrap_rest(
            &s,
            "booting:",
            "ADB conectado. Android est\u{e1} concluindo o boot com GPU ",
            "...",
        );
    }
    String::from_str("Iniciando Android Emulator...")
}

// ---------------------------------------------------------------------------
// Engine state
// ---------------------------------------------------------------------------

/// What the interface is told about the engine.
pub struct EngineState {
    pub state: String,
    pub message: String,
    pub runtime_found: bool,
    pub adb_found: bool,
    pub avd_found: bool,
    pub running: bool,
    pub boot_complete: bool,
    pub acceleration: String,
}

/// What was observed of the machine when the engine state is collected.
pub struct EngineObservation {
    /// The emulator executable is installed.
    pub runtime_found: bool,
    /// The ADB executable is installed.
    pub adb_found: bool,
    /// The NOVA virtual device is configured.
    pub avd_found: bool,
    /// The serial of the NOVA device that ADB reports online, if any.
    pub serial: Option<String>,
    /// ADB reports that the device finished booting (read only with a serial).
    pub boot_complete: bool,
    /// The acceleration check passed.
    pub acceleration_ok: bool,
    /// The acceleration report.
    pub acceleration: String,
    /// The Android release that the device reports, if it was read.
    pub android_version: Option<String>,
}

/// Whether the observed device is online and has finished booting.
pub open spec fn observed_booted(obs: EngineObservation) -> bool {
    obs.serial is Some && obs.boot_complete
}

/// The state label reported for an observation and a launch status.
pub open spec fn state_label(obs: EngineObservation, launch: LaunchStatus) -> Seq<char> {
    if observed_booted(obs) {
        "running"@
    } else if obs.serial is Some {
        "starting"@
    } else if !obs.runtime_found || !obs.adb_found || !obs.avd_found {
        "runtime_missing"@
    } else if launch.in_progress {
        "starting"@
    } else if launch.last_error is Some {
        "error"@
    } else {
        "ready"@
    }
}

/// The message reported for an observation and a launch status.
pub open spec fn state_message(obs: EngineObservation, launch: LaunchStatus) -> Seq<char> {
    if observed_booted(obs) {
        "Android "@ + (match obs.android_version {
            Some(v) => v@,
            None => "Android"@,
        }) + " est\u{e1} pronto e conectado via ADB."@
    } else if obs.serial is Some {
        "ADB conectado; o Android ainda est\u{e1} concluindo o boot."@
    } else if !obs.runtime_found || !obs.adb_found || !obs.avd_found {
        "Runtime Android ainda n\u{e3}o est\u{e1} pronto. Execute o preparador do NOVA para concluir o ambiente."@
    } else if launch.in_progress {
        stage_text(launch.stage@)
    } else if launch.last_error is Some {
        "Falha ao iniciar Android: "@ + launch.last_error->0@
    } else if obs.acceleration_ok {
        "Runtime Android pronto. O NOVA far\u{e1} um boot controlado pelo engine Rust."@
    } else {
        "Runtime pronto. O accel-check n\u{e3}o confirmou o hipervisor; o boot real ser\u{e1} usado como teste definitivo."@
    }
}

/// The engine state for an observation. When the device is online and booted
/// the launch is marked ready; otherwise the launch status is left as it was.
pub fn collect_state(obs: EngineObservation, launch: &mut LaunchStatus) -> (res: EngineState)
    ensures
        res.state@ == state_label(obs, *old(launch)),
        res.message@ == state_message(obs, *old(launch)),
        res.runtime_found == obs.runtime_found,
        res.adb_found == obs.adb_found,
        res.avd_found == obs.avd_found,
        res.running == obs.serial is Some,
        res.boot_complete == observed_booted(obs),
        res.acceleration == obs.acceleration,
        observed_booted(obs) ==> {
            &&& !final(launch).in_progress
            &&& !final(launch).cancel_requested
            &&& final(launch).stage@ == "running"@
            &&& final(launch).last_error is None
            &&& final(launch).pid is None
            &&& final(launch).serial == old(launch).serial
            &&& final(launch).port == old(launch).port
        },
        !observed_booted(obs) ==> *final(launch) == *old(launch),
{
    let running = obs.serial.is_some();
    let boot_complete = running && obs.boot_complete;
    if running && boot_complete {
        mark_launch_ready(launch);
        let mut msg: Vec<char> = Vec::new();
        push_str(&mut msg, "Android ");
        match &obs.android_version {
            Some(v) => push_str(&mut msg, v.as_str()),
            None => push_str(&mut msg, "Android"),
        }
        push_str(&mut msg, " est\u{e1} pronto e conectado via ADB.");
        return EngineState {
            state: String::from_str("running"),
            message: string_from_chars(msg.as_slice()),
            runtime_found: obs.runtime_found,
            adb_found: obs.adb_found,
            avd_found: obs.avd_found,
            running,
            boot_complete,
            acceleration: obs.acceleration,
        };
    }
    let (state, message) = if running {
        (
            String::from_str("starting"),
            String::from_str("ADB conectado; o Android ainda est\u{e1} concluindo o boot."),
        )
    } else if !obs.runtime_found || !obs.adb_found || !obs.avd_found {
        (
            String::from_str("runtime_missing"),
            String::from_str(
                "Runtime Android ainda n\u{e3}o est\u{e1} pronto. Execute o preparador do NOVA para concluir o ambiente.",
            ),
        )
    } else if launch.in_progress {
        (String::from_str("starting"), stage_message(launch.stage.as_str()))
    } else if let Some(error) = &launch.last_error {
        let mut msg: Vec<char> = Vec::new();
        push_str(&mut msg, "Falha ao iniciar Android: ");
        push_str(&mut msg, error.as_str());
        (String::from_str("error"), string_from_chars(msg.as_slice()))
    } else if obs.acceleration_ok {
        (
            String::from_str("ready"),
            String::from_str(
                "Runtime Android pronto. O NOVA far\u{e1} um boot controlado pelo engine Rust.",
            ),
        )
    } else {
        (
            String::from_str("ready"),
            String::from_str(
                "Runtime pronto. O accel-check n\u{e3}o confirmou o hipervisor; o boot real ser\u{e1} usado como teste definitivo.",
            ),
        )
    };
    EngineState {
        state,
        message,
        runtime_found: obs.runtime_found,
        adb_found: obs.adb_found,
        avd_found: obs.avd_found,
        running,
        boot_complete,
        acceleration: obs.acceleration,
    }
}

/// Whether a start request launches a new boot sequence: the runtime must be
/// complete, and no device may be online, booted or already being launched.
pub fn should_start_launch(current: &EngineState, launch: &LaunchStatus) -> (r: bool)
    ensures
        r == (current.runtime_found && current.adb_found && current.avd_found
            && !current.boot_complete && !current.running && !launch.in_progress),
{
    if !current.runtime_found || !current.adb_found || !current.avd_found {
        return false;
    }
    if current.boot_complete || current.running || launch.in_progress {
        return false;
    }
    true
}

/// The state reported right after a boot sequence was started.
pub fn launch_started_state(acceleration: String) -> (res: EngineState)
    ensures
        res.state@ == "starting"@,
        res.message@
            == "Preparando cold boot seguro. A primeira inicializa\u{e7}\u{e3}o pode levar alguns minutos."@,
        res.runtime_found && res.adb_found && res.avd_found,
        !res.running && !res.boot_complete,
        res.acceleration == acceleration,
{
    EngineState {
        state: String::from_str("starting"),
        message: String::from_str(
            "Preparando cold boot seguro. A primeira inicializa\u{e7}\u{e3}o pode levar alguns minutos.",
        ),
        runtime_found: true,
        adb_found: true,
        avd_found: true,
        running: false,
        boot_complete: false,
        acceleration,
    }
}

/// The state reported when the runtime installer cannot be started, with the
/// reason: its script is missing (`script_missing`) or it failed to spawn.
pub fn installer_error_state(script_missing: bool, detail: &str) -> (res: EngineState)
    ensures
        res.state@ == "error"@,
        res.message@ == (if script_missing {
            "Script do runtime n\u{e3}o encontrado: "@ + detail@
        } else {
            "Falha ao abrir preparador do runtime: "@ + detail@
        }),
        !res.runtime_found && !res.adb_found && !res.avd_found,
        !res.running && !res.boot_complete,
        res.acceleration@ == "indispon\u{ed}vel"@,
{
    let mut msg: Vec<char> = Vec::new();
    if script_missing {
        push_str(&mut msg, "Script do runtime n\u{e3}o encontrado: ");
    } else {
        push_str(&mut msg, "Falha ao abrir preparador do runtime: ");
    }
    push_str(&mut msg, detail);
    EngineState {
        state: String::from_str("error"),
        message: string_from_chars(msg.as_slice()),
        runtime_found: false,
        adb_found: false,
        avd_found: false,
        running: false,
        boot_complete: false,
        acceleration: String::from_str("indispon\u{ed}vel"),
    }
}

/// The state reported once the runtime installer was started.
pub fn installer_started_state(
    runtime_found: bool,
    adb_found: bool,
    avd_found: bool,
    acceleration: String,
) -> (res: EngineState)
    ensures
        res.state@ == "installing"@,
        res.message@ == "Verificando e reparando o runtime Android do NOVA..."@,
        res.runtime_found == runtime_found,
        res.adb_found == adb_found,
        res.avd_found == avd_found,
        !res.running && !res.boot_complete,
        res.acceleration == acceleration,
{
    EngineState {
        state: String::from_str("installing"),
        message: String::from_str("Verificando e reparando o runtime Android do NOVA..."),
        runtime_found,
        adb_found,
        avd_found,
        running: false,
        boot_complete: false,
        acceleration,
    }
}

} // verus!
