use nova_engine::adb::CommandOutput;
use nova_engine::attempt::{
    cancelled_error, AttemptAction, AttemptEvent, AttemptMachine, AttemptOutcome, AttemptPhase,
    ChildExit,
};
use nova_engine::launch::{
    accel_log_line, acceleration_probe, attempt_log_line, attempt_tag, emulator_args,
    emulator_port_candidates, find_free_emulator_port, gpu_name, kill_process_tree,
    kill_stale_runtime_emulators, launch_plans, launch_profile, opening_stage_for,
    profile_settings, serial_for_port, waiting_stage, AccelCheck, AttemptPlan, GpuMode,
};
use nova_engine::sequence::{
    finish_launch, sequence_log_line, virtualization_failure, BootSequence, NextStep,
    SequenceAction,
};
use nova_engine::status::{begin_launch, LaunchStatus};

fn plan(gpu: GpuMode, cold_boot: bool, wipe_data: bool, disable_vulkan: bool) -> AttemptPlan {
    AttemptPlan { gpu, cold_boot, wipe_data, disable_vulkan }
}

fn same_plan(a: &AttemptPlan, b: &AttemptPlan) -> bool {
    a.gpu == b.gpu
        && a.cold_boot == b.cold_boot
        && a.wipe_data == b.wipe_data
        && a.disable_vulkan == b.disable_vulkan
}

#[test]
fn profiles() {
    let eco = profile_settings("eco");
    assert_eq!((eco.cores, eco.ram_mb), (2, 2048));
    assert!(eco.gpu_modes == vec![GpuMode::Auto, GpuMode::Software]);
    let perf = profile_settings("performance");
    assert_eq!((perf.cores, perf.ram_mb), (4, 6144));
    assert!(perf.gpu_modes == vec![GpuMode::Host, GpuMode::Auto, GpuMode::Software]);
    let balanced = profile_settings("balanced");
    assert_eq!((balanced.cores, balanced.ram_mb), (3, 4096));
    assert!(balanced.gpu_modes == vec![GpuMode::Auto, GpuMode::Host, GpuMode::Software]);
    assert_eq!(profile_settings("ECO").cores, 3);
}

#[test]
fn launch_profile_ignores_case() {
    let eco = launch_profile("ECO");
    assert_eq!((eco.cores, eco.ram_mb), (2, 2048));
    let perf = launch_profile("Performance");
    assert_eq!(perf.ram_mb, 6144);
}

#[test]
fn gpu_names() {
    assert_eq!(gpu_name(GpuMode::Host), "host");
    assert_eq!(gpu_name(GpuMode::Auto), "auto");
    assert_eq!(gpu_name(GpuMode::Software), "software");
    assert_eq!(gpu_name(GpuMode::SwiftshaderIndirect), "swiftshader_indirect");
}

#[test]
fn first_boot_plans_use_software_rendering_with_limited_resources() {
    let (settings, plans) = launch_plans(profile_settings("performance"), true);
    assert_eq!((settings.cores, settings.ram_mb), (2, 3072));
    assert_eq!(plans.len(), 3);
    assert!(same_plan(&plans[0], &plan(GpuMode::SwiftshaderIndirect, true, true, true)));
    assert!(same_plan(&plans[1], &plan(GpuMode::Software, true, false, true)));
    assert!(same_plan(&plans[2], &plan(GpuMode::Auto, true, false, false)));
    let (small, _) = launch_plans(profile_settings("eco"), true);
    assert_eq!((small.cores, small.ram_mb), (2, 2048));
}

#[test]
fn regular_plans_follow_the_profile() {
    let (settings, plans) = launch_plans(profile_settings("performance"), false);
    assert_eq!((settings.cores, settings.ram_mb), (4, 6144));
    assert_eq!(plans.len(), 3);
    assert!(same_plan(&plans[0], &plan(GpuMode::Host, false, false, false)));
    assert!(same_plan(&plans[1], &plan(GpuMode::Auto, true, false, false)));
    assert!(same_plan(&plans[2], &plan(GpuMode::Software, true, false, true)));
}

#[test]
fn ports() {
    let ports = emulator_port_candidates();
    assert_eq!(ports.len(), 65);
    assert_eq!(ports[0], 5554);
    assert_eq!(ports[64], 5682);
    let mut free = vec![false; 65];
    free[3] = true;
    free[10] = true;
    assert_eq!(find_free_emulator_port(&free), Ok(5560));
    assert_eq!(
        find_free_emulator_port(&vec![false; 65]),
        Err("Nenhum par de portas livre entre 5554 e 5683 para o Android Emulator.".to_string())
    );
    assert_eq!(serial_for_port(5556), "emulator-5556");
}

#[test]
fn commands() {
    let kill = kill_process_tree(4321);
    assert_eq!(kill.program, "taskkill.exe");
    assert_eq!(kill.args, vec!["/PID", "4321", "/T", "/F"]);
    let stale = kill_stale_runtime_emulators("C:\\Users\\O'Neil\\NOVA");
    assert_eq!(stale.program, "powershell.exe");
    assert_eq!(&stale.args[..4], &["-NoProfile", "-ExecutionPolicy", "Bypass", "-Command"]);
    assert!(stale.args[4].starts_with("$root='C:\\Users\\O''Neil\\NOVA'; Get-CimInstance"));
    assert!(stale.args[4].ends_with("Stop-Process -Id $_.ProcessId -Force -ErrorAction SilentlyContinue }"));
}

#[test]
fn emulator_arguments() {
    let settings = profile_settings("eco");
    let args = emulator_args(5554, &settings, &plan(GpuMode::Software, true, true, true));
    let expected = vec![
        "-avd", "NOVA", "-port", "5554", "-accel", "on", "-gpu", "software", "-cores", "2",
        "-memory", "2048", "-skin", "720x1280", "-no-metrics", "-no-boot-anim", "-no-audio",
        "-camera-back", "none", "-camera-front", "none", "-netfast", "-feature", "-Vulkan",
        "-no-snapshot-load", "-no-snapshot-save", "-wipe-data",
    ];
    assert_eq!(args, expected);
    let plain = emulator_args(5600, &settings, &plan(GpuMode::Host, false, false, false));
    assert_eq!(plain.len(), 22);
    assert_eq!(plain[3], "5600");
}

#[test]
fn attempt_texts() {
    assert_eq!(attempt_tag(0, GpuMode::SwiftshaderIndirect), "1-swiftshader-indirect");
    assert_eq!(attempt_tag(2, GpuMode::Auto), "3-auto");
    assert_eq!(opening_stage_for(0, GpuMode::Host), "launching:host");
    assert_eq!(opening_stage_for(1, GpuMode::Software), "fallback:software");
    assert_eq!(waiting_stage(GpuMode::Auto), "waiting-adb:auto");
    let settings = profile_settings("balanced");
    assert_eq!(
        attempt_log_line(0, 5554, &settings, &plan(GpuMode::Auto, false, false, false), "35.1.4"),
        "attempt=1 gpu=auto port=5554 cores=3 ram=4096 cold_boot=false wipe=false no_vulkan=false emulator=35.1.4"
    );
    assert_eq!(sequence_log_line("35.1.4"), "NOVA boot engine · emulator=35.1.4");
}

fn output(success: bool, code: Option<i32>, stdout: &str, stderr: &str) -> CommandOutput {
    CommandOutput { success, code, stdout: stdout.to_string(), stderr: stderr.to_string() }
}

#[test]
fn acceleration_reports() {
    assert_eq!(acceleration_probe(None), (false, "runtime não instalado".to_string()));
    let ok = AccelCheck {
        version: "35.1".to_string(),
        result: Ok(output(true, Some(0), "accel:\n0\n", "WHPX is installed\n")),
    };
    assert_eq!(
        acceleration_probe(Some(ok)),
        (true, "Emulator 35.1 · accel: · 0 · WHPX is installed".to_string())
    );
    let quiet = AccelCheck { version: "35.1".to_string(), result: Ok(output(true, Some(0), "", "")) };
    assert_eq!(
        acceleration_probe(Some(quiet)),
        (true, "Emulator 35.1 · hipervisor disponível".to_string())
    );
    let failed = AccelCheck { version: "35.1".to_string(), result: Ok(output(false, Some(3), "x", "")) };
    assert_eq!(
        acceleration_probe(Some(failed)),
        (false, "Emulator 35.1 · accel-check código 3 · o boot real fará o teste".to_string())
    );
    let killed = AccelCheck { version: "35.1".to_string(), result: Ok(output(false, None, "", "")) };
    assert_eq!(
        acceleration_probe(Some(killed)).1,
        "Emulator 35.1 · accel-check código -1 · o boot real fará o teste"
    );
    let missing = AccelCheck { version: "desconhecida".to_string(), result: Err("not found".to_string()) };
    assert_eq!(
        acceleration_probe(Some(missing)).1,
        "Emulator desconhecida · accel-check indisponível: not found"
    );
    assert_eq!(
        accel_log_line(&output(false, Some(-5), "a\n", "b")),
        "accel-check exit=-5 a · b"
    );
}

fn sleeps(actions: &[AttemptAction]) -> Vec<u64> {
    actions
        .iter()
        .filter_map(|a| match a {
            AttemptAction::Sleep(ms) => Some(*ms),
            _ => None,
        })
        .collect()
}

#[test]
fn attempt_boots_after_adb_and_boot_completion() {
    let mut m = AttemptMachine::new(GpuMode::Host, "emulator-5554".to_string(), false, false);
    assert_eq!(m.adb_wait(), 120);
    assert_eq!(m.boot_wait(), 240);
    let (acts, out) = m.step(AttemptEvent::AdbPoll { cancelled: false, online: false, exit: None });
    assert_eq!(sleeps(&acts), vec![750]);
    assert!(matches!(out, AttemptOutcome::Pending));
    let (acts, out) = m.step(AttemptEvent::AdbPoll { cancelled: false, online: true, exit: None });
    assert!(matches!(out, AttemptOutcome::Pending));
    assert!(matches!(&acts[0], AttemptAction::SetStage(s) if s == "booting:host"));
    assert!(matches!(&acts[1], AttemptAction::Log(s) if s == "adb_online serial=emulator-5554"));
    assert!(matches!(m.phase, AttemptPhase::ConfirmingAdb));
    let (acts, _) = m.step(AttemptEvent::BootPoll { cancelled: false, booted: true });
    assert!(acts.is_empty());
    assert!(matches!(m.phase, AttemptPhase::ConfirmingAdb));
    let (acts, out) = m.step(AttemptEvent::AdbCheck { online: true });
    assert!(acts.is_empty() && matches!(out, AttemptOutcome::Pending));
    assert!(matches!(m.phase, AttemptPhase::Booting));
    let (acts, _) = m.step(AttemptEvent::BootPoll { cancelled: false, booted: false });
    assert_eq!(sleeps(&acts), vec![1000]);
    let (acts, out) = m.step(AttemptEvent::BootPoll { cancelled: false, booted: true });
    assert!(matches!(acts.as_slice(), [AttemptAction::MarkBooted]));
    assert!(matches!(out, AttemptOutcome::Booted(s) if s == "emulator-5554"));
    assert!(m.is_finished());
    let (acts, out) = m.step(AttemptEvent::BootDeadline);
    assert!(acts.is_empty() && matches!(out, AttemptOutcome::Pending));
}

#[test]
fn attempt_logs_the_launcher_handoff_once() {
    let mut m = AttemptMachine::new(GpuMode::Auto, "emulator-5556".to_string(), true, false);
    assert_eq!(m.adb_wait(), 180);
    assert_eq!(m.boot_wait(), 300);
    let exit = || Some(ChildExit { success: true, description: "exit code: 0".to_string() });
    let (acts, _) = m.step(AttemptEvent::AdbPoll { cancelled: false, online: false, exit: exit() });
    assert!(matches!(&acts[0], AttemptAction::Log(s) if s == "emulator.exe retornou sucesso; aguardando possível QEMU filho/ADB"));
    assert_eq!(sleeps(&acts), vec![750]);
    let (acts, _) = m.step(AttemptEvent::AdbPoll { cancelled: false, online: false, exit: exit() });
    assert_eq!(acts.len(), 1);
    assert_eq!(sleeps(&acts), vec![750]);
}

#[test]
fn attempt_fails_when_the_emulator_exits() {
    let mut m = AttemptMachine::new(GpuMode::Host, "emulator-5554".to_string(), false, true);
    let exit = Some(ChildExit { success: false, description: "exit code: 1".to_string() });
    let (acts, out) = m.step(AttemptEvent::AdbPoll { cancelled: false, online: false, exit });
    assert!(matches!(out, AttemptOutcome::Pending));
    assert!(matches!(acts.as_slice(), [AttemptAction::Sleep(700), AttemptAction::ReadDiagnostics]));
    let (acts, out) = m.step(AttemptEvent::Diagnostics { details: "vulkan init failed".to_string() });
    assert!(matches!(acts.as_slice(), [AttemptAction::KillStaleEmulators]));
    assert!(matches!(out, AttemptOutcome::Failed(e) if e == "GPU host: Falha na camada Vulkan/GPU. Diagnóstico final: vulkan init failed"));
}

#[test]
fn attempt_times_out_waiting_for_adb() {
    let mut m = AttemptMachine::new(GpuMode::Software, "emulator-5554".to_string(), false, true);
    let (acts, _) = m.step(AttemptEvent::AdbCheck { online: false });
    assert!(matches!(
        acts.as_slice(),
        [
            AttemptAction::KillProcessTree,
            AttemptAction::KillStaleEmulators,
            AttemptAction::Sleep(900),
            AttemptAction::ReadDiagnostics
        ]
    ));
    let (acts, out) = m.step(AttemptEvent::Diagnostics { details: String::new() });
    assert!(acts.is_empty());
    assert!(matches!(out, AttemptOutcome::Failed(e) if e == "GPU software: Emulator não apareceu no ADB em 180 segundos."));
}

#[test]
fn attempt_times_out_waiting_for_boot() {
    let mut m = AttemptMachine::new(GpuMode::Auto, "emulator-5554".to_string(), false, false);
    let (acts, _) = m.step(AttemptEvent::AdbCheck { online: true });
    assert!(acts.is_empty());
    assert!(matches!(m.phase, AttemptPhase::Booting));
    let (acts, _) = m.step(AttemptEvent::BootDeadline);
    assert!(matches!(
        acts.as_slice(),
        [
            AttemptAction::EmulatorKill,
            AttemptAction::KillProcessTree,
            AttemptAction::KillStaleEmulators,
            AttemptAction::ReadDiagnostics
        ]
    ));
    let (_, out) = m.step(AttemptEvent::Diagnostics { details: String::new() });
    assert!(matches!(out, AttemptOutcome::Failed(e) if e == "GPU auto: ADB conectou, mas o Android não concluiu o boot em 240 segundos."));
}

#[test]
fn attempt_cancellation_wins() {
    let mut m = AttemptMachine::new(GpuMode::Auto, "emulator-5554".to_string(), false, false);
    let (acts, out) = m.step(AttemptEvent::AdbPoll { cancelled: true, online: true, exit: None });
    assert!(matches!(acts.as_slice(), [AttemptAction::KillProcessTree, AttemptAction::KillStaleEmulators]));
    assert!(matches!(out, AttemptOutcome::Failed(e) if e == "__cancelled__"));
    let mut m = AttemptMachine::new(GpuMode::Auto, "emulator-5554".to_string(), false, false);
    m.step(AttemptEvent::AdbPoll { cancelled: false, online: true, exit: None });
    m.step(AttemptEvent::AdbCheck { online: true });
    let (acts, out) = m.step(AttemptEvent::BootPoll { cancelled: true, booted: true });
    assert!(matches!(
        acts.as_slice(),
        [AttemptAction::EmulatorKill, AttemptAction::KillProcessTree, AttemptAction::KillStaleEmulators]
    ));
    assert!(matches!(out, AttemptOutcome::Failed(e) if e == "__cancelled__"));
    assert_eq!(cancelled_error(), "__cancelled__");
}

#[test]
fn sequence_succeeds_on_a_fallback() {
    let mut seq = BootSequence::new(profile_settings("balanced"), false, "35.1".to_string());
    match seq.next_step(false) {
        NextStep::Attempt(i, p) => {
            assert_eq!(i, 0);
            assert!(same_plan(&p, &plan(GpuMode::Auto, false, false, false)));
        }
        NextStep::Finish(_) => panic!("an attempt was expected"),
    }
    let (acts, done) = seq.record(Err("GPU auto: Falha na camada Vulkan/GPU.".to_string()));
    assert!(done.is_none());
    assert!(matches!(&acts[0], SequenceAction::Log(s) if s == "attempt_failed GPU auto: Falha na camada Vulkan/GPU."));
    assert!(matches!(&acts[1], SequenceAction::Sleep(2000)));
    match seq.next_step(false) {
        NextStep::Attempt(i, p) => {
            assert_eq!(i, 1);
            assert!(same_plan(&p, &plan(GpuMode::Host, true, false, false)));
        }
        NextStep::Finish(_) => panic!("an attempt was expected"),
    }
    let (acts, done) = seq.record(Ok("emulator-5556".to_string()));
    assert!(matches!(&acts[0], SequenceAction::Log(s) if s == "boot_success serial=emulator-5556 gpu=host"));
    assert!(matches!(&acts[1], SequenceAction::MarkReady));
    assert_eq!(done, Some(Ok(())));
}

#[test]
fn sequence_stops_at_a_virtualization_failure() {
    let mut seq = BootSequence::new(profile_settings("balanced"), false, "35.1".to_string());
    let error = "GPU auto: Falha de virtualização/WHPX. Diagnóstico final: WHPX failed".to_string();
    assert!(virtualization_failure(&error));
    let (acts, done) = seq.record(Err(error.clone()));
    assert!(done.is_none());
    assert_eq!(acts.len(), 1);
    match seq.next_step(false) {
        NextStep::Finish(Err(e)) => assert_eq!(
            e,
            format!("Todas as tentativas de boot falharam com Emulator 35.1. {error}")
        ),
        _ => panic!("the sequence should be over"),
    }
}

#[test]
fn sequence_reports_every_failure() {
    let mut seq = BootSequence::new(profile_settings("eco"), false, "35.1".to_string());
    seq.record(Err("one".to_string()));
    seq.record(Err("two".to_string()));
    match seq.next_step(false) {
        NextStep::Finish(Err(e)) => {
            assert_eq!(e, "Todas as tentativas de boot falharam com Emulator 35.1. one | two")
        }
        _ => panic!("the sequence should be over"),
    }
}

#[test]
fn sequence_cancellation() {
    let mut seq = BootSequence::new(profile_settings("eco"), true, "35.1".to_string());
    assert_eq!(seq.plans.len(), 3);
    match seq.next_step(true) {
        NextStep::Finish(Err(e)) => assert_eq!(e, "__cancelled__"),
        _ => panic!("the sequence should be cancelled"),
    }
    let (acts, done) = seq.record(Err("__cancelled__".to_string()));
    assert!(acts.is_empty());
    assert_eq!(done, Some(Err("__cancelled__".to_string())));
    assert_eq!(seq.next, 0);
}

#[test]
fn finishing_a_launch_updates_the_status() {
    let mut status = begin_launch();
    finish_launch(&mut status, Ok(()));
    assert!(status.in_progress);
    finish_launch(&mut status, Err("falhou".to_string()));
    assert_eq!(status.stage, "error");
    assert_eq!(status.last_error.as_deref(), Some("falhou"));
    let mut status = begin_launch();
    finish_launch(&mut status, Err("__cancelled__".to_string()));
    let idle = LaunchStatus::default();
    assert_eq!(status.stage, idle.stage);
    assert!(!status.in_progress && status.last_error.is_none());
}

#[test]
fn attempt_fails_when_the_device_drops_after_being_seen() {
    let mut m = AttemptMachine::new(GpuMode::Host, "emulator-5554".to_string(), false, false);
    let (acts, _) = m.step(AttemptEvent::AdbPoll { cancelled: false, online: true, exit: None });
    assert_eq!(acts.len(), 2);
    let (acts, out) = m.step(AttemptEvent::AdbCheck { online: false });
    assert!(matches!(out, AttemptOutcome::Pending));
    assert!(matches!(
        acts.as_slice(),
        [
            AttemptAction::KillProcessTree,
            AttemptAction::KillStaleEmulators,
            AttemptAction::Sleep(900),
            AttemptAction::ReadDiagnostics
        ]
    ));
    let (_, out) = m.step(AttemptEvent::Diagnostics { details: String::new() });
    assert!(matches!(out, AttemptOutcome::Failed(e) if e == "GPU host: Emulator não apareceu no ADB em 120 segundos."));
}
