use nova_engine::adb::{
    adb_output, adb_result, boot_complete_for, emulator_candidates, install_apk_result,
    installed_apps, launch_app_args, launch_app_message, nova_serial, parse_pid, reports_nova,
    require_booted_device, serial_online, CommandOutput, DeviceTask,
};
use nova_engine::status::{
    begin_launch, collect_state, installer_error_state, installer_started_state,
    launch_cancelled, launch_started_state, mark_launch_error, mark_launch_ready, request_cancel,
    set_stage, should_start_launch, stage_message, EngineObservation, LaunchStatus,
};

fn output(success: bool, stdout: &str, stderr: &str) -> CommandOutput {
    CommandOutput {
        success,
        code: if success { Some(0) } else { Some(1) },
        stdout: stdout.to_string(),
        stderr: stderr.to_string(),
    }
}

fn observation() -> EngineObservation {
    EngineObservation {
        runtime_found: true,
        adb_found: true,
        avd_found: true,
        serial: None,
        boot_complete: false,
        acceleration_ok: true,
        acceleration: "Emulator 35.1 · ok".to_string(),
        android_version: None,
    }
}

#[test]
fn default_status_is_idle() {
    let s = LaunchStatus::default();
    assert!(!s.in_progress && !s.cancel_requested);
    assert!(s.last_error.is_none() && s.serial.is_none() && s.port.is_none() && s.pid.is_none());
    assert_eq!(s.stage, "");
}

#[test]
fn set_stage_clears_the_error_and_keeps_the_rest() {
    let mut s = LaunchStatus::default();
    s.last_error = Some("old".to_string());
    s.port = Some(5554);
    s.cancel_requested = true;
    set_stage(&mut s, "preflight");
    assert_eq!(s.stage, "preflight");
    assert!(s.in_progress);
    assert!(s.last_error.is_none());
    assert_eq!(s.port, Some(5554));
    assert!(s.cancel_requested);
}

#[test]
fn mark_launch_error_and_ready() {
    let mut s = begin_launch();
    assert_eq!(s.stage, "preflight");
    s.pid = Some(42);
    s.serial = Some("emulator-5554".to_string());
    mark_launch_error(&mut s, "boom".to_string());
    assert_eq!(s.stage, "error");
    assert_eq!(s.last_error.as_deref(), Some("boom"));
    assert!(!s.in_progress && s.pid.is_none());
    assert_eq!(s.serial.as_deref(), Some("emulator-5554"));
    s.pid = Some(7);
    s.cancel_requested = true;
    mark_launch_ready(&mut s);
    assert_eq!(s.stage, "running");
    assert!(s.last_error.is_none() && s.pid.is_none() && !s.cancel_requested);
}

#[test]
fn cancellation_is_recorded() {
    let mut s = begin_launch();
    assert!(!launch_cancelled(&s));
    request_cancel(&mut s);
    assert!(launch_cancelled(&s));
    assert!(s.in_progress);
}

#[test]
fn stage_messages() {
    assert_eq!(
        stage_message("preflight"),
        "Limpando processos antigos, reparando o AVD e validando o runtime..."
    );
    assert_eq!(
        stage_message("launching:host"),
        "Abrindo Android com GPU host. No primeiro cold boot o ADB pode levar até 3 minutos..."
    );
    assert_eq!(
        stage_message("waiting-adb:auto"),
        "Android Emulator está aberto com GPU auto; aguardando o ADB aparecer (até 3 minutos no primeiro boot)..."
    );
    assert_eq!(
        stage_message("fallback:software"),
        "A tentativa anterior falhou; testando automaticamente o modo gráfico software..."
    );
    assert_eq!(
        stage_message("booting:swiftshader_indirect"),
        "ADB conectado. Android está concluindo o boot com GPU swiftshader_indirect..."
    );
    assert_eq!(stage_message("other"), "Iniciando Android Emulator...");
    assert_eq!(stage_message(""), "Iniciando Android Emulator...");
}

#[test]
fn collect_state_running_marks_the_launch_ready() {
    let mut obs = observation();
    obs.serial = Some("emulator-5554".to_string());
    obs.boot_complete = true;
    obs.android_version = Some("15".to_string());
    let mut launch = begin_launch();
    let st = collect_state(obs, &mut launch);
    assert_eq!(st.state, "running");
    assert_eq!(st.message, "Android 15 está pronto e conectado via ADB.");
    assert!(st.running && st.boot_complete);
    assert!(!launch.in_progress);
    assert_eq!(launch.stage, "running");
}

#[test]
fn collect_state_without_version_says_android() {
    let mut obs = observation();
    obs.serial = Some("emulator-5554".to_string());
    obs.boot_complete = true;
    let mut launch = LaunchStatus::default();
    let st = collect_state(obs, &mut launch);
    assert_eq!(st.message, "Android Android está pronto e conectado via ADB.");
}

#[test]
fn collect_state_starting_and_missing() {
    let mut obs = observation();
    obs.serial = Some("emulator-5554".to_string());
    let mut launch = begin_launch();
    let st = collect_state(obs, &mut launch);
    assert_eq!(st.state, "starting");
    assert_eq!(st.message, "ADB conectado; o Android ainda está concluindo o boot.");
    assert!(st.running && !st.boot_complete);
    assert!(launch.in_progress);

    let mut obs = observation();
    obs.avd_found = false;
    let st = collect_state(obs, &mut launch);
    assert_eq!(st.state, "runtime_missing");
    assert_eq!(
        st.message,
        "Runtime Android ainda não está pronto. Execute o preparador do NOVA para concluir o ambiente."
    );
    assert!(!st.avd_found);
}

#[test]
fn collect_state_reports_launch_progress_error_and_ready() {
    let mut launch = begin_launch();
    set_stage(&mut launch, "waiting-adb:host");
    let st = collect_state(observation(), &mut launch);
    assert_eq!(st.state, "starting");
    assert_eq!(st.message, stage_message("waiting-adb:host"));

    mark_launch_error(&mut launch, "sem portas".to_string());
    let st = collect_state(observation(), &mut launch);
    assert_eq!(st.state, "error");
    assert_eq!(st.message, "Falha ao iniciar Android: sem portas");

    let mut launch = LaunchStatus::default();
    let st = collect_state(observation(), &mut launch);
    assert_eq!(st.state, "ready");
    assert_eq!(
        st.message,
        "Runtime Android pronto. O NOVA fará um boot controlado pelo engine Rust."
    );
    assert_eq!(st.acceleration, "Emulator 35.1 · ok");

    let mut obs = observation();
    obs.acceleration_ok = false;
    let st = collect_state(obs, &mut launch);
    assert_eq!(
        st.message,
        "Runtime pronto. O accel-check não confirmou o hipervisor; o boot real será usado como teste definitivo."
    );
}

#[test]
fn start_requests_only_launch_from_a_ready_runtime() {
    let mut launch = LaunchStatus::default();
    let ready = collect_state(observation(), &mut launch);
    assert!(should_start_launch(&ready, &launch));
    assert!(!should_start_launch(&ready, &begin_launch()));
    let mut obs = observation();
    obs.serial = Some("emulator-5554".to_string());
    let running = collect_state(obs, &mut launch);
    assert!(!should_start_launch(&running, &launch));
    let mut obs = observation();
    obs.runtime_found = false;
    let missing = collect_state(obs, &mut launch);
    assert!(!should_start_launch(&missing, &launch));
}

#[test]
fn engine_states_for_commands() {
    let st = launch_started_state("acc".to_string());
    assert_eq!(st.state, "starting");
    assert_eq!(
        st.message,
        "Preparando cold boot seguro. A primeira inicialização pode levar alguns minutos."
    );
    assert!(st.runtime_found && !st.running);
    let st = installer_error_state(true, "C:\\x.ps1");
    assert_eq!(st.message, "Script do runtime não encontrado: C:\\x.ps1");
    assert_eq!(st.acceleration, "indisponível");
    let st = installer_error_state(false, "denied");
    assert_eq!(st.message, "Falha ao abrir preparador do runtime: denied");
    let st = installer_started_state(true, false, true, "acc".to_string());
    assert_eq!(st.state, "installing");
    assert_eq!(st.message, "Verificando e reparando o runtime Android do NOVA...");
    assert!(st.runtime_found && !st.adb_found && st.avd_found);
}

#[test]
fn adb_output_trims_successful_output() {
    assert_eq!(adb_output(Some(output(true, "  15\r\n", ""))).as_deref(), Some("15"));
    assert_eq!(adb_output(Some(output(false, "15", ""))), None);
    assert_eq!(adb_output(None), None);
}

#[test]
fn adb_result_picks_output_or_error() {
    assert_eq!(adb_result(Some(Ok(output(true, " out ", "err")))), Ok("out".to_string()));
    assert_eq!(adb_result(Some(Ok(output(true, "  ", " err ")))), Ok("err".to_string()));
    assert_eq!(adb_result(Some(Ok(output(false, "out", " err ")))), Err("err".to_string()));
    assert_eq!(adb_result(Some(Ok(output(false, "out", "")))), Err("out".to_string()));
    assert_eq!(
        adb_result(Some(Err("not found".to_string()))),
        Err("Falha ao executar ADB: not found".to_string())
    );
    assert_eq!(
        adb_result(None),
        Err("ADB não encontrado. Execute o preparador do NOVA novamente.".to_string())
    );
}

const DEVICES: &str = "List of devices attached\nemulator-5554\tdevice\nemulator-5556\toffline\nR58M123\tdevice\nemulator-5558 device product:x\n";

#[test]
fn serial_online_reads_the_device_list() {
    let devices = Some(DEVICES.to_string());
    assert!(serial_online(&devices, "emulator-5554"));
    assert!(!serial_online(&devices, "emulator-5556"));
    assert!(serial_online(&devices, "R58M123"));
    assert!(serial_online(&devices, "emulator-5558"));
    assert!(!serial_online(&devices, "emulator-5560"));
    assert!(!serial_online(&None, "emulator-5554"));
}

#[test]
fn emulator_candidates_lists_running_emulators() {
    assert_eq!(emulator_candidates(DEVICES), vec!["emulator-5554", "emulator-5558"]);
    assert!(emulator_candidates("").is_empty());
}

#[test]
fn reports_nova_looks_for_the_avd_name() {
    assert!(reports_nova("NOVA\r\nOK"));
    assert!(reports_nova("  NOVA  "));
    assert!(!reports_nova("NOVA2\nOK"));
}

#[test]
fn nova_serial_prefers_the_remembered_serial() {
    let devices = Some(DEVICES.to_string());
    let names = vec![Some("Pixel\nOK".to_string()), Some("NOVA\nOK".to_string())];
    assert_eq!(
        nova_serial(Some("R58M123".to_string()), devices.clone(), devices.clone(), &names).as_deref(),
        Some("R58M123")
    );
    assert_eq!(
        nova_serial(Some("emulator-5556".to_string()), devices.clone(), devices.clone(), &names)
            .as_deref(),
        Some("emulator-5558")
    );
    assert_eq!(nova_serial(None, None, devices.clone(), &names).as_deref(), Some("emulator-5558"));
    let unnamed = vec![None, Some("Pixel".to_string())];
    assert_eq!(nova_serial(None, None, devices.clone(), &unnamed), None);
    assert_eq!(nova_serial(Some("emulator-5554".to_string()), None, None, &names), None);
}

#[test]
fn nova_serial_checks_the_remembered_serial_on_its_own_listing() {
    let devices = Some(DEVICES.to_string());
    let names = vec![Some("Pixel\nOK".to_string()), Some("NOVA\nOK".to_string())];
    // Online in the listing read to check it, whatever the fresh listing says.
    assert_eq!(
        nova_serial(Some("R58M123".to_string()), devices.clone(), None, &names).as_deref(),
        Some("R58M123")
    );
    // Not online in the check: the fresh listing decides, even if it shows it.
    let empty = Some("List of devices attached\n".to_string());
    assert_eq!(
        nova_serial(Some("R58M123".to_string()), empty, devices.clone(), &names).as_deref(),
        Some("emulator-5558")
    );
    // The reports may stop at the first that names NOVA.
    let short = vec![Some("Pixel".to_string()), Some("NOVA".to_string())];
    assert_eq!(nova_serial(None, None, devices, &short).as_deref(), Some("emulator-5558"));
}

#[test]
fn nova_serial_takes_a_single_emulator() {
    let devices = Some("List of devices attached\nemulator-5560\tdevice\n".to_string());
    assert_eq!(nova_serial(None, None, devices, &vec![None]).as_deref(), Some("emulator-5560"));
}

#[test]
fn boot_completion_is_read_from_getprop() {
    assert!(boot_complete_for(&Some(" 1\n".to_string())));
    assert!(!boot_complete_for(&Some("0".to_string())));
    assert!(!boot_complete_for(&None));
}

#[test]
fn installed_apps_are_sorted_packages() {
    let listing = "package:com.zeta\n  package:com.alpha \npackage:\nsomething else\npackage:com.beta\r\n";
    let apps = installed_apps(listing);
    let names: Vec<&str> = apps.iter().map(|a| a.package.as_str()).collect();
    assert_eq!(names, vec!["com.alpha", "com.beta", "com.zeta"]);
    assert!(installed_apps("").is_empty());
}

#[test]
fn device_commands_require_a_booted_device() {
    assert_eq!(
        require_booted_device(None, false, DeviceTask::ListApps),
        Err("Inicie o Android antes de carregar a lista de apps.".to_string())
    );
    assert_eq!(
        require_booted_device(Some("emulator-5554".to_string()), false, DeviceTask::InstallApk),
        Err("Aguarde o Android concluir o boot antes de instalar um APK.".to_string())
    );
    assert_eq!(
        require_booted_device(None, true, DeviceTask::LaunchApp),
        Err("Inicie o Android antes de abrir um app.".to_string())
    );
    assert_eq!(
        require_booted_device(Some("emulator-5554".to_string()), true, DeviceTask::LaunchApp),
        Ok("emulator-5554".to_string())
    );
}

#[test]
fn apk_installation_results() {
    assert_eq!(
        install_apk_result(Ok(output(true, "Performing Streamed Install\nSuccess", "")), Some("game.apk".to_string())),
        Ok("APK instalado com sucesso: game.apk".to_string())
    );
    assert_eq!(
        install_apk_result(Ok(output(true, "SUCCESS", "")), None),
        Ok("APK instalado com sucesso: arquivo.apk".to_string())
    );
    assert_eq!(
        install_apk_result(Ok(output(true, "done", "warn")), None),
        Err("warn".to_string())
    );
    assert_eq!(
        install_apk_result(Ok(output(false, "Failure [X]", "")), None),
        Err("Failure [X]".to_string())
    );
    assert_eq!(
        install_apk_result(Err("io".to_string()), None),
        Err("Falha ao executar instalação: io".to_string())
    );
}

#[test]
fn launch_app_arguments() {
    assert_eq!(
        launch_app_args("emulator-5554", "  com.game  "),
        Ok(vec![
            "-s".to_string(),
            "emulator-5554".to_string(),
            "shell".to_string(),
            "monkey".to_string(),
            "-p".to_string(),
            "com.game".to_string(),
            "-c".to_string(),
            "android.intent.category.LAUNCHER".to_string(),
            "1".to_string(),
        ])
    );
    assert_eq!(launch_app_args("emulator-5554", "  "), Err("Pacote inválido.".to_string()));
    assert_eq!(launch_app_message(" com.game "), "Abrindo com.game");
}

#[test]
fn pid_files_are_parsed() {
    assert_eq!(parse_pid(" 1234\r\n"), Some(1234));
    assert_eq!(parse_pid("+7"), Some(7));
    assert_eq!(parse_pid("4294967295"), Some(u32::MAX));
    assert_eq!(parse_pid("4294967296"), None);
    assert_eq!(parse_pid("12a"), None);
    assert_eq!(parse_pid(""), None);
    assert_eq!(parse_pid("+"), None);
    assert_eq!(parse_pid("-1"), None);
}
