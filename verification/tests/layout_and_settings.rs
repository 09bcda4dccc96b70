use nova_engine::layout::{
    adb_path, attempt_log_path, avd_config_path, avd_descriptor, avd_descriptor_path, avd_dir,
    avd_home, avd_snapshots_path, avd_target, boot_marker_path, emulator_path,
    emulator_properties_path, emulator_version, engine_log_path, file_lines_of, log_root,
    pid_file_path, repair_avd_config, sdk_root, set_ini_value, FsPath,
};

fn runtime() -> FsPath {
    FsPath { root: "C:\\Users\\ana\\AppData\\Local\\NOVA\\Runtime".to_string(), parts: Vec::new() }
}

fn parts(p: &FsPath) -> Vec<&str> {
    p.parts.iter().map(|s| s.as_str()).collect()
}

fn chars(s: &str) -> Vec<char> {
    s.chars().collect()
}

fn lines(s: &str) -> Vec<String> {
    file_lines_of(&chars(s)).into_iter().map(|l| l.into_iter().collect()).collect()
}

#[test]
fn runtime_paths_extend_the_runtime_root() {
    let r = runtime();
    assert_eq!(parts(&sdk_root(&r)), vec!["sdk"]);
    assert_eq!(parts(&emulator_path(&r)), vec!["sdk", "emulator", "emulator.exe"]);
    assert_eq!(parts(&emulator_properties_path(&r)), vec!["sdk", "emulator", "source.properties"]);
    assert_eq!(parts(&adb_path(&r)), vec!["sdk", "platform-tools", "adb.exe"]);
    assert_eq!(parts(&avd_home(&r)), vec!["avd"]);
    assert_eq!(parts(&avd_dir(&r)), vec!["avd", "NOVA.avd"]);
    assert_eq!(parts(&avd_config_path(&r)), vec!["avd", "NOVA.avd", "config.ini"]);
    assert_eq!(parts(&avd_descriptor_path(&r)), vec!["avd", "NOVA.ini"]);
    assert_eq!(parts(&avd_snapshots_path(&r)), vec!["avd", "NOVA.avd", "snapshots"]);
    assert_eq!(parts(&log_root(&r)), vec!["logs"]);
    assert_eq!(parts(&engine_log_path(&r)), vec!["logs", "engine-last-start.log"]);
    assert_eq!(sdk_root(&r).root, r.root);
}

#[test]
fn runtime_paths_keep_existing_components() {
    let r = FsPath { root: "/tmp".to_string(), parts: vec!["NOVA".to_string(), "Runtime".to_string()] };
    assert_eq!(parts(&avd_dir(&r)), vec!["NOVA", "Runtime", "avd", "NOVA.avd"]);
    assert_eq!(avd_dir(&r).root, "/tmp");
}

#[test]
fn attempt_logs_are_named_by_tag_and_stream() {
    let r = runtime();
    let p = attempt_log_path(&r, "host-cold", "stderr");
    assert_eq!(parts(&p), vec!["logs", "emulator-host-cold-stderr.log"]);
}

#[test]
fn marker_and_pid_files_live_in_the_runtime() {
    let r = runtime();
    let marker = boot_marker_path(&r);
    let pid = pid_file_path(&r);
    assert_eq!(marker.root, r.root);
    assert_eq!(pid.root, r.root);
    assert_eq!(parts(&marker), vec!["boot-ok.marker"]);
    assert_eq!(parts(&pid), vec!["engine.pid"]);
}

#[test]
fn file_lines_split_like_str_lines() {
    assert_eq!(lines("a\r\nb\n\nc"), vec!["a", "b", "", "c"]);
    assert_eq!(lines("a\n"), vec!["a"]);
    assert_eq!(lines(""), Vec::<String>::new());
    assert_eq!(lines("x\r"), vec!["x\r"]);
    assert_eq!(lines("a\r\r\n"), vec!["a\r"]);
}

#[test]
fn emulator_version_reads_the_revision() {
    let text = "Pkg.Desc = Android Emulator\r\nPkg.Revision=35.3.11\r\n".to_string();
    assert_eq!(emulator_version(Some(text)), "35.3.11");
    let spaced = "Pkg.Revision = 34.2.16 \n".to_string();
    assert_eq!(emulator_version(Some(spaced)), "34.2.16");
}

#[test]
fn emulator_version_is_unknown_without_a_revision() {
    assert_eq!(emulator_version(None), "desconhecida");
    assert_eq!(emulator_version(Some("Pkg.Desc=x\n".to_string())), "desconhecida");
    assert_eq!(emulator_version(Some("Pkg.Revision=   \n".to_string())), "desconhecida");
}

#[test]
fn set_ini_value_replaces_every_line_of_the_key() {
    let text = "a=1\r\nhw.keyboard=no\nb=2\nhw.keyboard=maybe";
    assert_eq!(set_ini_value(text, "hw.keyboard", "yes"), "a=1\nhw.keyboard=yes\nb=2\nhw.keyboard=yes\n");
}

#[test]
fn set_ini_value_appends_a_missing_key() {
    assert_eq!(set_ini_value("a=1\n", "hw.gpu.mode", "auto"), "a=1\nhw.gpu.mode=auto\n");
    assert_eq!(set_ini_value("", "hw.gpu.mode", "auto"), "hw.gpu.mode=auto\n");
}

#[test]
fn set_ini_value_needs_the_equals_sign_right_after_the_key() {
    let text = "hw.keyboard.lid=yes\nhw.keyboard = no\n";
    assert_eq!(
        set_ini_value(text, "hw.keyboard", "yes"),
        "hw.keyboard.lid=yes\nhw.keyboard = no\nhw.keyboard=yes\n"
    );
}

#[test]
fn written_setting_reads_back() {
    let written = set_ini_value("target=android-30\nother=1\n", "target", "android-34");
    assert_eq!(avd_target(Some(written)), "android-34");
}

#[test]
fn avd_target_reads_the_first_target_line() {
    assert_eq!(avd_target(Some("path=x\ntarget= android-33 \ntarget=android-1\n".to_string())), "android-33");
    assert_eq!(avd_target(Some("path=x\n".to_string())), "android-35");
    assert_eq!(avd_target(Some("target=\n".to_string())), "android-35");
    assert_eq!(avd_target(None), "android-35");
}

#[test]
fn avd_descriptor_names_the_device_directory_and_target() {
    let dir = "C:\\NOVA\\Runtime\\avd\\NOVA.avd";
    let text = avd_descriptor(dir, Some("target=android-34\n".to_string()));
    assert_eq!(
        text,
        "avd.ini.encoding=UTF-8\npath=C:\\NOVA\\Runtime\\avd\\NOVA.avd\npath.rel=NOVA.avd\ntarget=android-34\n"
    );
    let fresh = avd_descriptor("/d", None);
    assert_eq!(fresh, "avd.ini.encoding=UTF-8\npath=/d\npath.rel=NOVA.avd\ntarget=android-35\n");
}

#[test]
fn repair_enforces_every_device_setting() {
    let config = "hw.gpu.mode=swiftshader_indirect\r\nhw.ramSize=4096\nfastboot.forceColdBoot=yes\n";
    let repaired = repair_avd_config(config);
    assert_eq!(
        repaired,
        "hw.gpu.mode=auto\nhw.ramSize=4096\nfastboot.forceColdBoot=no\nhw.keyboard=yes\n\
hw.gpu.enabled=yes\nhw.lcd.width=720\nhw.lcd.height=1280\nhw.lcd.density=320\n\
disk.dataPartition.size=12G\nfastboot.forceFastBoot=no\n"
    );
}

#[test]
fn repair_of_an_empty_config_writes_all_settings_in_order() {
    let repaired = repair_avd_config("");
    assert_eq!(
        lines(&repaired),
        vec![
            "hw.keyboard=yes",
            "hw.gpu.enabled=yes",
            "hw.gpu.mode=auto",
            "hw.lcd.width=720",
            "hw.lcd.height=1280",
            "hw.lcd.density=320",
            "disk.dataPartition.size=12G",
            "fastboot.forceColdBoot=no",
            "fastboot.forceFastBoot=no",
        ]
    );
}

#[test]
fn writing_a_setting_twice_is_writing_it_once() {
    let text = "a=1\r\nhw.keyboard=no\nb=2";
    let once = set_ini_value(text, "hw.keyboard", "yes");
    assert_eq!(set_ini_value(&once, "hw.keyboard", "yes"), once);
    let fresh = set_ini_value("x=1\n", "hw.gpu.mode", "auto");
    assert_eq!(set_ini_value(&fresh, "hw.gpu.mode", "auto"), fresh);
}

#[test]
fn writing_twice_replaces_carriage_returns_on_the_key_lines() {
    let text = "hw.keyboard=no\r\r\nb=2\n";
    let once = set_ini_value(text, "hw.keyboard", "yes\r");
    assert_eq!(once, "hw.keyboard=yes\r\nb=2\n");
    assert_eq!(set_ini_value(&once, "hw.keyboard", "yes\r"), once);
}
