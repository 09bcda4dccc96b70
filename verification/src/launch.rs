//! Planning a boot: performance profiles, graphics fallbacks, emulator ports,
//! the command lines the engine runs, and the texts it logs.

use vstd::prelude::*;

use crate::adb::CommandOutput;
use crate::diagnostics::{cleaned_lines, compact_output, line_separator, tail_limited};
use crate::text::{
    bool_text, decimal, join, push_bool, push_chars, push_decimal, push_owned, push_signed,
    push_str, push_string, replace_char, replace_char_chars, signed_decimal, str_chars,
    string_from_chars, to_lowercase, unicode_lowercase,
};

verus! {

/// A graphics mode of the Android emulator.
#[derive(Clone, Copy, PartialEq, Eq, Structural)]
pub enum GpuMode {
    Host,
    Auto,
    Software,
    SwiftshaderIndirect,
}

/// The name the emulator gives a graphics mode.
pub open spec fn gpu_text(g: GpuMode) -> Seq<char> {
    match g {
        GpuMode::Host => "host"@,
        GpuMode::Auto => "auto"@,
        GpuMode::Software => "software"@,
        GpuMode::SwiftshaderIndirect => "swiftshader_indirect"@,
    }
}

/// The name the emulator gives a graphics mode.
pub fn gpu_name(g: GpuMode) -> (r: &'static str)
    ensures
        r@ == gpu_text(g),
{
    match g {
        GpuMode::Host => "host",
        GpuMode::Auto => "auto",
        GpuMode::Software => "software",
        GpuMode::SwiftshaderIndirect => "swiftshader_indirect",
    }
}

/// The resources of a performance profile and its graphics modes, best first.
#[derive(Clone)]
pub struct ProfileSettings {
    pub cores: u8,
    pub ram_mb: u32,
    pub gpu_modes: Vec<GpuMode>,
}

/// The cores, memory and graphics modes of a profile name: "eco",
/// "performance", or any other name for the balanced profile.
pub open spec fn profile_of(name: Seq<char>) -> (u8, u32, Seq<GpuMode>) {
    if name == "eco"@ {
        (2, 2048, seq![GpuMode::Auto, GpuMode::Software])
    } else if name == "performance"@ {
        (4, 6144, seq![GpuMode::Host, GpuMode::Auto, GpuMode::Software])
    } else {
        (3, 4096, seq![GpuMode::Auto, GpuMode::Host, GpuMode::Software])
    }
}

/// The settings of the profile named `profile`.
pub fn profile_settings(profile: &str) -> (res: ProfileSettings)
    ensures
        res.cores == profile_of(profile@).0,
        res.ram_mb == profile_of(profile@).1,
        res.gpu_modes@ == profile_of(profile@).2,
{
    let name = str_chars(profile);
    if crate::text::chars_eq_str(&name, "eco") {
        let mut modes: Vec<GpuMode> = Vec::new();
        modes.push(GpuMode::Auto);
        modes.push(GpuMode::Software);
        assert(modes@ =~= seq![GpuMode::Auto, GpuMode::Software]);
        ProfileSettings { cores: 2, ram_mb: 2048, gpu_modes: modes }
    } else if crate::text::chars_eq_str(&name, "performance") {
        let mut modes: Vec<GpuMode> = Vec::new();
        modes.push(GpuMode::Host);
        modes.push(GpuMode::Auto);
        modes.push(GpuMode::Software);
        assert(modes@ =~= seq![GpuMode::Host, GpuMode::Auto, GpuMode::Software]);
        ProfileSettings { cores: 4, ram_mb: 6144, gpu_modes: modes }
    } else {
        let mut modes: Vec<GpuMode> = Vec::new();
        modes.push(GpuMode::Auto);
        modes.push(GpuMode::Host);
        modes.push(GpuMode::Software);
        assert(modes@ =~= seq![GpuMode::Auto, GpuMode::Host, GpuMode::Software]);
        ProfileSettings { cores: 3, ram_mb: 4096, gpu_modes: modes }
    }
}

/// The settings of the profile that a start request names, in any case.
pub fn launch_profile(requested: &str) -> (res: ProfileSettings)
    ensures
        res.cores == profile_of(unicode_lowercase(requested@)).0,
        res.ram_mb == profile_of(unicode_lowercase(requested@)).1,
        res.gpu_modes@ == profile_of(unicode_lowercase(requested@)).2,
{
    let lowered = to_lowercase(requested);
    profile_settings(lowered.as_str())
}

/// One boot attempt: a graphics mode and how the device is started.
#[derive(Clone, Copy)]
pub struct AttemptPlan {
    pub gpu: GpuMode,
    pub cold_boot: bool,
    pub wipe_data: bool,
    pub disable_vulkan: bool,
}

/// The plan for graphics mode `gpu` at position `index` of a known-good
/// device: cold boots after the first, Vulkan off for software rendering.
pub open spec fn regular_plan(gpu: GpuMode, index: int) -> AttemptPlan {
    AttemptPlan {
        gpu,
        cold_boot: index > 0,
        wipe_data: false,
        disable_vulkan: gpu == GpuMode::Software || gpu == GpuMode::SwiftshaderIndirect,
    }
}

/// The plans for a device that never booted: software renderers first, all
/// cold boots, the first one wiping the data.
pub open spec fn first_boot_plans() -> Seq<AttemptPlan> {
    seq![
        AttemptPlan {
            gpu: GpuMode::SwiftshaderIndirect,
            cold_boot: true,
            wipe_data: true,
            disable_vulkan: true,
        },
        AttemptPlan {
            gpu: GpuMode::Software,
            cold_boot: true,
            wipe_data: false,
            disable_vulkan: true,
        },
        AttemptPlan { gpu: GpuMode::Auto, cold_boot: true, wipe_data: false, disable_vulkan: false },
    ]
}

/// The cores a boot uses: at most 2 on a first boot.
pub open spec fn planned_cores(cores: u8, first_boot: bool) -> u8 {
    if first_boot && cores > 2 {
        2
    } else {
        cores
    }
}

/// The memory a boot uses: at most 3072 MB on a first boot.
pub open spec fn planned_ram(ram_mb: u32, first_boot: bool) -> u32 {
    if first_boot && ram_mb > 3072 {
        3072
    } else {
        ram_mb
    }
}

/// The attempts of a boot: the first-boot plans, or one regular plan per
/// graphics mode of the profile.
pub open spec fn planned_attempts(modes: Seq<GpuMode>, first_boot: bool) -> Seq<AttemptPlan> {
    if first_boot {
        first_boot_plans()
    } else {
        Seq::new(modes.len(), |i: int| regular_plan(modes[i], i))
    }
}

/// The boot plans and the settings they run with. A first boot uses at most 2
/// cores and 3072 MB with the first-boot plans; otherwise the profile's
/// settings are kept and there is one regular plan per graphics mode.
pub fn launch_plans(settings: ProfileSettings, first_boot: bool) -> (res: (
    ProfileSettings,
    Vec<AttemptPlan>,
))
    ensures
        res.0.cores == planned_cores(settings.cores, first_boot),
        res.0.ram_mb == planned_ram(settings.ram_mb, first_boot),
        res.0.gpu_modes@ == settings.gpu_modes@,
        res.1@ == planned_attempts(settings.gpu_modes@, first_boot),
{
    let mut s = settings;
    let mut plans: Vec<AttemptPlan> = Vec::new();
    if first_boot {
        if s.cores > 2 {
            s.cores = 2;
        }
        if s.ram_mb > 3072 {
            s.ram_mb = 3072;
        }
        plans.push(
            AttemptPlan {
                gpu: GpuMode::SwiftshaderIndirect,
                cold_boot: true,
                wipe_data: true,
                disable_vulkan: true,
            },
        );
        plans.push(
            AttemptPlan {
                gpu: GpuMode::Software,
                cold_boot: true,
                wipe_data: false,
                disable_vulkan: true,
            },
        );
        plans.push(
            AttemptPlan { gpu: GpuMode::Auto, cold_boot: true, wipe_data: false, disable_vulkan: false },
        );
        assert(plans@ =~= first_boot_plans());
    } else {
        let mut i: usize = 0;
        while i < s.gpu_modes.len()
            invariant
                i <= s.gpu_modes.len(),
                plans@.len() == i,
                forall|j: int|
                    0 <= j < i ==> #[trigger] plans@[j] == regular_plan(s.gpu_modes@[j], j),
            decreases s.gpu_modes.len() - i,
        {
            let gpu = s.gpu_modes[i];
            let software = match gpu {
                GpuMode::Software => true,
                GpuMode::SwiftshaderIndirect => true,
                _ => false,
            };
            plans.push(
                AttemptPlan { gpu, cold_boot: i > 0, wipe_data: false, disable_vulkan: software },
            );
            i = i + 1;
        }
        assert(plans@ =~= planned_attempts(s.gpu_modes@, first_boot));
    }
    (s, plans)
}

// ---------------------------------------------------------------------------
// Ports and serials
// ---------------------------------------------------------------------------

/// The console ports the emulator may use: 5554, 5556, ..., 5682.
pub open spec fn candidate_port(i: int) -> int {
    5554 + 2 * i
}

/// How many console ports are tried.
pub open spec fn port_count() -> nat {
    65
}

/// The console ports to try, in order.
pub fn emulator_port_candidates() -> (res: Vec<u16>)
    ensures
        res@.len() == port_count(),
        forall|i: int| 0 <= i < res@.len() ==> #[trigger] res@[i] == candidate_port(i),
{
    let mut res: Vec<u16> = Vec::new();
    let mut p: u16 = 5554;
    while p <= 5682
        invariant
            5554 <= p <= 5684,
            p % 2 == 0,
            res@.len() == (p - 5554) / 2,
            forall|i: int| 0 <= i < res@.len() ==> #[trigger] res@[i] == candidate_port(i),
        decreases 5684 - p,
    {
        res.push(p);
        p = p + 2;
    }
    res
}

/// The first console port whose pair (port and port + 1) is free, where
/// `free[i]` tells whether the pair of candidate `i` could be bound.
pub fn find_free_emulator_port(free: &Vec<bool>) -> (res: Result<u16, String>)
    ensures
        res matches Ok(p) ==> exists|i: int|
            0 <= i < port_count() && i < free@.len() && #[trigger] free@[i] && p == candidate_port(
                i,
            ) && forall|j: int| 0 <= j < i ==> !free@[j],
        res is Err <==> forall|i: int| 0 <= i < port_count() && i < free@.len() ==> !#[trigger] free@[i],
        res matches Err(e) ==> e@
            == "Nenhum par de portas livre entre 5554 e 5683 para o Android Emulator."@,
{
    let ports = emulator_port_candidates();
    let mut i: usize = 0;
    while i < ports.len()
        invariant
            i <= ports.len(),
            ports@.len() == port_count(),
            forall|k: int| 0 <= k < ports@.len() ==> #[trigger] ports@[k] == candidate_port(k),
            forall|j: int| 0 <= j < i && j < free@.len() ==> !#[trigger] free@[j],
        decreases ports.len() - i,
    {
        if i < free.len() && free[i] {
            assert(ports@[i as int] == candidate_port(i as int));
            assert forall|j: int| 0 <= j < i implies !free@[j] by {
                if j < free@.len() {
                }
            }
            return Ok(ports[i]);
        }
        i = i + 1;
    }
    Err(String::from_str("Nenhum par de portas livre entre 5554 e 5683 para o Android Emulator."))
}

/// The serial ADB gives the emulator on console port `port`.
pub open spec fn serial_text(port: u16) -> Seq<char> {
    "emulator-"@ + decimal(port as nat)
}

/// The serial ADB gives the emulator on console port `port`.
pub fn serial_for_port(port: u16) -> (res: String)
    ensures
        res@ == serial_text(port),
{
    let mut out: Vec<char> = Vec::new();
    push_str(&mut out, "emulator-");
    push_decimal(&mut out, port as u64);
    string_from_chars(out.as_slice())
}

// ---------------------------------------------------------------------------
// Command lines
// ---------------------------------------------------------------------------

/// A program to run and its arguments.
pub struct CommandLine {
    pub program: String,
    pub args: Vec<String>,
}

/// The command that stops process `pid` and its children.
pub fn kill_process_tree(pid: u32) -> (res: CommandLine)
    ensures
        res.program@ == "taskkill.exe"@,
        res.args.deep_view() == seq!["/PID"@, decimal(pid as nat), "/T"@, "/F"@],
{
    let mut args: Vec<String> = Vec::new();
    push_string(&mut args, "/PID");
    let mut digits: Vec<char> = Vec::new();
    push_decimal(&mut digits, pid as u64);
    assert(digits@ =~= decimal(pid as nat));
    push_owned(&mut args, string_from_chars(digits.as_slice()));
    push_string(&mut args, "/T");
    push_string(&mut args, "/F");
    assert(args.deep_view() =~= seq!["/PID"@, decimal(pid as nat), "/T"@, "/F"@]);
    CommandLine { program: String::from_str("taskkill.exe"), args }
}

/// The PowerShell filter that stops every emulator or QEMU process started
/// from below the runtime root held in `$root`.
pub open spec fn stale_filter() -> Seq<char> {
    "'; Get-CimInstance Win32_Process -ErrorAction SilentlyContinue | Where-Object { ($_.Name -eq 'emulator.exe' -or $_.Name -eq 'qemu-system-x86_64.exe') -and ((-not [string]::IsNullOrWhiteSpace($_.ExecutablePath) -and $_.ExecutablePath.StartsWith($root,[System.StringComparison]::OrdinalIgnoreCase)) -or (-not [string]::IsNullOrWhiteSpace($_.CommandLine) -and $_.CommandLine.IndexOf($root,[System.StringComparison]::OrdinalIgnoreCase) -ge 0)) } | ForEach-Object { Stop-Process -Id $_.ProcessId -Force -ErrorAction SilentlyContinue }"@
}

/// The script that stops the stale emulators of the runtime at `runtime` (as
/// the system displays it), its single quotes doubled inside the literal.
pub open spec fn stale_script(runtime: Seq<char>) -> Seq<char> {
    "$root='"@ + replace_char(runtime, '\'', "''"@) + stale_filter()
}

/// The command that stops emulators left running from the runtime at
/// `runtime` (as the system displays it).
pub fn kill_stale_runtime_emulators(runtime: &str) -> (res: CommandLine)
    ensures
        res.program@ == "powershell.exe"@,
        res.args.deep_view() == seq![
            "-NoProfile"@,
            "-ExecutionPolicy"@,
            "Bypass"@,
            "-Command"@,
            stale_script(runtime@),
        ],
{
    let r = str_chars(runtime);
    let quotes = str_chars("''");
    let escaped = replace_char_chars(&r, '\'', &quotes);
    let mut script: Vec<char> = Vec::new();
    push_str(&mut script, "$root='");
    push_chars(&mut script, &escaped);
    push_str(
        &mut script,
        "'; Get-CimInstance Win32_Process -ErrorAction SilentlyContinue | Where-Object { ($_.Name -eq 'emulator.exe' -or $_.Name -eq 'qemu-system-x86_64.exe') -and ((-not [string]::IsNullOrWhiteSpace($_.ExecutablePath) -and $_.ExecutablePath.StartsWith($root,[System.StringComparison]::OrdinalIgnoreCase)) -or (-not [string]::IsNullOrWhiteSpace($_.CommandLine) -and $_.CommandLine.IndexOf($root,[System.StringComparison]::OrdinalIgnoreCase) -ge 0)) } | ForEach-Object { Stop-Process -Id $_.ProcessId -Force -ErrorAction SilentlyContinue }",
    );
    let mut args: Vec<String> = Vec::new();
    push_string(&mut args, "-NoProfile");
    push_string(&mut args, "-ExecutionPolicy");
    push_string(&mut args, "Bypass");
    push_string(&mut args, "-Command");
    let ghost sv = script@;
    push_owned(&mut args, string_from_chars(script.as_slice()));
    assert(sv =~= stale_script(runtime@));
    assert(args.deep_view() =~= seq![
        "-NoProfile"@,
        "-ExecutionPolicy"@,
        "Bypass"@,
        "-Command"@,
        stale_script(runtime@),
    ]);
    CommandLine { program: String::from_str("powershell.exe"), args }
}

/// The emulator's arguments for an attempt on console port `port`.
pub open spec fn emulator_args_of(port: u16, cores: u8, ram_mb: u32, plan: AttemptPlan) -> Seq<
    Seq<char>,
> {
    seq![
        "-avd"@,
        "NOVA"@,
        "-port"@,
        decimal(port as nat),
        "-accel"@,
        "on"@,
        "-gpu"@,
        gpu_text(plan.gpu),
        "-cores"@,
        decimal(cores as nat),
        "-memory"@,
        decimal(ram_mb as nat),
        "-skin"@,
        "720x1280"@,
        "-no-metrics"@,
        "-no-boot-anim"@,
        "-no-audio"@,
        "-camera-back"@,
        "none"@,
        "-camera-front"@,
        "none"@,
        "-netfast"@,
    ] + (if plan.disable_vulkan {
        seq!["-feature"@, "-Vulkan"@]
    } else {
        Seq::<Seq<char>>::empty()
    }) + (if plan.cold_boot {
        seq!["-no-snapshot-load"@, "-no-snapshot-save"@]
    } else {
        Seq::<Seq<char>>::empty()
    }) + (if plan.wipe_data {
        seq!["-wipe-data"@]
    } else {
        Seq::<Seq<char>>::empty()
    })
}

/// Appends the decimal form of `n` to a list of strings.
fn push_number(args: &mut Vec<String>, n: u64)
    ensures
        final(args).deep_view() == old(args).deep_view().push(decimal(n as nat)),
{
    let mut digits: Vec<char> = Vec::new();
    push_decimal(&mut digits, n);
    assert(digits@ =~= decimal(n as nat));
    push_owned(args, string_from_chars(digits.as_slice()));
}

/// The emulator's arguments for an attempt with `profile` on console port
/// `port`.
pub fn emulator_args(port: u16, profile: &ProfileSettings, plan: &AttemptPlan) -> (res: Vec<
    String,
>)
    ensures
        res.deep_view() == emulator_args_of(port, profile.cores, profile.ram_mb, *plan),
{
    let mut a: Vec<String> = Vec::new();
    push_string(&mut a, "-avd");
    push_string(&mut a, "NOVA");
    push_string(&mut a, "-port");
    push_number(&mut a, port as u64);
    push_string(&mut a, "-accel");
    push_string(&mut a, "on");
    push_string(&mut a, "-gpu");
    push_string(&mut a, gpu_name(plan.gpu));
    push_string(&mut a, "-cores");
    push_number(&mut a, profile.cores as u64);
    push_string(&mut a, "-memory");
    push_number(&mut a, profile.ram_mb as u64);
    push_string(&mut a, "-skin");
    push_string(&mut a, "720x1280");
    push_string(&mut a, "-no-metrics");
    push_string(&mut a, "-no-boot-anim");
    push_string(&mut a, "-no-audio");
    push_string(&mut a, "-camera-back");
    push_string(&mut a, "none");
    push_string(&mut a, "-camera-front");
    push_string(&mut a, "none");
    push_string(&mut a, "-netfast");
    let ghost base = a.deep_view();
    if plan.disable_vulkan {
        push_string(&mut a, "-feature");
        push_string(&mut a, "-Vulkan");
    }
    let ghost with_vk = a.deep_view();
    if plan.cold_boot {
        push_string(&mut a, "-no-snapshot-load");
        push_string(&mut a, "-no-snapshot-save");
    }
    let ghost with_cold = a.deep_view();
    if plan.wipe_data {
        push_string(&mut a, "-wipe-data");
    }
    proof {
        let e = Seq::<Seq<char>>::empty();
        let vk = if plan.disable_vulkan {
            seq!["-feature"@, "-Vulkan"@]
        } else {
            e
        };
        let cold = if plan.cold_boot {
            seq!["-no-snapshot-load"@, "-no-snapshot-save"@]
        } else {
            e
        };
        let wipe = if plan.wipe_data {
            seq!["-wipe-data"@]
        } else {
            e
        };
        assert(with_vk =~= base + vk);
        assert(with_cold =~= base + vk + cold);
        assert(a.deep_view() =~= base + vk + cold + wipe);
        assert(base =~= seq![
            "-avd"@,
            "NOVA"@,
            "-port"@,
            decimal(port as nat),
            "-accel"@,
            "on"@,
            "-gpu"@,
            gpu_text(plan.gpu),
            "-cores"@,
            decimal(profile.cores as nat),
            "-memory"@,
            decimal(profile.ram_mb as nat),
            "-skin"@,
            "720x1280"@,
            "-no-metrics"@,
            "-no-boot-anim"@,
            "-no-audio"@,
            "-camera-back"@,
            "none"@,
            "-camera-front"@,
            "none"@,
            "-netfast"@,
        ]);
    }
    a
}

// ---------------------------------------------------------------------------
// Attempt texts
// ---------------------------------------------------------------------------

/// The tag naming an attempt's log files: its number (counted from 1) and its
/// graphics mode with `_` turned into `-`.
pub open spec fn attempt_tag_text(attempt: nat, gpu: GpuMode) -> Seq<char> {
    decimal(attempt + 1) + "-"@ + replace_char(gpu_text(gpu), '_', "-"@)
}

/// The tag naming the log files of attempt `attempt` (counted from 0).
pub fn attempt_tag(attempt: usize, gpu: GpuMode) -> (res: String)
    requires
        attempt < u64::MAX,
    ensures
        res@ == attempt_tag_text(attempt as nat, gpu),
{
    let mut out: Vec<char> = Vec::new();
    push_decimal(&mut out, attempt as u64 + 1);
    push_str(&mut out, "-");
    let name = str_chars(gpu_name(gpu));
    let dash = str_chars("-");
    let replaced = replace_char_chars(&name, '_', &dash);
    push_chars(&mut out, &replaced);
    string_from_chars(out.as_slice())
}

/// The stage of an attempt once its emulator is being opened: "launching:"
/// for the first attempt, "fallback:" for the others.
pub open spec fn opening_stage(attempt: nat, gpu: GpuMode) -> Seq<char> {
    if attempt == 0 {
        "launching:"@ + gpu_text(gpu)
    } else {
        "fallback:"@ + gpu_text(gpu)
    }
}

/// `prefix` followed by the name of `gpu`.
fn labelled(prefix: &str, gpu: GpuMode) -> (res: String)
    ensures
        res@ == prefix@ + gpu_text(gpu),
{
    let mut out: Vec<char> = Vec::new();
    push_str(&mut out, prefix);
    push_str(&mut out, gpu_name(gpu));
    string_from_chars(out.as_slice())
}

/// The stage of attempt `attempt` once its emulator is being opened.
pub fn opening_stage_for(attempt: usize, gpu: GpuMode) -> (res: String)
    ensures
        res@ == opening_stage(attempt as nat, gpu),
{
    if attempt == 0 {
        labelled("launching:", gpu)
    } else {
        labelled("fallback:", gpu)
    }
}

/// The stage while waiting for ADB to see the emulator.
pub fn waiting_stage(gpu: GpuMode) -> (res: String)
    ensures
        res@ == "waiting-adb:"@ + gpu_text(gpu),
{
    labelled("waiting-adb:", gpu)
}

/// The log line that opens an attempt.
pub open spec fn attempt_log_text(
    attempt: nat,
    port: u16,
    cores: u8,
    ram_mb: u32,
    plan: AttemptPlan,
    version: Seq<char>,
) -> Seq<char> {
    "attempt="@ + decimal(attempt + 1) + " gpu="@ + gpu_text(plan.gpu) + " port="@ + decimal(
        port as nat,
    ) + " cores="@ + decimal(cores as nat) + " ram="@ + decimal(ram_mb as nat) + " cold_boot="@
        + bool_text(plan.cold_boot) + " wipe="@ + bool_text(plan.wipe_data) + " no_vulkan="@
        + bool_text(plan.disable_vulkan) + " emulator="@ + version
}

/// The log line that opens attempt `attempt` (counted from 0).
pub fn attempt_log_line(
    attempt: usize,
    port: u16,
    profile: &ProfileSettings,
    plan: &AttemptPlan,
    version: &str,
) -> (res: String)
    requires
        attempt < u64::MAX,
    ensures
        res@ == attempt_log_text(
            attempt as nat,
            port,
            profile.cores,
            profile.ram_mb,
            *plan,
            version@,
        ),
{
    let mut out: Vec<char> = Vec::new();
    push_str(&mut out, "attempt=");
    push_decimal(&mut out, attempt as u64 + 1);
    push_str(&mut out, " gpu=");
    push_str(&mut out, gpu_name(plan.gpu));
    push_str(&mut out, " port=");
    push_decimal(&mut out, port as u64);
    push_str(&mut out, " cores=");
    push_decimal(&mut out, profile.cores as u64);
    push_str(&mut out, " ram=");
    push_decimal(&mut out, profile.ram_mb as u64);
    push_str(&mut out, " cold_boot=");
    push_bool(&mut out, plan.cold_boot);
    push_str(&mut out, " wipe=");
    push_bool(&mut out, plan.wipe_data);
    push_str(&mut out, " no_vulkan=");
    push_bool(&mut out, plan.disable_vulkan);
    push_str(&mut out, " emulator=");
    push_str(&mut out, version);
    string_from_chars(out.as_slice())
}

// ---------------------------------------------------------------------------
// Acceleration check
// ---------------------------------------------------------------------------

/// The result of running the emulator's acceleration check.
pub struct AccelCheck {
    /// The emulator version, as `source.properties` declares it.
    pub version: String,
    /// What the check printed, or why it could not be run.
    pub result: Result<CommandOutput, String>,
}

/// The exit code printed for a command, -1 when it exited without one.
pub open spec fn code_text(code: Option<i32>) -> Seq<char> {
    match code {
        Some(c) => signed_decimal(c as int),
        None => "-1"@,
    }
}

/// Appends the exit code of a command (or -1) to `out`.
fn push_code(out: &mut Vec<char>, code: Option<i32>)
    ensures
        final(out)@ == old(out)@ + code_text(code),
{
    match code {
        Some(c) => push_signed(out, c as i64),
        None => push_str(out, "-1"),
    }
}

/// Whether hardware acceleration is confirmed, and the report shown for it:
/// "runtime não instalado" without an emulator (`None`), else what the
/// emulator's acceleration check printed, its exit code, or why it could not
/// be run, after the emulator version.
pub open spec fn acceleration_of(check: Option<AccelCheck>) -> (bool, Seq<char>) {
    match check {
        None => (false, "runtime n\u{e3}o instalado"@),
        Some(c) => match c.result {
            Ok(o) => {
                let normalized = tail_limited(
                    join(cleaned_lines(o.stdout@ + o.stderr@), line_separator()),
                    2200,
                );
                if o.success {
                    (
                        true,
                        if normalized.len() == 0 {
                            "Emulator "@ + c.version@ + " \u{b7} hipervisor dispon\u{ed}vel"@
                        } else {
                            "Emulator "@ + c.version@ + " \u{b7} "@ + normalized
                        },
                    )
                } else {
                    (
                        false,
                        "Emulator "@ + c.version@ + " \u{b7} accel-check c\u{f3}digo "@ + code_text(
                            o.code,
                        ) + " \u{b7} o boot real far\u{e1} o teste"@,
                    )
                }
            },
            Err(e) => (
                false,
                "Emulator "@ + c.version@ + " \u{b7} accel-check indispon\u{ed}vel: "@ + e@,
            ),
        },
    }
}

/// Whether hardware acceleration is confirmed, and its report (see
/// `acceleration_of`).
pub fn acceleration_probe(check: Option<AccelCheck>) -> (res: (bool, String))
    ensures
        res.0 == acceleration_of(check).0,
        res.1@ == acceleration_of(check).1,
{
    let c = match check {
        None => {
            return (false, String::from_str("runtime n\u{e3}o instalado"));
        },
        Some(c) => c,
    };
    let mut out: Vec<char> = Vec::new();
    push_str(&mut out, "Emulator ");
    push_str(&mut out, c.version.as_str());
    match c.result {
        Ok(o) => {
            let mut text: Vec<char> = Vec::new();
            push_str(&mut text, o.stdout.as_str());
            push_str(&mut text, o.stderr.as_str());
            let normalized = compact_output(string_from_chars(text.as_slice()));
            if o.success {
                let n = str_chars(normalized.as_str());
                if n.len() == 0 {
                    push_str(&mut out, " \u{b7} hipervisor dispon\u{ed}vel");
                } else {
                    push_str(&mut out, " \u{b7} ");
                    push_str(&mut out, normalized.as_str());
                }
                (true, string_from_chars(out.as_slice()))
            } else {
                push_str(&mut out, " \u{b7} accel-check c\u{f3}digo ");
                push_code(&mut out, o.code);
                push_str(&mut out, " \u{b7} o boot real far\u{e1} o teste");
                (false, string_from_chars(out.as_slice()))
            }
        },
        Err(e) => {
            push_str(&mut out, " \u{b7} accel-check indispon\u{ed}vel: ");
            push_str(&mut out, e.as_str());
            (false, string_from_chars(out.as_slice()))
        },
    }
}

/// The log line recording the acceleration check of a boot sequence.
pub open spec fn accel_log_text(o: CommandOutput) -> Seq<char> {
    "accel-check exit="@ + code_text(o.code) + " "@ + tail_limited(
        join(cleaned_lines(o.stdout@ + o.stderr@), line_separator()),
        2200,
    )
}

/// The log line recording the acceleration check of a boot sequence.
pub fn accel_log_line(o: &CommandOutput) -> (res: String)
    ensures
        res@ == accel_log_text(*o),
{
    let mut text: Vec<char> = Vec::new();
    push_str(&mut text, o.stdout.as_str());
    push_str(&mut text, o.stderr.as_str());
    let normalized = compact_output(string_from_chars(text.as_slice()));
    let mut out: Vec<char> = Vec::new();
    push_str(&mut out, "accel-check exit=");
    push_code(&mut out, o.code);
    push_str(&mut out, " ");
    push_str(&mut out, normalized.as_str());
    string_from_chars(out.as_slice())
}

} // verus!
