use nova_engine::diagnostics::{
    attempt_diagnostics, classify_failure, clean_lines, compact_output, diagnostic_tail,
    keyword_chars, limit_tail, line_is_significant,
};
use nova_engine::text::decimal_string;

#[test]
fn clean_lines_trims_and_drops_blank_lines() {
    let lines = clean_lines("  first line \r\n\r\n\tsecond\n   \nthird\r");
    assert_eq!(lines, vec!["first line", "second", "third"]);
}

#[test]
fn clean_lines_removes_inner_carriage_returns() {
    assert_eq!(clean_lines("ab\rcd"), vec!["abcd"]);
    assert!(clean_lines("").is_empty());
    assert!(clean_lines(" \n\t\n\u{a0}").is_empty());
}

#[test]
fn limit_tail_keeps_short_text() {
    assert_eq!(limit_tail("hello".to_string(), 5), "hello");
    assert_eq!(limit_tail("hello".to_string(), 10), "hello");
}

#[test]
fn limit_tail_cuts_to_the_last_characters() {
    assert_eq!(limit_tail("hello world".to_string(), 5), "\u{2026}world");
    assert_eq!(limit_tail("çãõéí".to_string(), 2), "\u{2026}éí");
    assert_eq!(limit_tail("abc".to_string(), 0), "\u{2026}");
}

#[test]
fn compact_output_joins_clean_lines() {
    assert_eq!(compact_output(" a \n\n b\r\nc ".to_string()), "a \u{b7} b \u{b7} c");
    assert_eq!(compact_output("\n\n".to_string()), "");
}

#[test]
fn compact_output_limits_to_2200_characters() {
    let long = "x".repeat(3000);
    let out = compact_output(long);
    assert_eq!(out.chars().count(), 2201);
    assert!(out.starts_with('\u{2026}'));
}

#[test]
fn diagnostic_tail_of_empty_log_is_empty() {
    assert_eq!(diagnostic_tail(""), "");
    assert_eq!(diagnostic_tail("  \n \r\n"), "");
}

#[test]
fn diagnostic_tail_without_significant_lines_keeps_the_tail() {
    let text: Vec<String> = (1..=50).map(|i| format!("line {i}")).collect();
    let out = diagnostic_tail(&text.join("\n"));
    let expected: Vec<String> = (6..=50).map(|i| format!("line {i}")).collect();
    assert_eq!(out, expected.join(" \u{b7} "));
}

#[test]
fn diagnostic_tail_puts_significant_lines_first_without_repeats() {
    let log = "boot\nFATAL: no WHPX\nstep\nqemu said hi\nend";
    let out = diagnostic_tail(log);
    assert_eq!(
        out,
        "FATAL: no WHPX \u{b7} qemu said hi \u{b7} boot \u{b7} step \u{b7} end"
    );
}

#[test]
fn diagnostic_tail_keeps_the_last_twenty_significant_lines() {
    let mut lines: Vec<String> = (1..=30).map(|i| format!("error {i}")).collect();
    lines.push("tail".to_string());
    let out = diagnostic_tail(&lines.join("\n"));
    let parts: Vec<&str> = out.split(" \u{b7} ").collect();
    assert_eq!(parts[0], "error 11");
    assert_eq!(parts[19], "error 30");
    // The last 45 lines follow, without the ones already listed.
    assert_eq!(parts[20], "error 1");
    assert_eq!(*parts.last().unwrap(), "tail");
    assert_eq!(parts.len(), 31);
}

#[test]
fn diagnostic_tail_matches_keywords_case_insensitively() {
    let out = diagnostic_tail("alpha\nVulkan missing\nomega");
    assert!(out.starts_with("Vulkan missing"));
    // "ram" matches inside other words, as in "program".
    let out = diagnostic_tail("alpha\nthe program\nomega");
    assert!(out.starts_with("the program"));
}

#[test]
fn diagnostic_tail_is_limited_to_3600_characters() {
    let line = "y".repeat(1000);
    let text = vec![line.clone(), line.clone(), line.clone(), line.clone()].join("\n");
    let out = diagnostic_tail(&text);
    assert_eq!(out.chars().count(), 3601);
    assert!(out.starts_with('\u{2026}'));
}

#[test]
fn classify_failure_recognises_virtualization() {
    assert_eq!(
        classify_failure("auto", "WHPX is not installed", "timeout"),
        "GPU auto: Falha de virtualização/WHPX. Diagnóstico final: WHPX is not installed"
    );
    assert_eq!(
        classify_failure("host", "Hypervisor error", "t"),
        "GPU host: Falha de virtualização/WHPX. Diagnóstico final: Hypervisor error"
    );
}

#[test]
fn classify_failure_recognises_graphics_and_memory() {
    assert_eq!(
        classify_failure("host", "vulkan crashed", "t"),
        "GPU host: Falha na camada Vulkan/GPU. Diagnóstico final: vulkan crashed"
    );
    assert_eq!(
        classify_failure("software", "EGL init", "t"),
        "GPU software: Falha na inicialização gráfica. Diagnóstico final: EGL init"
    );
    assert_eq!(
        classify_failure("auto", "gfxstream died", "t"),
        "GPU auto: Falha na inicialização gráfica. Diagnóstico final: gfxstream died"
    );
    assert_eq!(
        classify_failure("auto", "Out Of Memory", "t"),
        "GPU auto: Memória insuficiente para a VM. Diagnóstico final: Out Of Memory"
    );
    assert_eq!(
        classify_failure("auto", "commit charge exceeded", "t"),
        "GPU auto: Memória insuficiente para a VM. Diagnóstico final: commit charge exceeded"
    );
}

#[test]
fn classify_failure_falls_back_to_the_timeout_label() {
    assert_eq!(
        classify_failure("auto", "", "Emulator não apareceu no ADB em 120 segundos"),
        "GPU auto: Emulator não apareceu no ADB em 120 segundos."
    );
    // WHPX without a failure word is not a virtualization failure.
    assert_eq!(
        classify_failure("auto", "whpx ok", "late"),
        "GPU auto: late. Diagnóstico final: whpx ok"
    );
}

#[test]
fn decimal_string_renders_numbers() {
    assert_eq!(decimal_string(0), "0");
    assert_eq!(decimal_string(5554), "5554");
    assert_eq!(decimal_string(u64::MAX), u64::MAX.to_string());
}

#[test]
fn attempt_diagnostics_reads_both_logs() {
    assert_eq!(
        attempt_diagnostics("starting\nok", "error: gpu\n"),
        "error: gpu \u{b7} starting \u{b7} ok"
    );
    assert_eq!(attempt_diagnostics("", ""), "");
}

#[test]
fn line_significance_uses_the_diagnostic_keywords() {
    let keywords = keyword_chars();
    let line: Vec<char> = "QEMU: Vulkan init FAILED".chars().collect();
    assert!(line_is_significant(&line, &keywords));
    let quiet: Vec<char> = "boot progress 42%".chars().collect();
    assert!(!line_is_significant(&quiet, &keywords));
}
