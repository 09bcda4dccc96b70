//! Properties of the engine that span its functions, proved over the
//! specifications that their contracts use.

use vstd::prelude::*;

use crate::adb::{
    all_digits, device_line_is, digits_value, listed_packages, package_of, packages_in, emulator_serials, emulators_in, is_emulator_line, listed_online,
    nova_serial_of, parsed_u32, first_nova, words,
};
use crate::attempt::{
    attempt_step, cancelled_text, ActionView, EventView, MachineView, OutcomeView, PhaseView,
};
use crate::diagnostics::{
    cleaned_lines, diagnostic_keywords, failure_kind, failure_message, is_significant, keep_lines, last_n, merge_new, selected_lines,
    significant_lines, tail_limited,
};
use crate::layout::{
    file_lines, first_setting, ini_with, repair_settings, replaced_settings, setting_in,
    setting_line, sets_key, strip_cr, with_settings,
};
use crate::launch::{candidate_port, emulator_args_of, gpu_text, AttemptPlan, planned_attempts, port_count, GpuMode};
use crate::sequence::is_virtualization_failure;
use crate::status::{after, observed_booted, stage_text, state_label, EngineObservation, LaunchStatus};
use crate::text::{
    ascii_lower, contains, decimal, digit, is_ws, join, lower_char, occurs_at, split_on,
    starts_with, trim, trim_end, trim_start,
};

verus! {

// ---------------------------------------------------------------------------
// Text
// ---------------------------------------------------------------------------

proof fn lemma_trim_start_shape(s: Seq<char>)
    ensures
        trim_start(s).len() > 0 ==> !is_ws(trim_start(s)[0]),
        trim_start(s).len() <= s.len(),
        s.len() > 0 && trim_start(s).len() > 0 ==> trim_start(s).last() == s.last(),
    decreases s.len(),
{
    if s.len() > 0 && is_ws(s[0]) {
        lemma_trim_start_shape(s.drop_first());
    }
}

proof fn lemma_trim_end_shape(s: Seq<char>)
    ensures
        trim_end(s).len() > 0 ==> !is_ws(trim_end(s).last()),
        trim_end(s).len() <= s.len(),
        trim_end(s).len() > 0 ==> trim_end(s)[0] == s[0],
    decreases s.len(),
{
    if s.len() > 0 && is_ws(s.last()) {
        lemma_trim_end_shape(s.drop_last());
    }
}

/// Trimming a trimmed text changes nothing.
pub proof fn lemma_trim_idempotent(s: Seq<char>)
    ensures
        trim(trim(s)) == trim(s),
{
    let t = trim(s);
    lemma_trim_start_shape(s);
    lemma_trim_end_shape(trim_start(s));
    if t.len() > 0 {
        assert(!is_ws(t[0]));
        assert(!is_ws(t.last()));
    }
    assert(trim_start(t) == t);
    assert(trim_end(t) == t);
}

proof fn lemma_keep_lines_trimmed(ls: Seq<Seq<char>>)
    ensures
        forall|i: int|
            0 <= i < keep_lines(ls).len() ==> (#[trigger] keep_lines(ls)[i]).len() > 0 && trim(
                keep_lines(ls)[i],
            ) == keep_lines(ls)[i],
    decreases ls.len(),
{
    if ls.len() > 0 {
        let rest = keep_lines(ls.drop_last());
        lemma_keep_lines_trimmed(ls.drop_last());
        lemma_trim_idempotent(ls.last());
        assert forall|i: int| 0 <= i < keep_lines(ls).len() implies (#[trigger] keep_lines(
            ls,
        )[i]).len() > 0 && trim(keep_lines(ls)[i]) == keep_lines(ls)[i] by {
            if i < rest.len() {
                assert(keep_lines(ls)[i] == rest[i]);
            }
        }
    }
}

/// Every cleaned line is non-empty and has no surrounding whitespace.
pub proof fn law_cleaned_lines_are_trimmed(text: Seq<char>)
    ensures
        forall|i: int|
            0 <= i < cleaned_lines(text).len() ==> (#[trigger] cleaned_lines(text)[i]).len() > 0
                && trim(cleaned_lines(text)[i]) == cleaned_lines(text)[i],
{
    lemma_keep_lines_trimmed(split_on(crate::text::remove_char(text, '\r'), '\n'));
}

/// A tail-limited text has at most one character more than the limit (the
/// ellipsis), and it ends with the end of the original text.
pub proof fn law_tail_limited_bound(s: Seq<char>, max: nat)
    ensures
        tail_limited(s, max).len() <= max + 1,
        s.len() <= max ==> tail_limited(s, max) == s,
        s.len() > max ==> tail_limited(s, max).subrange(1, max + 1int) == s.subrange(
            s.len() - max,
            s.len() as int,
        ),
{
    if s.len() > max {
        assert(tail_limited(s, max).subrange(1, max + 1int) =~= s.subrange(
            s.len() - max,
            s.len() as int,
        ));
    }
}

proof fn lemma_merge_keeps(base: Seq<Seq<char>>, items: Seq<Seq<char>>)
    ensures
        forall|i: int| 0 <= i < items.len() ==> merge_new(base, items).contains(#[trigger] items[i]),
        forall|i: int| 0 <= i < base.len() ==> merge_new(base, items).contains(#[trigger] base[i]),
    decreases items.len(),
{
    if items.len() > 0 {
        let pre = items.drop_last();
        lemma_merge_keeps(base, pre);
        let m = merge_new(base, pre);
        assert forall|i: int| 0 <= i < items.len() implies merge_new(base, items).contains(
            #[trigger] items[i],
        ) by {
            if i < items.len() - 1 {
                assert(items[i] == pre[i]);
                assert(m.contains(pre[i]));
                let j = choose|j: int| 0 <= j < m.len() && m[j] == pre[i];
                if !m.contains(items.last()) {
                    assert(m.push(items.last())[j] == pre[i]);
                }
            } else {
                if !m.contains(items.last()) {
                    assert(m.push(items.last())[m.len() as int] == items.last());
                }
            }
        }
        assert forall|i: int| 0 <= i < base.len() implies merge_new(base, items).contains(
            #[trigger] base[i],
        ) by {
            assert(m.contains(base[i]));
            let j = choose|j: int| 0 <= j < m.len() && m[j] == base[i];
            if !m.contains(items.last()) {
                assert(m.push(items.last())[j] == base[i]);
            }
        }
    }
}

/// A diagnostic never drops one of the last 45 log lines: each of them is
/// among the selected lines.
pub proof fn law_diagnostic_keeps_last_lines(lines: Seq<Seq<char>>)
    ensures
        forall|i: int|
            0 <= i < last_n(lines, 45).len() ==> selected_lines(lines).contains(
                #[trigger] last_n(lines, 45)[i],
            ),
{
    let sig = significant_lines(lines);
    let tail = last_n(lines, 45);
    if sig.len() == 0 {
        assert forall|i: int| 0 <= i < tail.len() implies selected_lines(lines).contains(
            #[trigger] tail[i],
        ) by {
            assert(selected_lines(lines)[i] == tail[i]);
        }
    } else {
        lemma_merge_keeps(last_n(sig, 20), tail);
    }
}

/// A failure report starts with the graphics mode that failed.
pub proof fn law_failure_message_names_gpu(gpu: Seq<char>, details: Seq<char>, label: Seq<char>)
    ensures
        starts_with(failure_message(gpu, details, label), "GPU "@ + gpu + ": "@),
{
    let head = "GPU "@ + gpu + ": "@;
    let kind = failure_kind(ascii_lower(details), label);
    let m = failure_message(gpu, details, label);
    if details.len() == 0 {
        assert(m == head + (kind + "."@)) by {
            assert(m =~= head + (kind + "."@));
        }
    } else {
        assert(m =~= head + (kind + ". Diagn\u{f3}stico final: "@ + details));
    }
    assert(m.subrange(0, head.len() as int) =~= head);
}

/// A report of a virtualization failure is recognised as one by the boot
/// sequence, which then stops trying other graphics modes.
pub proof fn law_virtualization_report_stops_fallbacks(
    gpu: Seq<char>,
    details: Seq<char>,
    label: Seq<char>,
)
    requires
        failure_kind(ascii_lower(details), label) == "Falha de virtualiza\u{e7}\u{e3}o/WHPX"@,
    ensures
        is_virtualization_failure(failure_message(gpu, details, label)),
{
    let head = "GPU "@ + gpu + ": "@;
    let kind = "Falha de virtualiza\u{e7}\u{e3}o/WHPX"@;
    let needle = "falha de virtualiza\u{e7}\u{e3}o/whpx"@;
    let m = failure_message(gpu, details, label);
    let rest = if details.len() == 0 {
        "."@
    } else {
        ". Diagn\u{f3}stico final: "@ + details
    };
    assert(m =~= head + kind + rest);
    reveal_strlit("Falha de virtualiza\u{e7}\u{e3}o/WHPX");
    reveal_strlit("falha de virtualiza\u{e7}\u{e3}o/whpx");
    let lower = ascii_lower(m);
    let at = head.len() as int;
    assert(ascii_lower(kind) =~= needle);
    assert(lower.subrange(at, at + needle.len()) =~= needle) by {
        assert forall|i: int| 0 <= i < needle.len() implies lower.subrange(at, at + needle.len())[i]
            == needle[i] by {
            assert(m[at + i] == kind[i]);
            assert(lower[at + i] == lower_char(kind[i]));
            assert(ascii_lower(kind)[i] == lower_char(kind[i]));
        }
    }
    assert(occurs_at(lower, needle, at));
}

// ---------------------------------------------------------------------------
// Engine state
// ---------------------------------------------------------------------------

/// The engine reports "running" exactly when the device is online and
/// booted, and "runtime_missing" only when no device is online and a piece of
/// the runtime is missing.
pub proof fn law_engine_state_labels(obs: EngineObservation, launch: LaunchStatus)
    ensures
        (state_label(obs, launch) == "running"@) <==> observed_booted(obs),
        state_label(obs, launch) == "runtime_missing"@ ==> obs.serial is None && (
        !obs.runtime_found || !obs.adb_found || !obs.avd_found),
{
    reveal_strlit("running");
    reveal_strlit("starting");
    reveal_strlit("runtime_missing");
    reveal_strlit("error");
    reveal_strlit("ready");
    assert("running"@.len() == 7);
    assert("starting"@.len() == 8);
    assert("runtime_missing"@.len() == 15);
    assert("error"@.len() == 5);
    assert("ready"@.len() == 5);
}

// ---------------------------------------------------------------------------
// Devices
// ---------------------------------------------------------------------------

/// Some device-list line among `lines` names the running emulator `serial`.
pub open spec fn emulator_listed(lines: Seq<Seq<char>>, serial: Seq<char>) -> bool {
    exists|i: int|
        0 <= i < lines.len() && is_emulator_line(#[trigger] lines[i]) && words(lines[i])[0]
            == serial
}

proof fn lemma_emulators_in_listed(lines: Seq<Seq<char>>)
    ensures
        forall|k: int|
            0 <= k < emulators_in(lines).len() ==> emulator_listed(
                lines,
                #[trigger] emulators_in(lines)[k],
            ),
    decreases lines.len(),
{
    if lines.len() > 0 {
        let pre = lines.drop_last();
        lemma_emulators_in_listed(pre);
        let e = emulators_in(lines);
        assert forall|k: int| 0 <= k < e.len() implies emulator_listed(lines, #[trigger] e[k]) by {
            if k < emulators_in(pre).len() {
                assert(e[k] == emulators_in(pre)[k]);
                assert(emulator_listed(pre, emulators_in(pre)[k]));
                let i = choose|i: int|
                    0 <= i < pre.len() && is_emulator_line(#[trigger] pre[i]) && words(pre[i])[0]
                        == emulators_in(pre)[k];
                assert(lines[i] == pre[i]);
                assert(is_emulator_line(lines[i]) && words(lines[i])[0] == e[k]);
            } else {
                let j = lines.len() - 1;
                assert(lines[j] == lines.last());
                assert(is_emulator_line(lines[j]) && words(lines[j])[0] == e[k]);
            }
        }
    }
}

proof fn lemma_first_nova_candidate(c: Seq<Seq<char>>, names: Seq<Option<Seq<char>>>, i: int)
    ensures
        first_nova(c, names, i) is Some ==> c.contains(first_nova(c, names, i)->0),
    decreases c.len() - i,
{
    if 0 <= i < c.len() {
        lemma_first_nova_candidate(c, names, i + 1);
        if crate::adb::name_at(names, i) is Some && crate::adb::names_nova(
            crate::adb::name_at(names, i)->0,
        ) {
            assert(c[i] == first_nova(c, names, i)->0);
        }
    }
}

/// The NOVA serial is either the remembered serial, shown online by the list
/// read to check it, or the serial of a line of the fresh device list for a
/// running emulator ("emulator-..." in state "device").
pub proof fn law_nova_serial_is_listed(
    remembered: Option<Seq<char>>,
    check: Option<Seq<char>>,
    devices: Option<Seq<char>>,
    names: Seq<Option<Seq<char>>>,
)
    ensures
        nova_serial_of(remembered, check, devices, names) matches Some(s) ==> {
            ||| (remembered == Some(s) && check is Some && listed_online(check->0, s))
            ||| (devices is Some && emulator_listed(split_on(devices->0, '\n'), s))
        },
{
    if let Some(s) = nova_serial_of(remembered, check, devices, names) {
        if !(remembered is Some && check is Some && listed_online(check->0, remembered->0)) {
            let d = devices->0;
            let lines = split_on(d, '\n');
            let c = emulator_serials(d);
            lemma_emulators_in_listed(lines);
            lemma_first_nova_candidate(c, names, 0);
            let k = if first_nova(c, names, 0) is Some {
                choose|k: int| 0 <= k < c.len() && c[k] == s
            } else {
                0
            };
            assert(0 <= k < c.len() && c[k] == s);
            assert(c[k] == emulators_in(lines)[k]);
        }
    }
}

// ---------------------------------------------------------------------------
// Process ids and ports
// ---------------------------------------------------------------------------

proof fn lemma_decimal_digits(n: nat)
    ensures
        decimal(n).len() > 0,
        all_digits(decimal(n)),
        digits_value(decimal(n)) == n,
    decreases n,
{
    if n >= 10 {
        lemma_decimal_digits(n / 10);
        let d = decimal(n / 10);
        let r = decimal(n);
        assert(r == d.push(digit(n % 10)));
        assert(r.drop_last() =~= d);
        assert((digit(n % 10) as u32) - ('0' as u32) == n % 10);
        assert(r.last() == digit(n % 10));
        assert(digits_value(r) == digits_value(r.drop_last()) * 10 + ((r.last() as u32) - (
        '0' as u32)) as nat);
        assert(n == (n / 10) * 10 + n % 10);
        assert forall|i: int| 0 <= i < r.len() implies '0' <= #[trigger] r[i] && r[i] <= '9' by {
            if i < d.len() {
                assert(r[i] == d[i]);
            }
        }
    } else {
        let r = decimal(n);
        assert(r.drop_last() =~= Seq::<char>::empty());
        assert(r.last() == digit(n));
        assert(digits_value(r.drop_last()) == 0);
        assert((digit(n) as u32) - ('0' as u32) == n);
        assert(digits_value(r) == digits_value(r.drop_last()) * 10 + ((r.last() as u32) - (
        '0' as u32)) as nat);
    }
}

/// The process id that the engine writes (its decimal form) is read back
/// unchanged.
pub proof fn law_pid_round_trip(pid: u32)
    ensures
        parsed_u32(trim(decimal(pid as nat))) == Some(pid),
{
    let d = decimal(pid as nat);
    lemma_decimal_digits(pid as nat);
    assert(!is_ws(d[0]));
    assert(!is_ws(d.last()));
    assert(trim_start(d) == d);
    assert(trim_end(d) == d);
    assert(d[0] != '+');
}

/// A chosen console port is even and lies in 5554..=5682, so that its pair
/// (port and port + 1) lies in the emulator's range 5554..=5683.
pub proof fn law_port_pair_in_range(i: int)
    requires
        0 <= i < port_count(),
    ensures
        5554 <= candidate_port(i) <= 5682,
        candidate_port(i) % 2 == 0,
        candidate_port(i) + 1 <= 5683,
{
}

// ---------------------------------------------------------------------------
// Boot plans
// ---------------------------------------------------------------------------

/// Every fallback attempt is a cold boot, and software renderers always run
/// without Vulkan.
pub proof fn law_fallbacks_are_cold_boots(modes: Seq<GpuMode>, first_boot: bool)
    ensures
        forall|i: int|
            0 < i < planned_attempts(modes, first_boot).len() ==> (#[trigger] planned_attempts(
                modes,
                first_boot,
            )[i]).cold_boot,
        forall|i: int|
            0 <= i < planned_attempts(modes, first_boot).len() && ((#[trigger] planned_attempts(
                modes,
                first_boot,
            )[i]).gpu == GpuMode::Software || planned_attempts(modes, first_boot)[i].gpu
                == GpuMode::SwiftshaderIndirect) ==> planned_attempts(modes, first_boot)[i].disable_vulkan,
{
}

// ---------------------------------------------------------------------------
// Boot attempts
// ---------------------------------------------------------------------------

/// A stop request seen while waiting ends the attempt as cancelled, after
/// stopping the emulator and every stale emulator.
pub proof fn law_attempt_cancel_wins(m: MachineView, e: EventView)
    requires
        (m.phase == PhaseView::WaitingAdb && e is AdbPoll && e->AdbPoll_cancelled) || (m.phase
            == PhaseView::Booting && e is BootPoll && e->BootPoll_cancelled),
    ensures
        attempt_step(m, e).0.phase == PhaseView::Finished,
        attempt_step(m, e).2 == OutcomeView::Failed(cancelled_text()),
        attempt_step(m, e).1.contains(ActionView::KillProcessTree),
        attempt_step(m, e).1.contains(ActionView::KillStaleEmulators),
{
    let acts = attempt_step(m, e).1;
    if m.phase == PhaseView::WaitingAdb {
        assert(acts[0] == ActionView::KillProcessTree);
        assert(acts[1] == ActionView::KillStaleEmulators);
    } else {
        assert(acts[1] == ActionView::KillProcessTree);
        assert(acts[2] == ActionView::KillStaleEmulators);
    }
}

/// An attempt reports a boot only while booting, when no stop was requested
/// and Android reported the boot complete; the serial is the attempt's.
pub proof fn law_attempt_boots_only_when_booted(m: MachineView, e: EventView)
    ensures
        attempt_step(m, e).2 matches OutcomeView::Booted(s) ==> {
            &&& m.phase == PhaseView::Booting
            &&& e == EventView::BootPoll { cancelled: false, booted: true }
            &&& s == m.serial
            &&& attempt_step(m, e).1 == seq![ActionView::MarkBooted]
        },
{
}

/// A finished attempt ignores every further event.
pub proof fn law_attempt_finished_is_final(m: MachineView, e: EventView)
    requires
        m.phase == PhaseView::Finished,
    ensures
        attempt_step(m, e) == (m, Seq::<ActionView>::empty(), OutcomeView::Pending),
{
}

/// A failed attempt (other than a stop request) reports the graphics mode it
/// tried.
pub proof fn law_attempt_failure_names_gpu(m: MachineView, e: EventView)
    ensures
        attempt_step(m, e).2 matches OutcomeView::Failed(msg) ==> msg == cancelled_text()
            || starts_with(msg, "GPU "@ + gpu_text(m.gpu) + ": "@),
{
    if let PhaseView::AwaitingDiagnostics { label, .. } = m.phase {
        if let EventView::Diagnostics { details } = e {
            law_failure_message_names_gpu(gpu_text(m.gpu), details, label);
        }
    }
}


// ---------------------------------------------------------------------------
// Stage messages
// ---------------------------------------------------------------------------

proof fn lemma_prefixed_stage(prefix: Seq<char>, rest: Seq<char>)
    ensures
        starts_with(prefix + rest, prefix),
        after(prefix + rest, prefix) == rest,
{
    assert((prefix + rest).subrange(0, prefix.len() as int) =~= prefix);
    assert(after(prefix + rest, prefix) =~= rest);
}

/// The stages that a boot attempt sets are shown with their own message,
/// naming the graphics mode.
pub proof fn law_stage_messages_name_gpu(g: GpuMode)
    ensures
        stage_text("launching:"@ + gpu_text(g)) == "Abrindo Android com GPU "@ + gpu_text(g)
            + ". No primeiro cold boot o ADB pode levar at\u{e9} 3 minutos..."@,
        stage_text("waiting-adb:"@ + gpu_text(g)) == "Android Emulator est\u{e1} aberto com GPU "@
            + gpu_text(g) + "; aguardando o ADB aparecer (at\u{e9} 3 minutos no primeiro boot)..."@,
        stage_text("fallback:"@ + gpu_text(g))
            == "A tentativa anterior falhou; testando automaticamente o modo gr\u{e1}fico "@
            + gpu_text(g) + "..."@,
        stage_text("booting:"@ + gpu_text(g)) == "ADB conectado. Android est\u{e1} concluindo o boot com GPU "@
            + gpu_text(g) + "..."@,
{
    reveal_strlit("preflight");
    reveal_strlit("launching:");
    reveal_strlit("waiting-adb:");
    reveal_strlit("fallback:");
    reveal_strlit("booting:");
    let gt = gpu_text(g);
    let l = "launching:"@ + gt;
    let w = "waiting-adb:"@ + gt;
    let f = "fallback:"@ + gt;
    let b = "booting:"@ + gt;
    lemma_prefixed_stage("launching:"@, gt);
    lemma_prefixed_stage("waiting-adb:"@, gt);
    lemma_prefixed_stage("fallback:"@, gt);
    lemma_prefixed_stage("booting:"@, gt);
    assert(l[0] == 'l' && w[0] == 'w' && f[0] == 'f' && b[0] == 'b');
    assert(l != "preflight"@ && w != "preflight"@ && f != "preflight"@ && b != "preflight"@);
    assert(!starts_with(w, "launching:"@)) by {
        if w.len() >= 10 {
            assert(w.subrange(0, 10)[0] != "launching:"@[0]);
        }
    }
    assert(!starts_with(f, "launching:"@)) by {
        if f.len() >= 10 {
            assert(f.subrange(0, 10)[0] != "launching:"@[0]);
        }
    }
    assert(!starts_with(f, "waiting-adb:"@)) by {
        if f.len() >= 12 {
            assert(f.subrange(0, 12)[0] != "waiting-adb:"@[0]);
        }
    }
    assert(!starts_with(b, "launching:"@)) by {
        if b.len() >= 10 {
            assert(b.subrange(0, 10)[0] != "launching:"@[0]);
        }
    }
    assert(!starts_with(b, "waiting-adb:"@)) by {
        if b.len() >= 12 {
            assert(b.subrange(0, 12)[0] != "waiting-adb:"@[0]);
        }
    }
    assert(!starts_with(b, "fallback:"@)) by {
        if b.len() >= 9 {
            assert(b.subrange(0, 9)[0] != "fallback:"@[0]);
        }
    }
}

// ---------------------------------------------------------------------------
// Settings files
// ---------------------------------------------------------------------------

/// No character of `s` is `c`.
pub open spec fn lacks_char(s: Seq<char>, c: char) -> bool {
    forall|j: int| 0 <= j < s.len() ==> s[j] != c
}

proof fn lemma_split_pieces_lack(s: Seq<char>, sep: char)
    ensures
        forall|i: int|
            0 <= i < split_on(s, sep).len() ==> lacks_char(#[trigger] split_on(s, sep)[i], sep),
    decreases s.len(),
{
    if s.len() > 0 {
        lemma_split_pieces_lack(s.drop_last(), sep);
        crate::text::lemma_split_nonempty(s.drop_last(), sep);
        let rest = split_on(s.drop_last(), sep);
        let all = split_on(s, sep);
        if s.last() != sep {
            let old_last = rest[rest.len() - 1];
            let nl = old_last.push(s.last());
            assert(lacks_char(old_last, sep));
            assert forall|j: int| 0 <= j < nl.len() implies nl[j] != sep by {
                if j < old_last.len() {
                    assert(nl[j] == old_last[j]);
                }
            }
            assert forall|i: int| 0 <= i < all.len() implies lacks_char(#[trigger] all[i], sep) by {
                if i < rest.len() - 1 {
                    assert(all[i] == rest[i]);
                } else {
                    assert(all[i] == nl);
                }
            }
        } else {
            assert forall|i: int| 0 <= i < all.len() implies lacks_char(#[trigger] all[i], sep) by {
                if i < rest.len() {
                    assert(all[i] == rest[i]);
                }
            }
        }
    }
}

proof fn lemma_file_lines_lack(s: Seq<char>)
    ensures
        forall|i: int|
            0 <= i < file_lines(s).len() ==> lacks_char(#[trigger] file_lines(s)[i], '\n'),
{
    let pieces = split_on(s, '\n');
    lemma_split_pieces_lack(s, '\n');
    crate::text::lemma_split_nonempty(s, '\n');
    let fl = file_lines(s);
    assert forall|i: int| 0 <= i < fl.len() implies lacks_char(#[trigger] fl[i], '\n') by {
        if i < pieces.len() - 1 {
            let l = pieces[i];
            assert(lacks_char(l, '\n'));
            assert(fl[i] == strip_cr(l));
            if l.len() > 0 && l.last() == '\r' {
                assert forall|j: int| 0 <= j < strip_cr(l).len() implies strip_cr(l)[j] != '\n' by {
                    assert(strip_cr(l)[j] == l[j]);
                }
            }
        } else {
            assert(fl[i] == pieces[pieces.len() - 1]);
        }
    }
}

proof fn lemma_split_append(s: Seq<char>, t: Seq<char>, sep: char)
    requires
        lacks_char(t, sep),
    ensures
        split_on(s + t, sep) == split_on(s, sep).update(
            split_on(s, sep).len() - 1,
            split_on(s, sep).last() + t,
        ),
    decreases t.len(),
{
    crate::text::lemma_split_nonempty(s, sep);
    let r = split_on(s, sep);
    if t.len() == 0 {
        assert(s + t =~= s);
        assert(r.last() + t =~= r.last());
        assert(r.update(r.len() - 1, r.last() + t) =~= r);
    } else {
        let td = t.drop_last();
        assert(lacks_char(td, sep)) by {
            assert forall|j: int| 0 <= j < td.len() implies td[j] != sep by {
                assert(td[j] == t[j]);
            }
        }
        lemma_split_append(s, td, sep);
        assert((s + t).drop_last() =~= s + td);
        assert((s + t).last() == t.last());
        assert(t.last() != sep);
        let r2 = split_on(s + td, sep);
        assert((r.last() + td).push(t.last()) =~= r.last() + t);
        assert(r2.update(r2.len() - 1, r2.last().push(t.last())) =~= r.update(
            r.len() - 1,
            r.last() + t,
        ));
    }
}

proof fn lemma_split_push_sep(s: Seq<char>, sep: char)
    ensures
        split_on(s.push(sep), sep) == split_on(s, sep).push(Seq::<char>::empty()),
{
    assert(s.push(sep).drop_last() =~= s);
}

proof fn lemma_split_join(all: Seq<Seq<char>>)
    requires
        all.len() >= 1,
        forall|i: int| 0 <= i < all.len() ==> lacks_char(#[trigger] all[i], '\n'),
    ensures
        split_on(join(all, "\n"@), '\n') == all,
    decreases all.len(),
{
    reveal_strlit("\n");
    let e = Seq::<char>::empty();
    if all.len() == 1 {
        assert(lacks_char(all[0], '\n'));
        lemma_split_append(e, all[0], '\n');
        assert(e + all[0] =~= all[0]);
        assert(split_on(e, '\n') == seq![e]);
        assert(seq![e].update(0, e + all[0]) =~= all);
    } else {
        let dl = all.drop_last();
        assert forall|i: int| 0 <= i < dl.len() implies lacks_char(#[trigger] dl[i], '\n') by {
            assert(dl[i] == all[i]);
        }
        lemma_split_join(dl);
        let jd = join(dl, "\n"@);
        assert(jd + "\n"@ =~= jd.push('\n'));
        lemma_split_push_sep(jd, '\n');
        assert(lacks_char(all[all.len() - 1], '\n'));
        lemma_split_append(jd + "\n"@, all.last(), '\n');
        let r = dl.push(e);
        assert(e + all.last() =~= all.last());
        assert(r.update(r.len() - 1, r.last() + all.last()) =~= all);
    }
}

proof fn lemma_file_lines_written(all: Seq<Seq<char>>)
    requires
        all.len() >= 1,
        forall|i: int| 0 <= i < all.len() ==> lacks_char(#[trigger] all[i], '\n'),
    ensures
        file_lines(join(all, "\n"@) + "\n"@) == all.map_values(|l: Seq<char>| strip_cr(l)),
{
    reveal_strlit("\n");
    let j = join(all, "\n"@);
    lemma_split_join(all);
    assert(j + "\n"@ =~= j.push('\n'));
    lemma_split_push_sep(j, '\n');
    let pieces = split_on(j + "\n"@, '\n');
    assert(pieces == all.push(Seq::<char>::empty()));
    assert(pieces.drop_last() =~= all);
}

proof fn lemma_strip_cr_prefix(l: Seq<char>, p: Seq<char>)
    ensures
        starts_with(strip_cr(l), p) ==> starts_with(l, p),
{
    if l.len() > 0 && l.last() == '\r' && starts_with(strip_cr(l), p) {
        assert(l.subrange(0, p.len() as int) =~= l.drop_last().subrange(0, p.len() as int));
    }
}

/// Every line of `lines` that sets the key of `p` is `line`, and one does.
spec fn settles(lines: Seq<Seq<char>>, p: Seq<char>, line: Seq<char>) -> bool {
    &&& forall|j: int| 0 <= j < lines.len() && starts_with(#[trigger] lines[j], p) ==> lines[j] == line
    &&& exists|j: int| 0 <= j < lines.len() && starts_with(#[trigger] lines[j], p)
}

/// A `key=value` line that a settings file can hold and give back unchanged.
pub open spec fn writable_setting(key: Seq<char>, value: Seq<char>) -> bool {
    &&& lacks_char(key, '\n')
    &&& lacks_char(value, '\n')
    &&& value.len() > 0 ==> value.last() != '\r'
}

/// The lines that `ini_with` writes, before they are joined.
spec fn ini_lines(existing: Seq<char>, key: Seq<char>, value: Seq<char>) -> Seq<Seq<char>> {
    let lines = file_lines(existing);
    let updated = replaced_settings(lines, key, value);
    if sets_key(lines, key) {
        updated
    } else {
        updated.push(setting_line(key, value))
    }
}

proof fn lemma_setting_line(key: Seq<char>, value: Seq<char>)
    requires
        lacks_char(key, '\n'),
        lacks_char(value, '\n'),
    ensures
        lacks_char(setting_line(key, value), '\n'),
        starts_with(setting_line(key, value), key + "="@),
        starts_with(strip_cr(setting_line(key, value)), key + "="@),
        setting_in(setting_line(key, value), key + "="@) == Some(trim(value)),
        writable_setting(key, value) ==> strip_cr(setting_line(key, value)) == setting_line(
            key,
            value,
        ),
{
    reveal_strlit("=");
    let p = key + "="@;
    let line = setting_line(key, value);
    assert(line =~= p + value);
    assert forall|j: int| 0 <= j < line.len() implies line[j] != '\n' by {
        if j < key.len() {
            assert(line[j] == key[j]);
        } else if j > key.len() {
            assert(line[j] == value[j - key.len() - 1]);
        }
    }
    assert(line.subrange(0, p.len() as int) =~= p);
    assert(after(line, p) =~= value);
    if value.len() > 0 {
        assert(line.last() == value.last());
        assert(strip_cr(line).subrange(0, p.len() as int) =~= p);
    } else {
        assert(line.last() == '=');
    }
}

proof fn lemma_ini_lines(existing: Seq<char>, key: Seq<char>, value: Seq<char>)
    requires
        lacks_char(key, '\n'),
        lacks_char(value, '\n'),
    ensures
        file_lines(ini_with(existing, key, value)) == ini_lines(existing, key, value).map_values(
            |l: Seq<char>| strip_cr(l),
        ),
        forall|j: int|
            0 <= j < file_lines(existing).len() ==> #[trigger] ini_lines(existing, key, value)[j]
                == if starts_with(file_lines(existing)[j], key + "="@) {
                setting_line(key, value)
            } else {
                file_lines(existing)[j]
            },
        !sets_key(file_lines(existing), key) ==> ini_lines(existing, key, value)[file_lines(
            existing,
        ).len() as int] == setting_line(key, value),
        ini_lines(existing, key, value).len() >= 1,
        ini_lines(existing, key, value).len() >= file_lines(existing).len(),
{
    reveal_strlit("\n");
    let lines = file_lines(existing);
    lemma_file_lines_lack(existing);
    lemma_setting_line(key, value);
    let p = key + "="@;
    let line = setting_line(key, value);
    let updated = replaced_settings(lines, key, value);
    let all = ini_lines(existing, key, value);
    assert forall|j: int| 0 <= j < lines.len() implies #[trigger] all[j] == if starts_with(
        lines[j],
        p,
    ) {
        line
    } else {
        lines[j]
    } by {
        assert(all[j] == updated[j]);
    }
    assert forall|i: int| 0 <= i < all.len() implies lacks_char(#[trigger] all[i], '\n') by {
        if i < lines.len() {
            assert(lacks_char(lines[i], '\n'));
        }
    }
    if sets_key(lines, key) {
        let w = choose|i: int| 0 <= i < lines.len() && starts_with(#[trigger] lines[i], p);
        assert(all.len() > w);
    }
    lemma_file_lines_written(all);
}

proof fn lemma_settles_first(lines: Seq<Seq<char>>, p: Seq<char>, line: Seq<char>, i: int)
    requires
        0 <= i <= lines.len(),
        forall|j: int| i <= j < lines.len() && starts_with(#[trigger] lines[j], p) ==> lines[j] == line,
        exists|j: int| i <= j < lines.len() && starts_with(#[trigger] lines[j], p),
    ensures
        first_setting(lines, p, i) == setting_in(line, p),
    decreases lines.len() - i,
{
    let w = choose|j: int| i <= j < lines.len() && starts_with(#[trigger] lines[j], p);
    if !starts_with(lines[i], p) {
        assert(w != i);
        assert(starts_with(lines[w], p));
        lemma_settles_first(lines, p, line, i + 1);
    }
}

proof fn lemma_written_settles(existing: Seq<char>, key: Seq<char>, value: Seq<char>)
    requires
        writable_setting(key, value),
    ensures
        settles(file_lines(ini_with(existing, key, value)), key + "="@, setting_line(key, value)),
{
    lemma_ini_lines(existing, key, value);
    lemma_setting_line(key, value);
    let lines = file_lines(existing);
    let p = key + "="@;
    let line = setting_line(key, value);
    let all = ini_lines(existing, key, value);
    let out = file_lines(ini_with(existing, key, value));
    assert forall|j: int| 0 <= j < out.len() && starts_with(#[trigger] out[j], p) implies out[j]
        == line by {
        assert(out[j] == strip_cr(all[j]));
        lemma_strip_cr_prefix(all[j], p);
        if j < lines.len() {
            assert(all[j] == if starts_with(lines[j], p) {
                line
            } else {
                lines[j]
            });
        }
    }
    let w = if sets_key(lines, key) {
        choose|i: int| 0 <= i < lines.len() && starts_with(#[trigger] lines[i], p)
    } else {
        lines.len() as int
    };
    if sets_key(lines, key) {
        assert(all[w] == line);
    }
    assert(out[w] == strip_cr(all[w]));
    assert(starts_with(out[w], p));
}

proof fn lemma_prefix_pair(l: Seq<char>, a: Seq<char>, b: Seq<char>)
    requires
        starts_with(l, a),
        starts_with(l, b),
    ensures
        starts_with(a, b) || starts_with(b, a),
{
    if a.len() <= b.len() {
        assert(b.subrange(0, a.len() as int) =~= l.subrange(0, a.len() as int));
    } else {
        assert(a.subrange(0, b.len() as int) =~= l.subrange(0, b.len() as int));
    }
}

/// Neither `key1=` nor `key2=` begins the other, so no line sets both keys.
pub open spec fn keys_apart(key1: Seq<char>, key2: Seq<char>) -> bool {
    !starts_with(key1 + "="@, key2 + "="@) && !starts_with(key2 + "="@, key1 + "="@)
}

proof fn lemma_write_keeps_settled(
    existing: Seq<char>,
    key: Seq<char>,
    value: Seq<char>,
    other: Seq<char>,
    line: Seq<char>,
)
    requires
        writable_setting(key, value),
        keys_apart(key, other),
        settles(file_lines(existing), other + "="@, line),
        strip_cr(line) == line,
    ensures
        settles(file_lines(ini_with(existing, key, value)), other + "="@, line),
{
    lemma_ini_lines(existing, key, value);
    lemma_setting_line(key, value);
    let lines = file_lines(existing);
    let p = key + "="@;
    let q = other + "="@;
    let all = ini_lines(existing, key, value);
    let out = file_lines(ini_with(existing, key, value));
    assert forall|j: int| 0 <= j < out.len() && starts_with(#[trigger] out[j], q) implies out[j]
        == line by {
        assert(out[j] == strip_cr(all[j]));
        lemma_strip_cr_prefix(all[j], q);
        if j < lines.len() {
            if starts_with(lines[j], p) {
                assert(all[j] == setting_line(key, value));
                lemma_prefix_pair(all[j], p, q);
            } else {
                assert(all[j] == lines[j]);
            }
        } else {
            assert(all[j] == setting_line(key, value));
            lemma_prefix_pair(all[j], p, q);
        }
    }
    let w = choose|i: int| 0 <= i < lines.len() && starts_with(#[trigger] lines[i], q);
    if starts_with(lines[w], p) {
        lemma_prefix_pair(lines[w], p, q);
    }
    assert(all[w] == lines[w]);
    assert(out[w] == strip_cr(all[w]));
    assert(starts_with(out[w], q));
}

/// A setting written into a settings file is what reading the key back
/// finds: the first line that sets the key gives the written value, trimmed.
/// This holds when neither key nor value holds a line break and the written
/// line does not end with a carriage return.
pub proof fn law_ini_setting_reads_back(existing: Seq<char>, key: Seq<char>, value: Seq<char>)
    requires
        writable_setting(key, value),
    ensures
        first_setting(file_lines(ini_with(existing, key, value)), key + "="@, 0) == Some(
            trim(value),
        ),
{
    lemma_written_settles(existing, key, value);
    lemma_setting_line(key, value);
    lemma_settles_first(
        file_lines(ini_with(existing, key, value)),
        key + "="@,
        setting_line(key, value),
        0,
    );
}

proof fn lemma_keys_apart_distinct(key1: Seq<char>, key2: Seq<char>)
    requires
        lacks_char(key1, '='),
        lacks_char(key2, '='),
        key1 != key2,
    ensures
        keys_apart(key1, key2),
{
    reveal_strlit("=");
    let a = key1 + "="@;
    let b = key2 + "="@;
    if starts_with(a, b) {
        if key2.len() == key1.len() {
            assert forall|j: int| 0 <= j < key1.len() implies key1[j] == key2[j] by {
                assert(a[j] == a.subrange(0, b.len() as int)[j]);
            }
            assert(key1 =~= key2);
        } else {
            let k = key2.len() as int;
            assert(a.subrange(0, b.len() as int)[k] == b[k]);
            assert(a[k] == key1[k]);
        }
    }
    if starts_with(b, a) {
        if key2.len() == key1.len() {
            assert forall|j: int| 0 <= j < key1.len() implies key1[j] == key2[j] by {
                assert(b[j] == b.subrange(0, a.len() as int)[j]);
            }
            assert(key1 =~= key2);
        } else {
            let k = key1.len() as int;
            assert(b.subrange(0, a.len() as int)[k] == a[k]);
            assert(b[k] == key2[k]);
        }
    }
}

/// Settings that can be written, each under a key of its own without `=`.
pub open spec fn distinct_settings(settings: Seq<(Seq<char>, Seq<char>)>) -> bool {
    &&& forall|i: int|
        0 <= i < settings.len() ==> writable_setting(#[trigger] settings[i].0, settings[i].1)
            && lacks_char(settings[i].0, '=')
    &&& forall|i: int, j: int|
        0 <= i < settings.len() && 0 <= j < settings.len() && i != j ==> #[trigger] settings[i].0
            != #[trigger] settings[j].0
}

proof fn lemma_with_settings_settle(text: Seq<char>, settings: Seq<(Seq<char>, Seq<char>)>, n: nat)
    requires
        n <= settings.len(),
        distinct_settings(settings),
    ensures
        forall|i: int|
            0 <= i < n ==> settles(
                file_lines(with_settings(text, settings, n)),
                (#[trigger] settings[i]).0 + "="@,
                setting_line(settings[i].0, settings[i].1),
            ),
    decreases n,
{
    if n > 0 {
        lemma_with_settings_settle(text, settings, (n - 1) as nat);
        let before = with_settings(text, settings, (n - 1) as nat);
        let s = settings[n - 1];
        assert(writable_setting(s.0, s.1));
        assert(with_settings(text, settings, n) == ini_with(before, s.0, s.1));
        lemma_written_settles(before, s.0, s.1);
        assert forall|i: int| 0 <= i < n implies settles(
            file_lines(with_settings(text, settings, n)),
            (#[trigger] settings[i]).0 + "="@,
            setting_line(settings[i].0, settings[i].1),
        ) by {
            if i < n - 1 {
                let t = settings[i];
                assert(writable_setting(t.0, t.1) && lacks_char(t.0, '='));
                assert(lacks_char(s.0, '='));
                assert(s.0 != t.0);
                lemma_keys_apart_distinct(s.0, t.0);
                lemma_setting_line(t.0, t.1);
                lemma_write_keeps_settled(before, s.0, s.1, t.0, setting_line(t.0, t.1));
            }
        }
    }
}

/// Settings applied one after another each read back as written, when each
/// can be written and no two share a key.
pub proof fn law_settings_read_back(text: Seq<char>, settings: Seq<(Seq<char>, Seq<char>)>)
    requires
        distinct_settings(settings),
    ensures
        forall|i: int|
            0 <= i < settings.len() ==> first_setting(
                file_lines(with_settings(text, settings, settings.len())),
                (#[trigger] settings[i]).0 + "="@,
                0,
            ) == Some(trim(settings[i].1)),
{
    let n = settings.len();
    lemma_with_settings_settle(text, settings, n);
    let out = file_lines(with_settings(text, settings, n));
    assert forall|i: int| 0 <= i < n implies first_setting(
        out,
        (#[trigger] settings[i]).0 + "="@,
        0,
    ) == Some(trim(settings[i].1)) by {
        let t = settings[i];
        assert(writable_setting(t.0, t.1));
        lemma_setting_line(t.0, t.1);
        lemma_settles_first(out, t.0 + "="@, setting_line(t.0, t.1), 0);
    }
}

proof fn lemma_nine_cases(i: int)
    requires
        0 <= i < 9,
    ensures
        i == 0 || i == 1 || i == 2 || i == 3 || i == 4 || i == 5 || i == 6 || i == 7 || i == 8,
{
}

/// After the device repair, each setting that it enforces reads back from
/// the configuration exactly as the repair wrote it.
pub proof fn law_repair_settings_read_back(config: Seq<char>)
    ensures
        forall|i: int|
            0 <= i < repair_settings().len() ==> first_setting(
                file_lines(with_settings(config, repair_settings(), 9)),
                (#[trigger] repair_settings()[i]).0 + "="@,
                0,
            ) == Some(repair_settings()[i].1),
{
    reveal_strlit("hw.keyboard");
    reveal_strlit("hw.gpu.enabled");
    reveal_strlit("hw.gpu.mode");
    reveal_strlit("hw.lcd.width");
    reveal_strlit("hw.lcd.height");
    reveal_strlit("hw.lcd.density");
    reveal_strlit("disk.dataPartition.size");
    reveal_strlit("fastboot.forceColdBoot");
    reveal_strlit("fastboot.forceFastBoot");
    reveal_strlit("yes");
    reveal_strlit("auto");
    reveal_strlit("720");
    reveal_strlit("1280");
    reveal_strlit("320");
    reveal_strlit("12G");
    reveal_strlit("no");
    let st = repair_settings();
    assert(st.len() == 9);
    assert forall|i: int| 0 <= i < st.len() implies writable_setting(#[trigger] st[i].0, st[i].1)
        && lacks_char(st[i].0, '=') && trim(st[i].1) == st[i].1 by {
        lemma_nine_cases(i);
    }
    assert forall|i: int, j: int|
        0 <= i < st.len() && 0 <= j < st.len() && i != j implies #[trigger] st[i].0
        != #[trigger] st[j].0 by {
        lemma_nine_cases(i);
        lemma_nine_cases(j);
        let a = st[i].0;
        let b = st[j].0;
        assert(a.len() != b.len() || a[3] != b[3] || a[a.len() - 8] != b[b.len() - 8]);
    }
    law_settings_read_back(config, st);
    assert forall|i: int| 0 <= i < st.len() implies first_setting(
        file_lines(with_settings(config, st, 9)),
        (#[trigger] st[i]).0 + "="@,
        0,
    ) == Some(st[i].1) by {
        assert(trim(st[i].1) == st[i].1);
    }
}

/// Writing the same setting twice leaves the file as one write does, when
/// neither key nor value holds a line break and every line of the file, as
/// read, that ends with a carriage return sets the key.
pub proof fn law_ini_setting_idempotent(existing: Seq<char>, key: Seq<char>, value: Seq<char>)
    requires
        lacks_char(key, '\n'),
        lacks_char(value, '\n'),
        forall|i: int|
            0 <= i < file_lines(existing).len() && strip_cr(#[trigger] file_lines(existing)[i])
                != file_lines(existing)[i] ==> starts_with(file_lines(existing)[i], key + "="@),
    ensures
        ini_with(ini_with(existing, key, value), key, value) == ini_with(existing, key, value),
{
    let once = ini_with(existing, key, value);
    let lines = file_lines(existing);
    let p = key + "="@;
    let line = setting_line(key, value);
    let all = ini_lines(existing, key, value);
    lemma_ini_lines(existing, key, value);
    lemma_setting_line(key, value);
    let reread = file_lines(once);
    assert(reread == all.map_values(|l: Seq<char>| strip_cr(l)));
    assert(reread.len() == all.len());
    // Every line of the first write that sets the key is the written line;
    // every other line is a line of the file that does not end with `\r`.
    assert forall|j: int| 0 <= j < all.len() implies (starts_with(#[trigger] all[j], p) ==> all[j]
        == line) && (!starts_with(all[j], p) ==> strip_cr(all[j]) == all[j]) by {
        if j < lines.len() {
            assert(all[j] == if starts_with(lines[j], p) {
                line
            } else {
                lines[j]
            });
        } else {
            assert(all[j] == line);
        }
    }
    let w = if sets_key(lines, key) {
        choose|i: int| 0 <= i < lines.len() && starts_with(#[trigger] lines[i], p)
    } else {
        lines.len() as int
    };
    if sets_key(lines, key) {
        assert(all[w] == line);
    } else {
        assert(all[w] == line);
    }
    assert(reread[w] == strip_cr(line));
    assert(sets_key(reread, key)) by {
        assert(starts_with(reread[w], p));
    }
    assert(replaced_settings(reread, key, value) =~= all) by {
        assert forall|j: int| 0 <= j < all.len() implies #[trigger] replaced_settings(
            reread,
            key,
            value,
        )[j] == all[j] by {
            assert(reread[j] == strip_cr(all[j]));
            lemma_strip_cr_prefix(all[j], p);
            if starts_with(all[j], p) {
                assert(all[j] == line);
            }
        }
    }
    assert(ini_lines(once, key, value) == all);
}

// ---------------------------------------------------------------------------
// What makes a log line significant, and how failures are classified
// ---------------------------------------------------------------------------

proof fn lemma_index_below_21(k: int)
    requires
        0 <= k < 21,
    ensures
        k == 0 || k == 1 || k == 2 || k == 3 || k == 4 || k == 5 || k == 6 || k == 7 || k == 8
            || k == 9 || k == 10 || k == 11 || k == 12 || k == 13 || k == 14 || k == 15 || k == 16
            || k == 17 || k == 18 || k == 19 || k == 20,
{
}

/// A log line is significant exactly when its ASCII lowercase form mentions
/// one of: error, fatal, panic, failed, failure, cannot, could not, unable,
/// whpx, hypervisor, vulkan, opengl, egl, qemu, crash, exit, memory, ram,
/// permission, denied, unsupported.
pub proof fn law_significant_lines_mention_a_keyword(line: Seq<char>)
    ensures
        is_significant(line) <==> {
            let l = ascii_lower(line);
            ||| contains(l, "error"@)
            ||| contains(l, "fatal"@)
            ||| contains(l, "panic"@)
            ||| contains(l, "failed"@)
            ||| contains(l, "failure"@)
            ||| contains(l, "cannot"@)
            ||| contains(l, "could not"@)
            ||| contains(l, "unable"@)
            ||| contains(l, "whpx"@)
            ||| contains(l, "hypervisor"@)
            ||| contains(l, "vulkan"@)
            ||| contains(l, "opengl"@)
            ||| contains(l, "egl"@)
            ||| contains(l, "qemu"@)
            ||| contains(l, "crash"@)
            ||| contains(l, "exit"@)
            ||| contains(l, "memory"@)
            ||| contains(l, "ram"@)
            ||| contains(l, "permission"@)
            ||| contains(l, "denied"@)
            ||| contains(l, "unsupported"@)
        },
{
    let l = ascii_lower(line);
    let kw = diagnostic_keywords();
    assert(kw.len() == 21);
    assert(kw[0] == "error"@ && kw[1] == "fatal"@ && kw[2] == "panic"@ && kw[3] == "failed"@);
    assert(kw[4] == "failure"@ && kw[5] == "cannot"@ && kw[6] == "could not"@ && kw[7]
        == "unable"@);
    assert(kw[8] == "whpx"@ && kw[9] == "hypervisor"@ && kw[10] == "vulkan"@ && kw[11]
        == "opengl"@);
    assert(kw[12] == "egl"@ && kw[13] == "qemu"@ && kw[14] == "crash"@ && kw[15] == "exit"@);
    assert(kw[16] == "memory"@ && kw[17] == "ram"@ && kw[18] == "permission"@ && kw[19]
        == "denied"@);
    assert(kw[20] == "unsupported"@);
    if is_significant(line) {
        let k = choose|k: int| 0 <= k < kw.len() && contains(l, #[trigger] kw[k]);
        lemma_index_below_21(k);
    }
}

/// A diagnostic that mentions WHPX or the hypervisor together with "not
/// installed", "not usable", "failed" or "error" (in any ASCII case) is
/// reported as a virtualization failure, and the boot sequence recognises
/// the report as one.
pub proof fn law_whpx_failures_are_virtualization_failures(
    gpu: Seq<char>,
    details: Seq<char>,
    label: Seq<char>,
)
    requires
        contains(ascii_lower(details), "whpx"@) || contains(ascii_lower(details), "hypervisor"@),
        contains(ascii_lower(details), "not installed"@) || contains(
            ascii_lower(details),
            "not usable"@,
        ) || contains(ascii_lower(details), "failed"@) || contains(ascii_lower(details), "error"@),
    ensures
        failure_kind(ascii_lower(details), label) == "Falha de virtualiza\u{e7}\u{e3}o/WHPX"@,
        starts_with(
            failure_message(gpu, details, label),
            "GPU "@ + gpu + ": Falha de virtualiza\u{e7}\u{e3}o/WHPX."@,
        ),
        is_virtualization_failure(failure_message(gpu, details, label)),
{
    let kind = "Falha de virtualiza\u{e7}\u{e3}o/WHPX"@;
    let msg = failure_message(gpu, details, label);
    let head = "GPU "@ + gpu + ": Falha de virtualiza\u{e7}\u{e3}o/WHPX."@;
    assert(head =~= "GPU "@ + gpu + ": "@ + kind + "."@) by {
        reveal_strlit(": Falha de virtualiza\u{e7}\u{e3}o/WHPX.");
        reveal_strlit(": ");
        reveal_strlit("Falha de virtualiza\u{e7}\u{e3}o/WHPX");
        reveal_strlit(".");
    }
    if details.len() == 0 {
        assert(msg == head);
    } else {
        assert(msg =~= head + " Diagn\u{f3}stico final: "@ + details) by {
            reveal_strlit(". Diagn\u{f3}stico final: ");
            reveal_strlit(" Diagn\u{f3}stico final: ");
            reveal_strlit(".");
        }
    }
    assert(msg.subrange(0, head.len() as int) =~= head);
    law_virtualization_report_stops_fallbacks(gpu, details, label);
}

/// Without a virtualization failure, a diagnostic that mentions Vulkan is a
/// Vulkan failure; else one that mentions OpenGL, EGL or gfxstream is a
/// graphics start-up failure; else one that mentions "not enough memory",
/// "commit charge" or "out of memory" is a memory shortage; else the failure
/// keeps the caller's label.
pub proof fn law_other_failure_kinds(details: Seq<char>, label: Seq<char>)
    ensures
        ({
            let l = ascii_lower(details);
            let virt = (contains(l, "whpx"@) || contains(l, "hypervisor"@)) && (contains(
                l,
                "not installed"@,
            ) || contains(l, "not usable"@) || contains(l, "failed"@) || contains(l, "error"@));
            let vk = contains(l, "vulkan"@);
            let gfx = contains(l, "opengl"@) || contains(l, "egl"@) || contains(l, "gfxstream"@);
            let mem = contains(l, "not enough memory"@) || contains(l, "commit charge"@) || contains(
                l,
                "out of memory"@,
            );
            &&& !virt && vk ==> failure_kind(l, label) == "Falha na camada Vulkan/GPU"@
            &&& !virt && !vk && gfx ==> failure_kind(l, label)
                == "Falha na inicializa\u{e7}\u{e3}o gr\u{e1}fica"@
            &&& !virt && !vk && !gfx && mem ==> failure_kind(l, label)
                == "Mem\u{f3}ria insuficiente para a VM"@
            &&& !virt && !vk && !gfx && !mem ==> failure_kind(l, label) == label
        }),
{
}

// ---------------------------------------------------------------------------
// Lines of ADB listings
// ---------------------------------------------------------------------------

proof fn lemma_split_concat_sep(x: Seq<char>, y: Seq<char>, sep: char)
    ensures
        split_on(x + seq![sep] + y, sep) == split_on(x, sep) + split_on(y, sep),
    decreases y.len(),
{
    let xs = x + seq![sep];
    if y.len() == 0 {
        assert(xs + y =~= x.push(sep));
        lemma_split_push_sep(x, sep);
        assert(split_on(y, sep) == seq![Seq::<char>::empty()]);
        assert(split_on(x, sep).push(Seq::<char>::empty()) =~= split_on(x, sep) + split_on(y, sep));
    } else {
        let yd = y.drop_last();
        lemma_split_concat_sep(x, yd, sep);
        crate::text::lemma_split_nonempty(yd, sep);
        crate::text::lemma_split_nonempty(x, sep);
        assert((xs + y).drop_last() =~= xs + yd);
        assert((xs + y).last() == y.last());
        let a = split_on(x, sep);
        let b = split_on(yd, sep);
        if y.last() == sep {
            assert((a + b).push(Seq::<char>::empty()) =~= a + b.push(Seq::<char>::empty()));
        } else {
            let ab = a + b;
            assert(ab.update(ab.len() - 1, ab.last().push(y.last())) =~= a + b.update(
                b.len() - 1,
                b.last().push(y.last()),
            ));
        }
    }
}

/// A line placed between line breaks (or at either end of the text) is one of
/// the pieces of the text split at line breaks.
proof fn lemma_split_has_line(before: Seq<char>, line: Seq<char>, after: Seq<char>)
    requires
        lacks_char(line, '\n'),
        before.len() == 0 || before.last() == '\n',
        after.len() == 0 || after[0] == '\n',
    ensures
        exists|k: int|
            0 <= k < split_on(before + line + after, '\n').len() && #[trigger] split_on(
                before + line + after,
                '\n',
            )[k] == line,
{
    let e = Seq::<char>::empty();
    let s1 = split_on(before + line, '\n');
    lemma_split_append(e, line, '\n');
    assert(e + line =~= line);
    assert(split_on(line, '\n') == seq![line]) by {
        assert(seq![e].update(0, e + line) =~= seq![line]);
    }
    if before.len() == 0 {
        assert(before + line =~= line);
    } else {
        let b0 = before.drop_last();
        assert(before + line =~= b0 + seq!['\n'] + line);
        lemma_split_concat_sep(b0, line, '\n');
    }
    assert(s1.len() >= 1 && s1.last() == line);
    let k = s1.len() - 1;
    if after.len() == 0 {
        assert(before + line + after =~= before + line);
        assert(s1[k] == line);
    } else {
        let a1 = after.drop_first();
        assert(before + line + after =~= (before + line) + seq!['\n'] + a1);
        lemma_split_concat_sep(before + line, a1, '\n');
        assert(split_on(before + line + after, '\n')[k] == s1[k]);
    }
}

/// Whatever else a device list holds, a line whose first two words are a
/// serial and "device" shows that serial online, the last line included when
/// no line break ends the list.
pub proof fn law_device_line_shows_serial_online(
    before: Seq<char>,
    line: Seq<char>,
    after: Seq<char>,
    serial: Seq<char>,
)
    requires
        lacks_char(line, '\n'),
        before.len() == 0 || before.last() == '\n',
        after.len() == 0 || after[0] == '\n',
        words(line).len() >= 2,
        words(line)[0] == serial,
        words(line)[1] == "device"@,
    ensures
        listed_online(before + line + after, serial),
{
    lemma_split_has_line(before, line, after);
    let lines = split_on(before + line + after, '\n');
    let k = choose|k: int| 0 <= k < lines.len() && #[trigger] lines[k] == line;
    assert(device_line_is(lines[k], serial, "device"@));
}

/// A device list shows a serial online only through a line whose first two
/// words are that serial and "device".
pub proof fn law_online_only_through_device_lines(devices: Seq<char>, serial: Seq<char>)
    ensures
        listed_online(devices, serial) ==> exists|k: int|
            0 <= k < split_on(devices, '\n').len() && words(
                #[trigger] split_on(devices, '\n')[k],
            ).len() >= 2 && words(split_on(devices, '\n')[k])[0] == serial && words(
                split_on(devices, '\n')[k],
            )[1] == "device"@,
{
}

proof fn lemma_packages_in_has(lines: Seq<Seq<char>>, k: int, p: Seq<char>)
    requires
        0 <= k < lines.len(),
        package_of(lines[k]) == Some(p),
    ensures
        packages_in(lines).contains(p),
    decreases lines.len(),
{
    let rest = packages_in(lines.drop_last());
    if k == lines.len() - 1 {
        assert(packages_in(lines) == rest.push(p));
        assert(packages_in(lines)[rest.len() as int] == p);
    } else {
        assert(lines.drop_last()[k] == lines[k]);
        lemma_packages_in_has(lines.drop_last(), k, p);
        let j = choose|j: int| 0 <= j < rest.len() && rest[j] == p;
        assert(packages_in(lines)[j] == rest[j]);
    }
}

proof fn lemma_packages_in_from(lines: Seq<Seq<char>>)
    ensures
        forall|j: int|
            0 <= j < packages_in(lines).len() ==> exists|k: int|
                0 <= k < lines.len() && package_of(#[trigger] lines[k]) == Some(
                    #[trigger] packages_in(lines)[j],
                ),
    decreases lines.len(),
{
    if lines.len() > 0 {
        let dl = lines.drop_last();
        lemma_packages_in_from(dl);
        let rest = packages_in(dl);
        let all = packages_in(lines);
        assert forall|j: int| 0 <= j < all.len() implies exists|k: int|
            0 <= k < lines.len() && package_of(#[trigger] lines[k]) == Some(
                #[trigger] all[j],
            ) by {
            if j < rest.len() {
                assert(all[j] == rest[j]);
                let k = choose|k: int| 0 <= k < dl.len() && package_of(#[trigger] dl[k]) == Some(
                    rest[j],
                );
                assert(lines[k] == dl[k]);
            } else {
                let k = lines.len() - 1;
                assert(package_of(lines[k]) == Some(all[j]));
            }
        }
    }
}

/// Every line of a package listing that reads "package:<name>" once trimmed,
/// with a non-empty name, lists that name, the last line included when no
/// line break ends the listing; and every listed name comes from such a line.
pub proof fn law_package_lines_are_listed(
    before: Seq<char>,
    line: Seq<char>,
    after: Seq<char>,
    name: Seq<char>,
)
    requires
        lacks_char(line, '\n'),
        before.len() == 0 || before.last() == '\n',
        after.len() == 0 || after[0] == '\n',
        trim(line) == "package:"@ + name,
        name.len() > 0,
    ensures
        listed_packages(before + line + after).contains(name),
        forall|j: int|
            0 <= j < listed_packages(before + line + after).len() ==> exists|k: int|
                0 <= k < split_on(before + line + after, '\n').len() && trim(
                    #[trigger] split_on(before + line + after, '\n')[k],
                ) == "package:"@ + #[trigger] listed_packages(before + line + after)[j]
                    && listed_packages(before + line + after)[j].len() > 0,
{
    reveal_strlit("package:");
    let text = before + line + after;
    let lines = split_on(text, '\n');
    let t = trim(line);
    assert(t.subrange(0, 8) =~= "package:"@);
    assert(t.subrange(8, t.len() as int) =~= name);
    assert(package_of(line) == Some(name));
    lemma_split_has_line(before, line, after);
    let k = choose|k: int| 0 <= k < lines.len() && #[trigger] lines[k] == line;
    lemma_packages_in_has(lines, k, name);
    lemma_packages_in_from(lines);
    let listed = listed_packages(text);
    assert forall|j: int| 0 <= j < listed.len() implies exists|k: int|
        0 <= k < lines.len() && trim(#[trigger] lines[k]) == "package:"@ + #[trigger] listed[j]
            && listed[j].len() > 0 by {
        let k = choose|k: int| 0 <= k < lines.len() && package_of(#[trigger] lines[k]) == Some(
            listed[j],
        );
        let tk = trim(lines[k]);
        assert(tk =~= tk.subrange(0, 8) + tk.subrange(8, tk.len() as int));
    }
}

// ---------------------------------------------------------------------------
// Emulator command lines
// ---------------------------------------------------------------------------

proof fn lemma_index_below_22(k: int)
    requires
        0 <= k < 22,
    ensures
        k == 0 || k == 1 || k == 2 || k == 3 || k == 4 || k == 5 || k == 6 || k == 7 || k == 8
            || k == 9 || k == 10 || k == 11 || k == 12 || k == 13 || k == 14 || k == 15 || k == 16
            || k == 17 || k == 18 || k == 19 || k == 20 || k == 21,
{
}

/// No fixed argument and no value of the emulator's command line is one of
/// the options that the plan switches.
proof fn lemma_fixed_args_avoid_flags(port: u16, cores: u8, ram_mb: u32, plan: AttemptPlan, i: int)
    requires
        0 <= i < 22,
    ensures
        emulator_args_of(port, cores, ram_mb, plan)[i] != "-no-snapshot-load"@,
        emulator_args_of(port, cores, ram_mb, plan)[i] != "-no-snapshot-save"@,
        emulator_args_of(port, cores, ram_mb, plan)[i] != "-wipe-data"@,
        emulator_args_of(port, cores, ram_mb, plan)[i] != "-Vulkan"@,
{
    reveal_strlit("-no-snapshot-load");
    reveal_strlit("-no-snapshot-save");
    reveal_strlit("-wipe-data");
    reveal_strlit("-Vulkan");
    reveal_strlit("-avd");
    reveal_strlit("NOVA");
    reveal_strlit("-port");
    reveal_strlit("-accel");
    reveal_strlit("on");
    reveal_strlit("-gpu");
    reveal_strlit("-cores");
    reveal_strlit("-memory");
    reveal_strlit("-skin");
    reveal_strlit("720x1280");
    reveal_strlit("-no-metrics");
    reveal_strlit("-no-boot-anim");
    reveal_strlit("-no-audio");
    reveal_strlit("-camera-back");
    reveal_strlit("none");
    reveal_strlit("-camera-front");
    reveal_strlit("-netfast");
    reveal_strlit("host");
    reveal_strlit("auto");
    reveal_strlit("software");
    reveal_strlit("swiftshader_indirect");
    lemma_decimal_digits(port as nat);
    lemma_decimal_digits(cores as nat);
    lemma_decimal_digits(ram_mb as nat);
    let a = emulator_args_of(port, cores, ram_mb, plan);
    assert(decimal(port as nat)[0] != '-');
    assert(decimal(cores as nat)[0] != '-');
    assert(decimal(ram_mb as nat)[0] != '-');
    assert(a[i].len() > 0 && (a[i][0] != '-' || a[i].len() != 17 && a[i].len() != 10 && a[i].len()
        != 7 || a[i][1] == 'm')) by {
        lemma_index_below_22(i);
    }
}

/// The command line of an attempt asks for a cold boot ("-no-snapshot-load"
/// and "-no-snapshot-save") exactly when the plan is a cold boot, for a wiped
/// device ("-wipe-data") exactly when the plan wipes it, and turns Vulkan off
/// ("-feature -Vulkan") exactly when the plan disables it; each option that
/// takes a value is followed by it.
pub proof fn law_emulator_args_follow_the_plan(
    port: u16,
    cores: u8,
    ram_mb: u32,
    plan: AttemptPlan,
)
    ensures
        emulator_args_of(port, cores, ram_mb, plan).contains("-no-snapshot-load"@)
            <==> plan.cold_boot,
        emulator_args_of(port, cores, ram_mb, plan).contains("-no-snapshot-save"@)
            <==> plan.cold_boot,
        emulator_args_of(port, cores, ram_mb, plan).contains("-wipe-data"@) <==> plan.wipe_data,
        emulator_args_of(port, cores, ram_mb, plan).contains("-Vulkan"@) <==> plan.disable_vulkan,
        ({
            let a = emulator_args_of(port, cores, ram_mb, plan);
            &&& a[0] == "-avd"@ && a[1] == "NOVA"@
            &&& a[2] == "-port"@ && a[3] == decimal(port as nat)
            &&& a[6] == "-gpu"@ && a[7] == gpu_text(plan.gpu)
            &&& a[8] == "-cores"@ && a[9] == decimal(cores as nat)
            &&& a[10] == "-memory"@ && a[11] == decimal(ram_mb as nat)
        }),
{
    reveal_strlit("-no-snapshot-load");
    reveal_strlit("-no-snapshot-save");
    reveal_strlit("-wipe-data");
    reveal_strlit("-Vulkan");
    reveal_strlit("-feature");
    let a = emulator_args_of(port, cores, ram_mb, plan);
    let vk = if plan.disable_vulkan {
        seq!["-feature"@, "-Vulkan"@]
    } else {
        Seq::<Seq<char>>::empty()
    };
    let cold = if plan.cold_boot {
        seq!["-no-snapshot-load"@, "-no-snapshot-save"@]
    } else {
        Seq::<Seq<char>>::empty()
    };
    let wipe = if plan.wipe_data {
        seq!["-wipe-data"@]
    } else {
        Seq::<Seq<char>>::empty()
    };
    assert(a.len() == 22 + vk.len() + cold.len() + wipe.len());
    assert forall|i: int| 22 <= i < a.len() implies {
        ||| #[trigger] a[i] == "-feature"@ && plan.disable_vulkan
        ||| a[i] == "-Vulkan"@ && plan.disable_vulkan
        ||| a[i] == "-no-snapshot-load"@ && plan.cold_boot
        ||| a[i] == "-no-snapshot-save"@ && plan.cold_boot
        ||| a[i] == "-wipe-data"@ && plan.wipe_data
    } by {
        if i < 22 + vk.len() {
            assert(a[i] == vk[i - 22]);
        } else if i < 22 + vk.len() + cold.len() {
            assert(a[i] == cold[i - 22 - vk.len()]);
        } else {
            assert(a[i] == wipe[i - 22 - vk.len() - cold.len()]);
        }
    }
    assert forall|i: int| 0 <= i < a.len() implies {
        &&& #[trigger] a[i] == "-no-snapshot-load"@ ==> plan.cold_boot
        &&& a[i] == "-no-snapshot-save"@ ==> plan.cold_boot
        &&& a[i] == "-wipe-data"@ ==> plan.wipe_data
        &&& a[i] == "-Vulkan"@ ==> plan.disable_vulkan
    } by {
        if i < 22 {
            lemma_fixed_args_avoid_flags(port, cores, ram_mb, plan, i);
        } else {
            assert("-no-snapshot-load"@ != "-no-snapshot-save"@) by {
                assert("-no-snapshot-load"@[13] != "-no-snapshot-save"@[13]);
            }
            assert("-feature"@.len() != "-Vulkan"@.len());
            assert("-wipe-data"@.len() != "-Vulkan"@.len());
        }
    }
    if plan.cold_boot {
        assert(a[22 + vk.len() as int] == "-no-snapshot-load"@);
        assert(a[23 + vk.len() as int] == "-no-snapshot-save"@);
    }
    if plan.wipe_data {
        assert(a[22 + vk.len() + cold.len() as int] == "-wipe-data"@);
    }
    if plan.disable_vulkan {
        assert(a[23] == "-Vulkan"@);
    }
}

} // verus!
