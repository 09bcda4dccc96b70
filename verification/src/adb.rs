//! Reading what ADB reports: command results, the device list, the NOVA
//! device's serial, boot completion and the list of installed packages.

use vstd::prelude::*;

use crate::text::{
    chars_eq, copy_range, chars_eq_str, is_ws, is_ws_exec, lemma_char_vec_deep_view, push_str,
    starts_with, starts_with_str, split_on, str_chars, string_from_chars, trim, trim_chars,
};

verus! {

broadcast use lemma_char_vec_deep_view;

/// What a finished external command reported, its output already decoded.
pub struct CommandOutput {
    /// The command exited with success.
    pub success: bool,
    /// The exit code, when the command exited with one.
    pub code: Option<i32>,
    pub stdout: String,
    pub stderr: String,
}

/// The view of a textual result.
pub open spec fn result_view(r: Result<String, String>) -> Result<Seq<char>, Seq<char>> {
    match r {
        Ok(s) => Ok(s@),
        Err(e) => Err(e@),
    }
}

// ---------------------------------------------------------------------------
// Words and lines
// ---------------------------------------------------------------------------

/// The maximal runs of non-whitespace characters of `s` (`str::split_whitespace`).
pub open spec fn words(s: Seq<char>) -> Seq<Seq<char>>
    decreases s.len(),
{
    if s.len() == 0 {
        Seq::<Seq<char>>::empty()
    } else if is_ws(s.last()) {
        words(s.drop_last())
    } else if s.len() >= 2 && !is_ws(s[s.len() - 2]) {
        let w = words(s.drop_last());
        w.update(w.len() - 1, w.last().push(s.last()))
    } else {
        words(s.drop_last()).push(seq![s.last()])
    }
}

proof fn lemma_words_nonempty(s: Seq<char>)
    requires
        s.len() > 0,
        !is_ws(s.last()),
    ensures
        words(s).len() > 0,
    decreases s.len(),
{
    if s.len() >= 2 && !is_ws(s[s.len() - 2]) {
        let t = s.drop_last();
        assert(t.last() == s[s.len() - 2]);
        lemma_words_nonempty(t);
    }
}

/// The whitespace-separated words of a line.
pub fn words_of(line: &Vec<char>) -> (res: Vec<Vec<char>>)
    ensures
        res.deep_view() == words(line@),
{
    let mut out: Vec<Vec<char>> = Vec::new();
    let mut cur: Vec<char> = Vec::new();
    let mut k: usize = 0;
    assert(line@.subrange(0, 0) =~= Seq::<char>::empty());
    assert(out.deep_view() =~= Seq::<Seq<char>>::empty());
    while k < line.len()
        invariant
            k <= line.len(),
            cur@.len() > 0 <==> (k > 0 && !is_ws(line@[k - 1])),
            words(line@.subrange(0, k as int)) == (if cur@.len() > 0 {
                out.deep_view().push(cur@)
            } else {
                out.deep_view()
            }),
        decreases line.len() - k,
    {
        let c = line[k];
        let ghost p = line@.subrange(0, k as int);
        let ghost q = line@.subrange(0, k + 1);
        let ghost before = out.deep_view();
        assert(q.drop_last() =~= p);
        assert(q.last() == c);
        if is_ws_exec(c) {
            if cur.len() > 0 {
                let ghost cv = cur@;
                out.push(cur);
                cur = Vec::new();
                assert(out.deep_view() =~= before.push(cv));
            }
        } else {
            if cur.len() > 0 {
                assert(!is_ws(q[q.len() - 2]));
                let ghost cv = cur@;
                cur.push(c);
                proof {
                    let w = words(p);
                    assert(w == before.push(cv));
                    assert(words(q) == w.update(w.len() - 1, w.last().push(c)));
                    assert(words(q) =~= before.push(cur@));
                }
            } else {
                cur.push(c);
                assert(cur@ =~= seq![c]);
            }
        }
        k = k + 1;
    }
    assert(line@.subrange(0, line.len() as int) =~= line@);
    if cur.len() > 0 {
        let ghost before = out.deep_view();
        out.push(cur);
        assert(out.deep_view() =~= before.push(cur@));
    }
    out
}

/// The pieces of `text` between the `sep` characters.
pub fn split_chars(text: &Vec<char>, sep: char) -> (res: Vec<Vec<char>>)
    ensures
        res.deep_view() == split_on(text@, sep),
{
    let mut out: Vec<Vec<char>> = Vec::new();
    let mut cur: Vec<char> = Vec::new();
    let mut k: usize = 0;
    assert(text@.subrange(0, 0) =~= Seq::<char>::empty());
    assert(split_on(Seq::<char>::empty(), sep) =~= out.deep_view().push(cur@));
    while k < text.len()
        invariant
            k <= text.len(),
            split_on(text@.subrange(0, k as int), sep) == out.deep_view().push(cur@),
        decreases text.len() - k,
    {
        let c = text[k];
        let ghost p = text@.subrange(0, k as int);
        let ghost q = text@.subrange(0, k + 1);
        let ghost before = out.deep_view();
        let ghost cv = cur@;
        assert(q.drop_last() =~= p);
        assert(q.last() == c);
        if c == sep {
            out.push(cur);
            cur = Vec::new();
            assert(out.deep_view() =~= before.push(cv));
            assert(split_on(q, sep) =~= out.deep_view().push(cur@));
        } else {
            cur.push(c);
            assert(split_on(q, sep) =~= before.push(cv).update(before.len() as int, cv.push(c)));
            assert(split_on(q, sep) =~= out.deep_view().push(cur@));
        }
        k = k + 1;
    }
    assert(text@.subrange(0, text.len() as int) =~= text@);
    let ghost before = out.deep_view();
    let ghost cv = cur@;
    out.push(cur);
    assert(out.deep_view() =~= before.push(cv));
    out
}

// ---------------------------------------------------------------------------
// Device list
// ---------------------------------------------------------------------------

/// A device-list line whose first word is `serial` and second word is `state`.
pub open spec fn device_line_is(line: Seq<char>, serial: Seq<char>, state: Seq<char>) -> bool {
    let w = words(line);
    w.len() >= 2 && w[0] == serial && w[1] == state
}

/// The device list `devices` shows `serial` in state "device".
pub open spec fn listed_online(devices: Seq<char>, serial: Seq<char>) -> bool {
    let lines = split_on(devices, '\n');
    exists|i: int| 0 <= i < lines.len() && device_line_is(#[trigger] lines[i], serial, "device"@)
}

/// Whether `line`'s first two words are `serial` and `state`.
fn line_is(line: &Vec<char>, serial: &Vec<char>, state: &str) -> (r: bool)
    ensures
        r == device_line_is(line@, serial@, state@),
{
    let w = words_of(line);
    if w.len() < 2 {
        return false;
    }
    assert(w.deep_view()[0] == w[0]@ && w.deep_view()[1] == w[1]@);
    chars_eq(&w[0], serial) && chars_eq_str(&w[1], state)
}

/// Whether the device list (when ADB could be asked) shows `serial` online.
#[verifier::loop_isolation(false)]
pub fn serial_online(devices: &Option<String>, serial: &str) -> (r: bool)
    ensures
        r == (devices is Some && listed_online(devices->0@, serial@)),
{
    match devices {
        None => false,
        Some(text) => {
            let chars = str_chars(text.as_str());
            let lines = split_chars(&chars, '\n');
            let s = str_chars(serial);
            let ghost lv = lines.deep_view();
            let mut k: usize = 0;
            while k < lines.len()
                invariant
                    k <= lines.len(),
                    lv == lines.deep_view(),
                    lv == split_on(text@, '\n'),
                    s@ == serial@,
                    forall|j: int| 0 <= j < k ==> !device_line_is(#[trigger] lv[j], serial@, "device"@),
                decreases lines.len() - k,
            {
                assert(lv[k as int] == lines[k as int]@);
                if line_is(&lines[k], &s, "device") {
                    assert(device_line_is(lv[k as int], serial@, "device"@));
                    return true;
                }
                k = k + 1;
            }
            false
        },
    }
}

/// A device-list line naming a running emulator: its first word starts with
/// "emulator-" and its second word is "device".
pub open spec fn is_emulator_line(line: Seq<char>) -> bool {
    let w = words(line);
    w.len() >= 2 && starts_with(w[0], "emulator-"@) && w[1] == "device"@
}

/// The serials of the running emulators among `lines`, in order.
pub open spec fn emulators_in(lines: Seq<Seq<char>>) -> Seq<Seq<char>>
    decreases lines.len(),
{
    if lines.len() == 0 {
        Seq::<Seq<char>>::empty()
    } else {
        let rest = emulators_in(lines.drop_last());
        if is_emulator_line(lines.last()) {
            rest.push(words(lines.last())[0])
        } else {
            rest
        }
    }
}

/// The serials of the running emulators in a device list.
pub open spec fn emulator_serials(devices: Seq<char>) -> Seq<Seq<char>> {
    emulators_in(split_on(devices, '\n'))
}

/// The serials of the running emulators in a device list, as characters.
fn emulator_serial_chars(devices: &Vec<char>) -> (res: Vec<Vec<char>>)
    ensures
        res.deep_view() == emulator_serials(devices@),
{
    let lines = split_chars(devices, '\n');
    let ghost lv = lines.deep_view();
    let mut res: Vec<Vec<char>> = Vec::new();
    let mut k: usize = 0;
    assert(res.deep_view() =~= emulators_in(lv.subrange(0, 0)));
    while k < lines.len()
        invariant
            k <= lines.len(),
            lv == lines.deep_view(),
            res.deep_view() == emulators_in(lv.subrange(0, k as int)),
        decreases lines.len() - k,
    {
        assert(lv[k as int] == lines[k as int]@);
        assert(lv.subrange(0, k + 1).drop_last() =~= lv.subrange(0, k as int));
        let w = words_of(&lines[k]);
        if w.len() >= 2 {
            assert(w.deep_view()[0] == w[0]@ && w.deep_view()[1] == w[1]@);
            if starts_with_str(&w[0], "emulator-") && chars_eq_str(&w[1], "device") {
                let ghost before = res.deep_view();
                res.push(w[0].clone());
                assert(res.deep_view() =~= before.push(words(lv[k as int])[0]));
            }
        }
        k = k + 1;
    }
    assert(lv.subrange(0, lv.len() as int) =~= lv);
    res
}

/// The serials of the running emulators that a device list shows.
pub fn emulator_candidates(devices: &str) -> (res: Vec<String>)
    ensures
        res.deep_view() == emulator_serials(devices@),
{
    let chars = str_chars(devices);
    let serials = emulator_serial_chars(&chars);
    strings_of(&serials)
}

/// Strings made of character vectors.
pub fn strings_of(v: &Vec<Vec<char>>) -> (res: Vec<String>)
    ensures
        res.deep_view() == v.deep_view(),
{
    let ghost dv = v.deep_view();
    let mut res: Vec<String> = Vec::new();
    let mut k: usize = 0;
    while k < v.len()
        invariant
            k <= v.len(),
            dv == v.deep_view(),
            res.deep_view() == dv.subrange(0, k as int),
        decreases v.len() - k,
    {
        let s = string_from_chars(v[k].as_slice());
        let ghost before = res.deep_view();
        res.push(s);
        k = k + 1;
        assert(res.deep_view() =~= dv.subrange(0, k as int)) by {
            assert(res.deep_view() =~= before.push(s@));
            assert(dv[k - 1] == v[k - 1]@);
        }
    }
    assert(dv.subrange(0, v.len() as int) =~= dv);
    res
}

/// An AVD-name report naming the NOVA device: one of its lines, trimmed, is
/// "NOVA".
pub open spec fn names_nova(report: Seq<char>) -> bool {
    let lines = split_on(report, '\n');
    exists|i: int| 0 <= i < lines.len() && trim(#[trigger] lines[i]) == "NOVA"@
}

/// Whether an AVD-name report names the NOVA device.
pub fn reports_nova(report: &str) -> (r: bool)
    ensures
        r == names_nova(report@),
{
    let chars = str_chars(report);
    let lines = split_chars(&chars, '\n');
    let ghost lv = lines.deep_view();
    let mut k: usize = 0;
    while k < lines.len()
        invariant
            k <= lines.len(),
            lv == lines.deep_view(),
            lv == split_on(report@, '\n'),
            forall|j: int| 0 <= j < k ==> trim(#[trigger] lv[j]) != "NOVA"@,
        decreases lines.len() - k,
    {
        assert(lv[k as int] == lines[k as int]@);
        let t = trim_chars(&lines[k]);
        if chars_eq_str(&t, "NOVA") {
            return true;
        }
        k = k + 1;
    }
    false
}

/// The AVD-name report of candidate `i`, when it was obtained.
pub open spec fn name_at(names: Seq<Option<Seq<char>>>, i: int) -> Option<Seq<char>> {
    if 0 <= i < names.len() {
        names[i]
    } else {
        None
    }
}

/// The first candidate from position `i` on whose AVD-name report names NOVA.
pub open spec fn first_nova(c: Seq<Seq<char>>, names: Seq<Option<Seq<char>>>, i: int) -> Option<
    Seq<char>,
>
    decreases c.len() - i,
{
    if i < 0 || i >= c.len() {
        None
    } else if name_at(names, i) is Some && names_nova(name_at(names, i)->0) {
        Some(c[i])
    } else {
        first_nova(c, names, i + 1)
    }
}

/// The serial of the NOVA device: the remembered serial when the device list
/// read to check it (`check`) shows it online; else, from a fresh device list,
/// the first running emulator whose AVD name is NOVA, or else the only running
/// emulator, if there is exactly one.
pub open spec fn nova_serial_of(
    remembered: Option<Seq<char>>,
    check: Option<Seq<char>>,
    devices: Option<Seq<char>>,
    names: Seq<Option<Seq<char>>>,
) -> Option<Seq<char>> {
    if remembered is Some && check is Some && listed_online(check->0, remembered->0) {
        remembered
    } else {
        match devices {
            None => None,
            Some(d) => {
                let c = emulator_serials(d);
                match first_nova(c, names, 0) {
                    Some(s) => Some(s),
                    None => if c.len() == 1 {
                        Some(c[0])
                    } else {
                        None
                    },
                }
            },
        }
    }
}

/// The serial of the NOVA device, from the remembered serial, the device list
/// read to check it, a fresh device list (each `None` when ADB could not be
/// asked) and the AVD-name reports of the running emulators of the fresh list,
/// in order (`None` where a report could not be obtained; the reports may stop
/// after the first that names NOVA).
#[verifier::loop_isolation(false)]
pub fn nova_serial(
    remembered: Option<String>,
    check: Option<String>,
    devices: Option<String>,
    avd_names: &Vec<Option<String>>,
) -> (res: Option<String>)
    ensures
        res.deep_view() == nova_serial_of(
            remembered.deep_view(),
            check.deep_view(),
            devices.deep_view(),
            avd_names.deep_view(),
        ),
{
    let online = match &remembered {
        Some(s) => serial_online(&check, s.as_str()),
        None => false,
    };
    if online {
        return remembered;
    }
    let d = match devices {
        None => {
            return None;
        },
        Some(d) => d,
    };
    let chars = str_chars(d.as_str());
    let cands = emulator_serial_chars(&chars);
    let ghost cv = cands.deep_view();
    let ghost nv = avd_names.deep_view();
    let mut k: usize = 0;
    while k < cands.len()
        invariant
            k <= cands.len(),
            cv == cands.deep_view(),
            nv == avd_names.deep_view(),
            first_nova(cv, nv, 0) == first_nova(cv, nv, k as int),
        decreases cands.len() - k,
    {
        assert(cv[k as int] == cands[k as int]@);
        if k < avd_names.len() {
            match &avd_names[k] {
                Some(name) => {
                    assert(nv[k as int] == Some(name@));
                    assert(name_at(nv, k as int) == Some(name@));
                    if reports_nova(name.as_str()) {
                        assert(first_nova(cv, nv, k as int) == Some(cv[k as int]));
                        return Some(string_from_chars(cands[k].as_slice()));
                    }
                },
                None => {},
            }
        }
        k = k + 1;
    }
    if cands.len() == 1 {
        assert(cv[0] == cands[0]@);
        Some(string_from_chars(cands[0].as_slice()))
    } else {
        None
    }
}

/// Whether a boot-completion report (when it could be read) says "1".
pub fn boot_complete_for(report: &Option<String>) -> (r: bool)
    ensures
        r == (report is Some && trim(report->0@) == "1"@),
{
    match report {
        None => false,
        Some(text) => {
            let chars = str_chars(text.as_str());
            let t = trim_chars(&chars);
            chars_eq_str(&t, "1")
        },
    }
}

// ---------------------------------------------------------------------------
// Command results
// ---------------------------------------------------------------------------

/// The trimmed standard output of an ADB command that ran and succeeded.
pub open spec fn adb_output_of(run: Option<CommandOutput>) -> Option<Seq<char>> {
    match run {
        Some(o) => if o.success {
            Some(trim(o.stdout@))
        } else {
            None
        },
        None => None,
    }
}

/// The trimmed standard output of an ADB command, when ADB is installed, the
/// command could be run (`run` is `None` otherwise) and it succeeded.
pub fn adb_output(run: Option<CommandOutput>) -> (res: Option<String>)
    ensures
        res.deep_view() == adb_output_of(run),
{
    match run {
        Some(o) => if o.success {
            let chars = str_chars(o.stdout.as_str());
            let t = trim_chars(&chars);
            Some(string_from_chars(t.as_slice()))
        } else {
            None
        },
        None => None,
    }
}

/// The answer of an ADB command: an error when ADB is missing (`None`) or could
/// not be run (`Some(Err(reason))`); else its trimmed standard output on
/// success (its trimmed standard error when the output is empty), its trimmed
/// standard error on failure (its trimmed standard output when the error is
/// empty).
pub open spec fn adb_result_of(run: Option<Result<CommandOutput, String>>) -> Result<
    Seq<char>,
    Seq<char>,
> {
    match run {
        None => Err("ADB n\u{e3}o encontrado. Execute o preparador do NOVA novamente."@),
        Some(Err(e)) => Err("Falha ao executar ADB: "@ + e@),
        Some(Ok(o)) => {
            let out = trim(o.stdout@);
            let err = trim(o.stderr@);
            if o.success {
                if out.len() == 0 {
                    Ok(err)
                } else {
                    Ok(out)
                }
            } else {
                Err(
                    if err.len() == 0 {
                        out
                    } else {
                        err
                    },
                )
            }
        },
    }
}

/// The answer of an ADB command (see `adb_result_of`).
pub fn adb_result(run: Option<Result<CommandOutput, String>>) -> (res: Result<String, String>)
    ensures
        result_view(res) == adb_result_of(run),
{
    match run {
        None => Err(String::from_str("ADB n\u{e3}o encontrado. Execute o preparador do NOVA novamente.")),
        Some(Err(e)) => {
            let mut msg: Vec<char> = Vec::new();
            push_str(&mut msg, "Falha ao executar ADB: ");
            push_str(&mut msg, e.as_str());
            Err(string_from_chars(msg.as_slice()))
        },
        Some(Ok(o)) => {
            let out = trim_chars(&str_chars(o.stdout.as_str()));
            let err = trim_chars(&str_chars(o.stderr.as_str()));
            if o.success {
                if out.len() == 0 {
                    Ok(string_from_chars(err.as_slice()))
                } else {
                    Ok(string_from_chars(out.as_slice()))
                }
            } else if err.len() == 0 {
                Err(string_from_chars(out.as_slice()))
            } else {
                Err(string_from_chars(err.as_slice()))
            }
        },
    }
}

// ---------------------------------------------------------------------------
// Installed packages
// ---------------------------------------------------------------------------

/// A package installed on the device.
pub struct InstalledApp {
    pub package: String,
}

/// The package names of a list of installed apps.
pub open spec fn app_packages(apps: Seq<InstalledApp>) -> Seq<Seq<char>> {
    Seq::new(apps.len(), |i: int| apps[i].package@)
}

/// The package that a package-list line names: the trimmed line after
/// "package:", when that is not empty.
pub open spec fn package_of(line: Seq<char>) -> Option<Seq<char>> {
    let t = trim(line);
    if starts_with(t, "package:"@) && t.len() > "package:"@.len() {
        Some(t.subrange("package:"@.len() as int, t.len() as int))
    } else {
        None
    }
}

/// The packages that `lines` name, in order.
pub open spec fn packages_in(lines: Seq<Seq<char>>) -> Seq<Seq<char>>
    decreases lines.len(),
{
    if lines.len() == 0 {
        Seq::<Seq<char>>::empty()
    } else {
        let rest = packages_in(lines.drop_last());
        match package_of(lines.last()) {
            Some(p) => rest.push(p),
            None => rest,
        }
    }
}

/// The packages that a package listing names, in listing order.
pub open spec fn listed_packages(listing: Seq<char>) -> Seq<Seq<char>> {
    packages_in(split_on(listing, '\n'))
}

/// `a` comes strictly before `b` in lexicographic character order.
pub open spec fn lex_lt(a: Seq<char>, b: Seq<char>) -> bool
    decreases a.len(),
{
    if a.len() == 0 {
        b.len() > 0
    } else if b.len() == 0 {
        false
    } else if a[0] != b[0] {
        a[0] < b[0]
    } else {
        lex_lt(a.drop_first(), b.drop_first())
    }
}

/// `a` comes before `b` or equals it.
pub open spec fn lex_le(a: Seq<char>, b: Seq<char>) -> bool {
    a == b || lex_lt(a, b)
}

/// The texts of `s` are in lexicographic order.
pub open spec fn lex_sorted(s: Seq<Seq<char>>) -> bool {
    forall|i: int, j: int| 0 <= i < j < s.len() ==> lex_le(#[trigger] s[i], #[trigger] s[j])
}

/// No text comes strictly before itself.
pub proof fn lemma_lex_irreflexive(a: Seq<char>)
    ensures
        !lex_lt(a, a),
    decreases a.len(),
{
    if a.len() > 0 {
        lemma_lex_irreflexive(a.drop_first());
    }
}

/// The lexicographic order is transitive.
pub proof fn lemma_lex_transitive(a: Seq<char>, b: Seq<char>, c: Seq<char>)
    requires
        lex_lt(a, b),
        lex_lt(b, c),
    ensures
        lex_lt(a, c),
    decreases a.len(),
{
    if a.len() > 0 && b.len() > 0 && c.len() > 0 && a[0] == b[0] && b[0] == c[0] {
        lemma_lex_transitive(a.drop_first(), b.drop_first(), c.drop_first());
    }
}

/// Two different texts are ordered one way or the other.
pub proof fn lemma_lex_total(a: Seq<char>, b: Seq<char>)
    requires
        a != b,
    ensures
        lex_lt(a, b) || lex_lt(b, a),
    decreases a.len(),
{
    if a.len() == 0 {
        assert(b.len() > 0) by {
            if b.len() == 0 {
                assert(a =~= b);
            }
        }
    } else if b.len() > 0 && a[0] == b[0] {
        if a.drop_first() == b.drop_first() {
            assert(a.drop_first().len() == b.drop_first().len());
            assert(a.len() == b.len());
            assert(a =~= b) by {
                assert forall|i: int| 0 <= i < a.len() implies a[i] == b[i] by {
                    if i > 0 {
                        assert(a[i] == a.drop_first()[i - 1]);
                        assert(b[i] == b.drop_first()[i - 1]);
                    }
                }
            }
        }
        lemma_lex_total(a.drop_first(), b.drop_first());
    }
}

/// Whether `a` comes strictly before `b`.
pub fn lex_lt_exec(a: &Vec<char>, b: &Vec<char>) -> (r: bool)
    ensures
        r == lex_lt(a@, b@),
{
    let mut i: usize = 0;
    assert(a@.skip(0) =~= a@ && b@.skip(0) =~= b@);
    loop
        invariant
            i <= a.len(),
            i <= b.len(),
            lex_lt(a@, b@) == lex_lt(a@.skip(i as int), b@.skip(i as int)),
        decreases a.len() - i,
    {
        if i == a.len() {
            return i < b.len();
        }
        if i == b.len() {
            return false;
        }
        let x = a[i];
        let y = b[i];
        assert(a@.skip(i as int)[0] == x && b@.skip(i as int)[0] == y);
        if x != y {
            return x < y;
        }
        assert(a@.skip(i as int).drop_first() =~= a@.skip(i + 1));
        assert(b@.skip(i as int).drop_first() =~= b@.skip(i + 1));
        i = i + 1;
    }
}

/// Inserts `p` into the sorted `v` at the first position holding a text that
/// comes after it.
fn insert_sorted(v: &mut Vec<Vec<char>>, p: Vec<char>)
    requires
        lex_sorted(old(v).deep_view()),
    ensures
        lex_sorted(final(v).deep_view()),
        final(v).deep_view().to_multiset() == old(v).deep_view().to_multiset().insert(p@),
{
    broadcast use vstd::seq_lib::to_multiset_insert;

    let ghost ov = v.deep_view();
    let mut pos: usize = 0;
    while pos < v.len() && !lex_lt_exec(&p, &v[pos])
        invariant
            pos <= v.len(),
            ov == v.deep_view(),
            forall|j: int| 0 <= j < pos ==> !lex_lt(p@, #[trigger] ov[j]),
        decreases v.len() - pos,
    {
        assert(ov[pos as int] == v[pos as int]@);
        pos = pos + 1;
    }
    proof {
        if pos < v.len() {
            assert(ov[pos as int] == v[pos as int]@);
        }
    }
    let ghost pv = p@;
    v.insert(pos, p);
    let ghost nv = v.deep_view();
    assert(nv =~= ov.insert(pos as int, pv));
    assert forall|i: int, j: int| 0 <= i < j < nv.len() implies lex_le(
        #[trigger] nv[i],
        #[trigger] nv[j],
    ) by {
        if j < pos {
            assert(nv[i] == ov[i] && nv[j] == ov[j]);
        } else if j == pos {
            assert(nv[i] == ov[i]);
            if ov[i] != pv {
                lemma_lex_total(ov[i], pv);
            }
        } else if i == pos {
            assert(nv[j] == ov[j - 1]);
            if pos < j - 1 {
                assert(lex_le(ov[pos as int], ov[j - 1]));
                if ov[pos as int] != ov[j - 1] {
                    lemma_lex_transitive(pv, ov[pos as int], ov[j - 1]);
                }
            }
        } else if i < pos {
            assert(nv[i] == ov[i] && nv[j] == ov[j - 1]);
        } else {
            assert(nv[i] == ov[i - 1] && nv[j] == ov[j - 1]);
        }
    }
}

/// The apps named by a package listing (`pm list packages`), sorted by
/// package name.
pub fn installed_apps(listing: &str) -> (res: Vec<InstalledApp>)
    ensures
        lex_sorted(app_packages(res@)),
        app_packages(res@).to_multiset() == listed_packages(listing@).to_multiset(),
{
    let chars = str_chars(listing);
    let lines = split_chars(&chars, '\n');
    let ghost lv = lines.deep_view();
    let mut sorted: Vec<Vec<char>> = Vec::new();
    let mut k: usize = 0;
    assert(packages_in(lv.subrange(0, 0)) =~= Seq::<Seq<char>>::empty());
    assert(sorted.deep_view() =~= Seq::<Seq<char>>::empty());
    while k < lines.len()
        invariant
            k <= lines.len(),
            lv == lines.deep_view(),
            lv == split_on(listing@, '\n'),
            lex_sorted(sorted.deep_view()),
            sorted.deep_view().to_multiset() == packages_in(lv.subrange(0, k as int)).to_multiset(),
        decreases lines.len() - k,
    {
        assert(lv[k as int] == lines[k as int]@);
        assert(lv.subrange(0, k + 1).drop_last() =~= lv.subrange(0, k as int));
        let t = trim_chars(&lines[k]);
        let prefix = str_chars("package:");
        let ghost pre = packages_in(lv.subrange(0, k as int));
        if starts_with_str(&t, "package:") && t.len() > prefix.len() {
            let name = copy_range(&t, prefix.len(), t.len());
            assert(package_of(lv[k as int]) == Some(name@));
            assert(packages_in(lv.subrange(0, k + 1)) == pre.push(name@));
            let ghost nm = name@;
            insert_sorted(&mut sorted, name);
            proof {
                vstd::seq_lib::to_multiset_build(pre, nm);
            }
        } else {
            assert(package_of(lv[k as int]) is None);
            assert(packages_in(lv.subrange(0, k + 1)) == pre);
        }
        k = k + 1;
    }
    assert(lv.subrange(0, lv.len() as int) =~= lv);
    let ghost sv = sorted.deep_view();
    let mut res: Vec<InstalledApp> = Vec::new();
    let mut m: usize = 0;
    while m < sorted.len()
        invariant
            m <= sorted.len(),
            sv == sorted.deep_view(),
            app_packages(res@) == sv.subrange(0, m as int),
        decreases sorted.len() - m,
    {
        assert(sv[m as int] == sorted[m as int]@);
        let ghost before = res@;
        let app = InstalledApp { package: string_from_chars(sorted[m].as_slice()) };
        let ghost av = app.package@;
        res.push(app);
        m = m + 1;
        assert(app_packages(res@) =~= app_packages(before).push(av));
        assert(sv.subrange(0, m as int) =~= sv.subrange(0, m - 1).push(av));
    }
    assert(sv.subrange(0, sv.len() as int) =~= sv);
    res
}

// ---------------------------------------------------------------------------
// Device commands
// ---------------------------------------------------------------------------

/// What a device command is for.
#[derive(Clone, Copy, PartialEq, Eq, Structural)]
pub enum DeviceTask {
    ListApps,
    InstallApk,
    LaunchApp,
}

/// The error of a device command run while no NOVA device is online.
pub open spec fn no_device_text(task: DeviceTask) -> Seq<char> {
    match task {
        DeviceTask::ListApps => "Inicie o Android antes de carregar a lista de apps."@,
        DeviceTask::InstallApk => "Inicie o Android antes de instalar um APK."@,
        DeviceTask::LaunchApp => "Inicie o Android antes de abrir um app."@,
    }
}

/// The error of a device command run before the device finished booting.
pub open spec fn not_booted_text(task: DeviceTask) -> Seq<char> {
    match task {
        DeviceTask::ListApps => "Aguarde o Android concluir o boot antes de carregar os apps."@,
        DeviceTask::InstallApk => "Aguarde o Android concluir o boot antes de instalar um APK."@,
        DeviceTask::LaunchApp => "Aguarde o Android concluir o boot antes de abrir um app."@,
    }
}

/// The serial that a device command runs on: the NOVA device's serial when it
/// is online and `booted` (its boot is reported complete); else the error that
/// tells the user what to wait for.
pub fn require_booted_device(serial: Option<String>, booted: bool, task: DeviceTask) -> (res:
    Result<String, String>)
    ensures
        serial is None ==> result_view(res) == Err::<Seq<char>, Seq<char>>(no_device_text(task)),
        serial is Some && !booted ==> result_view(res) == Err::<Seq<char>, Seq<char>>(
            not_booted_text(task),
        ),
        serial is Some && booted ==> res == Ok::<String, String>(serial->0),
{
    match serial {
        None => Err(
            match task {
                DeviceTask::ListApps => String::from_str(
                    "Inicie o Android antes de carregar a lista de apps.",
                ),
                DeviceTask::InstallApk => String::from_str("Inicie o Android antes de instalar um APK."),
                DeviceTask::LaunchApp => String::from_str("Inicie o Android antes de abrir um app."),
            },
        ),
        Some(s) => if booted {
            Ok(s)
        } else {
            Err(
                match task {
                    DeviceTask::ListApps => String::from_str(
                        "Aguarde o Android concluir o boot antes de carregar os apps.",
                    ),
                    DeviceTask::InstallApk => String::from_str(
                        "Aguarde o Android concluir o boot antes de instalar um APK.",
                    ),
                    DeviceTask::LaunchApp => String::from_str(
                        "Aguarde o Android concluir o boot antes de abrir um app.",
                    ),
                },
            )
        },
    }
}

/// The answer to an APK installation: success when the command succeeded and
/// its trimmed output mentions "success" in any ASCII case, naming the file
/// (or "arquivo.apk" when it has no name); else the trimmed error output (or
/// the trimmed output when that is empty); or why the command could not run.
pub open spec fn install_result_of(run: Result<CommandOutput, String>, file_name: Option<Seq<char>>) -> Result<
    Seq<char>,
    Seq<char>,
> {
    match run {
        Err(e) => Err("Falha ao executar instala\u{e7}\u{e3}o: "@ + e@),
        Ok(o) => {
            let out = trim(o.stdout@);
            let err = trim(o.stderr@);
            if o.success && crate::text::contains(crate::text::ascii_lower(out), "success"@) {
                Ok(
                    "APK instalado com sucesso: "@ + match file_name {
                        Some(n) => n,
                        None => "arquivo.apk"@,
                    },
                )
            } else {
                Err(
                    if err.len() == 0 {
                        out
                    } else {
                        err
                    },
                )
            }
        },
    }
}

/// The answer to an APK installation (see `install_result_of`).
pub fn install_apk_result(run: Result<CommandOutput, String>, file_name: Option<String>) -> (res:
    Result<String, String>)
    ensures
        result_view(res) == install_result_of(run, file_name.deep_view()),
{
    match run {
        Err(e) => {
            let mut msg: Vec<char> = Vec::new();
            push_str(&mut msg, "Falha ao executar instala\u{e7}\u{e3}o: ");
            push_str(&mut msg, e.as_str());
            Err(string_from_chars(msg.as_slice()))
        },
        Ok(o) => {
            let out = trim_chars(&str_chars(o.stdout.as_str()));
            let err = trim_chars(&str_chars(o.stderr.as_str()));
            let lower = crate::text::ascii_lower_chars(&out);
            if o.success && crate::text::contains_str(&lower, "success") {
                let mut msg: Vec<char> = Vec::new();
                push_str(&mut msg, "APK instalado com sucesso: ");
                match &file_name {
                    Some(n) => push_str(&mut msg, n.as_str()),
                    None => push_str(&mut msg, "arquivo.apk"),
                }
                Ok(string_from_chars(msg.as_slice()))
            } else if err.len() == 0 {
                Err(string_from_chars(out.as_slice()))
            } else {
                Err(string_from_chars(err.as_slice()))
            }
        },
    }
}

/// The ADB arguments that open the launcher activity of `package` on the
/// device `serial`.
pub open spec fn launch_args_of(serial: Seq<char>, package: Seq<char>) -> Seq<Seq<char>> {
    seq![
        "-s"@,
        serial,
        "shell"@,
        "monkey"@,
        "-p"@,
        trim(package),
        "-c"@,
        "android.intent.category.LAUNCHER"@,
        "1"@,
    ]
}

/// The ADB arguments that open `package` on the device `serial`, or the
/// error for a blank package name.
pub fn launch_app_args(serial: &str, package: &str) -> (res: Result<Vec<String>, String>)
    ensures
        trim(package@).len() == 0 <==> res is Err,
        res matches Err(e) ==> e@ == "Pacote inv\u{e1}lido."@,
        res matches Ok(a) ==> a.deep_view() == launch_args_of(serial@, package@),
{
    let p = trim_chars(&str_chars(package));
    if p.len() == 0 {
        return Err(String::from_str("Pacote inv\u{e1}lido."));
    }
    let mut args: Vec<String> = Vec::new();
    crate::text::push_string(&mut args, "-s");
    crate::text::push_string(&mut args, serial);
    crate::text::push_string(&mut args, "shell");
    crate::text::push_string(&mut args, "monkey");
    crate::text::push_string(&mut args, "-p");
    let ghost pv = p@;
    crate::text::push_owned(&mut args, string_from_chars(p.as_slice()));
    crate::text::push_string(&mut args, "-c");
    crate::text::push_string(&mut args, "android.intent.category.LAUNCHER");
    crate::text::push_string(&mut args, "1");
    assert(args.deep_view() =~= launch_args_of(serial@, package@));
    Ok(args)
}

/// The confirmation that `package` is being opened.
pub fn launch_app_message(package: &str) -> (res: String)
    ensures
        res@ == "Abrindo "@ + trim(package@),
{
    let p = trim_chars(&str_chars(package));
    let mut msg: Vec<char> = Vec::new();
    push_str(&mut msg, "Abrindo ");
    crate::text::push_chars(&mut msg, &p);
    string_from_chars(msg.as_slice())
}

// ---------------------------------------------------------------------------
// Process ids
// ---------------------------------------------------------------------------

/// The value of a sequence of decimal digits.
pub open spec fn digits_value(s: Seq<char>) -> nat
    decreases s.len(),
{
    if s.len() == 0 {
        0
    } else {
        digits_value(s.drop_last()) * 10 + ((s.last() as u32) - ('0' as u32)) as nat
    }
}

/// Every character is an ASCII digit.
pub open spec fn all_digits(s: Seq<char>) -> bool {
    forall|i: int| 0 <= i < s.len() ==> '0' <= #[trigger] s[i] && s[i] <= '9'
}

/// The `u32` that a text denotes (`u32::from_str`): an optional `+` followed by
/// one or more decimal digits, of a value that fits.
pub open spec fn parsed_u32(s: Seq<char>) -> Option<u32> {
    let d = if s.len() > 0 && s[0] == '+' {
        s.drop_first()
    } else {
        s
    };
    if d.len() > 0 && all_digits(d) && digits_value(d) <= u32::MAX {
        Some(digits_value(d) as u32)
    } else {
        None
    }
}

/// The process id recorded in a process-id file: its trimmed text read as a
/// `u32`, if it is one.
#[verifier::loop_isolation(false)]
pub fn parse_pid(text: &str) -> (res: Option<u32>)
    ensures
        res == parsed_u32(trim(text@)),
{
    let t = trim_chars(&str_chars(text));
    let start: usize = if t.len() > 0 && t[0] == '+' {
        1
    } else {
        0
    };
    let ghost d = t@.subrange(start as int, t@.len() as int);
    assert(d =~= (if t@.len() > 0 && t@[0] == '+' {
        t@.drop_first()
    } else {
        t@
    }));
    if start >= t.len() {
        return None;
    }
    let cap: u64 = 4294967296;
    let mut value: u64 = 0;
    let mut k = start;
    while k < t.len()
        invariant
            start <= k <= t.len(),
            d == t@.subrange(start as int, t@.len() as int),
            cap == 4294967296,
            all_digits(t@.subrange(start as int, k as int)),
            value == (if digits_value(t@.subrange(start as int, k as int)) < cap {
                digits_value(t@.subrange(start as int, k as int))
            } else {
                cap as nat
            }),
        decreases t.len() - k,
    {
        let c = t[k];
        let ghost pre = t@.subrange(start as int, k as int);
        let ghost next = t@.subrange(start as int, k + 1);
        assert(next.drop_last() =~= pre);
        assert(next.last() == c);
        if c < '0' || c > '9' {
            assert(!all_digits(d)) by {
                assert(d[k - start] == c);
            }
            return None;
        }
        let digit: u64 = (c as u32 - '0' as u32) as u64;
        assert(digits_value(next) == digits_value(pre) * 10 + digit);
        if value >= cap {
            value = cap;
        } else {
            let v = value * 10 + digit;
            value = if v >= cap {
                cap
            } else {
                v
            };
        }
        assert(all_digits(next)) by {
            assert forall|i: int| 0 <= i < next.len() implies '0' <= #[trigger] next[i] && next[i] <= '9' by {
                if i < pre.len() {
                    assert(next[i] == pre[i]);
                }
            }
        }
        k = k + 1;
    }
    assert(t@.subrange(start as int, t@.len() as int) == d);
    if value >= cap {
        None
    } else {
        Some(value as u32)
    }
}

} // verus!
