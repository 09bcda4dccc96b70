//! Where the runtime keeps its files, and the small configuration files that
//! the engine reads and rewrites: the emulator's `source.properties`, the
//! device descriptor `NOVA.ini` and the device's `config.ini`.

use vstd::prelude::*;

use crate::adb::strings_of;
use crate::adb::split_chars;
use crate::status::after;
use crate::text::{
    copy_range, join, join_chars, lemma_char_vec_deep_view, push_chars, push_str, split_on,
    starts_with, starts_with_chars, starts_with_str, str_chars, string_from_chars, trim,
    trim_chars,
};

verus! {

broadcast use lemma_char_vec_deep_view;

// ---------------------------------------------------------------------------
// Paths
// ---------------------------------------------------------------------------

/// A file-system path: a root as the operating system names it, followed by
/// relative components.
pub struct FsPath {
    pub root: String,
    pub parts: Vec<String>,
}

/// The components of `p` after its root.
pub open spec fn parts_of(p: FsPath) -> Seq<Seq<char>> {
    p.parts.deep_view()
}

/// `q` is `p` with the components `extra` appended.
pub open spec fn extends(q: FsPath, p: FsPath, extra: Seq<Seq<char>>) -> bool {
    q.root == p.root && parts_of(q) == parts_of(p) + extra
}

/// The path `p` followed by the components `names`.
fn join_all(p: &FsPath, names: &Vec<Vec<char>>) -> (res: FsPath)
    ensures
        extends(res, *p, names.deep_view()),
{
    let mut parts: Vec<String> = Vec::new();
    let ghost pv = p.parts.deep_view();
    let mut k: usize = 0;
    while k < p.parts.len()
        invariant
            k <= p.parts.len(),
            pv == p.parts.deep_view(),
            parts.deep_view() == pv.subrange(0, k as int),
        decreases p.parts.len() - k,
    {
        let ghost before = parts.deep_view();
        parts.push(p.parts[k].clone());
        k = k + 1;
        assert(parts.deep_view() =~= before.push(p.parts[k - 1]@));
        assert(pv.subrange(0, k as int) =~= pv.subrange(0, k - 1).push(pv[k - 1]));
    }
    assert(pv.subrange(0, pv.len() as int) =~= pv);
    let extra = strings_of(names);
    let ghost nv = names.deep_view();
    let mut m: usize = 0;
    while m < extra.len()
        invariant
            m <= extra.len(),
            extra.deep_view() == nv,
            parts.deep_view() == pv + nv.subrange(0, m as int),
        decreases extra.len() - m,
    {
        let ghost before = parts.deep_view();
        parts.push(extra[m].clone());
        m = m + 1;
        assert(parts.deep_view() =~= before.push(extra[m - 1]@));
        assert(pv + nv.subrange(0, m as int) =~= (pv + nv.subrange(0, m - 1)).push(nv[m - 1]));
    }
    assert(nv.subrange(0, nv.len() as int) =~= nv);
    FsPath { root: p.root.clone(), parts }
}

/// The path `p` followed by the literal components `a` and, when given, `b`
/// and `c`.
fn join_names(p: &FsPath, a: &str, b: Option<&str>, c: Option<&str>) -> (res: FsPath)
    ensures
        extends(
            res,
            *p,
            seq![a@] + (match b {
                Some(x) => seq![x@],
                None => Seq::<Seq<char>>::empty(),
            }) + (match c {
                Some(x) => seq![x@],
                None => Seq::<Seq<char>>::empty(),
            }),
        ),
{
    let mut names: Vec<Vec<char>> = Vec::new();
    names.push(str_chars(a));
    match b {
        Some(x) => names.push(str_chars(x)),
        None => {},
    }
    match c {
        Some(x) => names.push(str_chars(x)),
        None => {},
    }
    let res = join_all(p, &names);
    assert(names.deep_view() =~= seq![a@] + (match b {
        Some(x) => seq![x@],
        None => Seq::<Seq<char>>::empty(),
    }) + (match c {
        Some(x) => seq![x@],
        None => Seq::<Seq<char>>::empty(),
    }));
    res
}

/// The Android SDK inside the runtime: `sdk`.
pub fn sdk_root(runtime: &FsPath) -> (res: FsPath)
    ensures
        extends(res, *runtime, seq!["sdk"@]),
{
    let r = join_names(runtime, "sdk", None, None);
    assert(seq!["sdk"@] + Seq::<Seq<char>>::empty() + Seq::<Seq<char>>::empty() =~= seq!["sdk"@]);
    r
}

/// The emulator executable: `sdk/emulator/emulator.exe`.
pub fn emulator_path(runtime: &FsPath) -> (res: FsPath)
    ensures
        extends(res, *runtime, seq!["sdk"@, "emulator"@, "emulator.exe"@]),
{
    let r = join_names(runtime, "sdk", Some("emulator"), Some("emulator.exe"));
    assert(seq!["sdk"@] + seq!["emulator"@] + seq!["emulator.exe"@] =~= seq![
        "sdk"@,
        "emulator"@,
        "emulator.exe"@,
    ]);
    r
}

/// The emulator's package description: `sdk/emulator/source.properties`.
pub fn emulator_properties_path(runtime: &FsPath) -> (res: FsPath)
    ensures
        extends(res, *runtime, seq!["sdk"@, "emulator"@, "source.properties"@]),
{
    let r = join_names(runtime, "sdk", Some("emulator"), Some("source.properties"));
    assert(seq!["sdk"@] + seq!["emulator"@] + seq!["source.properties"@] =~= seq![
        "sdk"@,
        "emulator"@,
        "source.properties"@,
    ]);
    r
}

/// The ADB executable: `sdk/platform-tools/adb.exe`.
pub fn adb_path(runtime: &FsPath) -> (res: FsPath)
    ensures
        extends(res, *runtime, seq!["sdk"@, "platform-tools"@, "adb.exe"@]),
{
    let r = join_names(runtime, "sdk", Some("platform-tools"), Some("adb.exe"));
    assert(seq!["sdk"@] + seq!["platform-tools"@] + seq!["adb.exe"@] =~= seq![
        "sdk"@,
        "platform-tools"@,
        "adb.exe"@,
    ]);
    r
}

/// Where the virtual devices live: `avd`.
pub fn avd_home(runtime: &FsPath) -> (res: FsPath)
    ensures
        extends(res, *runtime, seq!["avd"@]),
{
    let r = join_names(runtime, "avd", None, None);
    assert(seq!["avd"@] + Seq::<Seq<char>>::empty() + Seq::<Seq<char>>::empty() =~= seq!["avd"@]);
    r
}

/// The NOVA virtual device: `avd/NOVA.avd`.
pub fn avd_dir(runtime: &FsPath) -> (res: FsPath)
    ensures
        extends(res, *runtime, seq!["avd"@, "NOVA.avd"@]),
{
    let r = join_names(runtime, "avd", Some("NOVA.avd"), None);
    assert(seq!["avd"@] + seq!["NOVA.avd"@] + Seq::<Seq<char>>::empty() =~= seq![
        "avd"@,
        "NOVA.avd"@,
    ]);
    r
}

/// The device configuration, whose presence means the device exists:
/// `avd/NOVA.avd/config.ini`.
pub fn avd_config_path(runtime: &FsPath) -> (res: FsPath)
    ensures
        extends(res, *runtime, seq!["avd"@, "NOVA.avd"@, "config.ini"@]),
{
    let r = join_names(runtime, "avd", Some("NOVA.avd"), Some("config.ini"));
    assert(seq!["avd"@] + seq!["NOVA.avd"@] + seq!["config.ini"@] =~= seq![
        "avd"@,
        "NOVA.avd"@,
        "config.ini"@,
    ]);
    r
}

/// The device descriptor: `avd/NOVA.ini`.
pub fn avd_descriptor_path(runtime: &FsPath) -> (res: FsPath)
    ensures
        extends(res, *runtime, seq!["avd"@, "NOVA.ini"@]),
{
    let r = join_names(runtime, "avd", Some("NOVA.ini"), None);
    assert(seq!["avd"@] + seq!["NOVA.ini"@] + Seq::<Seq<char>>::empty() =~= seq![
        "avd"@,
        "NOVA.ini"@,
    ]);
    r
}

/// The device's saved snapshots: `avd/NOVA.avd/snapshots`.
pub fn avd_snapshots_path(runtime: &FsPath) -> (res: FsPath)
    ensures
        extends(res, *runtime, seq!["avd"@, "NOVA.avd"@, "snapshots"@]),
{
    let r = join_names(runtime, "avd", Some("NOVA.avd"), Some("snapshots"));
    assert(seq!["avd"@] + seq!["NOVA.avd"@] + seq!["snapshots"@] =~= seq![
        "avd"@,
        "NOVA.avd"@,
        "snapshots"@,
    ]);
    r
}

/// The logs: `logs`.
pub fn log_root(runtime: &FsPath) -> (res: FsPath)
    ensures
        extends(res, *runtime, seq!["logs"@]),
{
    let r = join_names(runtime, "logs", None, None);
    assert(seq!["logs"@] + Seq::<Seq<char>>::empty() + Seq::<Seq<char>>::empty() =~= seq![
        "logs"@,
    ]);
    r
}

/// The log of the last start: `logs/engine-last-start.log`.
pub fn engine_log_path(runtime: &FsPath) -> (res: FsPath)
    ensures
        extends(res, *runtime, seq!["logs"@, "engine-last-start.log"@]),
{
    let r = join_names(runtime, "logs", Some("engine-last-start.log"), None);
    assert(seq!["logs"@] + seq!["engine-last-start.log"@] + Seq::<Seq<char>>::empty() =~= seq![
        "logs"@,
        "engine-last-start.log"@,
    ]);
    r
}

/// The marker left by a successful boot: `boot-ok.marker`.
pub fn boot_marker_path(runtime: &FsPath) -> (res: FsPath)
    ensures
        extends(res, *runtime, seq!["boot-ok.marker"@]),
{
    let r = join_names(runtime, "boot-ok.marker", None, None);
    assert(seq!["boot-ok.marker"@] + Seq::<Seq<char>>::empty() + Seq::<Seq<char>>::empty()
        =~= seq!["boot-ok.marker"@]);
    r
}

/// The file recording the emulator's process id: `engine.pid`.
pub fn pid_file_path(runtime: &FsPath) -> (res: FsPath)
    ensures
        extends(res, *runtime, seq!["engine.pid"@]),
{
    let r = join_names(runtime, "engine.pid", None, None);
    assert(seq!["engine.pid"@] + Seq::<Seq<char>>::empty() + Seq::<Seq<char>>::empty() =~= seq![
        "engine.pid"@,
    ]);
    r
}

/// The name of an attempt's log file for stream `stream` ("stdout" or
/// "stderr"): `emulator-{tag}-{stream}.log`.
pub open spec fn attempt_log_name(tag: Seq<char>, stream: Seq<char>) -> Seq<char> {
    "emulator-"@ + tag + "-"@ + stream + ".log"@
}

/// An attempt's log file for `stream`: `logs/emulator-{tag}-{stream}.log`.
pub fn attempt_log_path(runtime: &FsPath, tag: &str, stream: &str) -> (res: FsPath)
    ensures
        extends(res, *runtime, seq!["logs"@, attempt_log_name(tag@, stream@)]),
{
    let mut name: Vec<char> = Vec::new();
    push_str(&mut name, "emulator-");
    push_str(&mut name, tag);
    push_str(&mut name, "-");
    push_str(&mut name, stream);
    push_str(&mut name, ".log");
    let mut names: Vec<Vec<char>> = Vec::new();
    names.push(str_chars("logs"));
    let ghost nm = name@;
    names.push(name);
    assert(names.deep_view() =~= seq!["logs"@, nm]);
    join_all(runtime, &names)
}

// ---------------------------------------------------------------------------
// Text files
// ---------------------------------------------------------------------------

/// A line without one trailing carriage return.
pub open spec fn strip_cr(line: Seq<char>) -> Seq<char> {
    if line.len() > 0 && line.last() == '\r' {
        line.drop_last()
    } else {
        line
    }
}

/// The lines of a text file (`str::lines`): split at `\n`, each line ended by
/// `\n` losing one trailing `\r`, and no final empty line.
pub open spec fn file_lines(s: Seq<char>) -> Seq<Seq<char>> {
    let pieces = split_on(s, '\n');
    let ended = pieces.drop_last().map_values(|l: Seq<char>| strip_cr(l));
    if pieces.last().len() > 0 {
        ended.push(pieces.last())
    } else {
        ended
    }
}

/// The lines of a text file.
pub fn file_lines_of(text: &Vec<char>) -> (res: Vec<Vec<char>>)
    ensures
        res.deep_view() == file_lines(text@),
{
    let pieces = split_chars(text, '\n');
    proof {
        crate::text::lemma_split_nonempty(text@, '\n');
    }
    let ghost pv = pieces.deep_view();
    let n = pieces.len();
    let mut res: Vec<Vec<char>> = Vec::new();
    let mut k: usize = 0;
    while k + 1 < n
        invariant
            n == pieces.len() >= 1,
            k < n,
            pv == pieces.deep_view(),
            res.deep_view() == pv.subrange(0, k as int).map_values(|l: Seq<char>| strip_cr(l)),
        decreases n - k,
    {
        assert(pv[k as int] == pieces[k as int]@);
        let piece = &pieces[k];
        let line = if piece.len() > 0 && piece[piece.len() - 1] == '\r' {
            copy_range(piece, 0, piece.len() - 1)
        } else {
            copy_range(piece, 0, piece.len())
        };
        assert(line@ == strip_cr(pv[k as int])) by {
            assert(piece@.subrange(0, piece@.len() as int) =~= piece@);
            assert(piece@.subrange(0, piece@.len() - 1) =~= piece@.drop_last());
        }
        let ghost before = res.deep_view();
        let ghost lv = line@;
        res.push(line);
        k = k + 1;
        assert(res.deep_view() =~= before.push(lv));
        assert(pv.subrange(0, k as int).map_values(|l: Seq<char>| strip_cr(l)) =~= pv.subrange(
            0,
            k - 1,
        ).map_values(|l: Seq<char>| strip_cr(l)).push(strip_cr(pv[k - 1])));
    }
    assert(pv.subrange(0, k as int) =~= pv.drop_last());
    assert(pv[k as int] == pieces[k as int]@);
    if pieces[k].len() > 0 {
        let ghost before = res.deep_view();
        let last = copy_range(&pieces[k], 0, pieces[k].len());
        assert(pieces[k as int]@.subrange(0, pieces[k as int]@.len() as int) =~= pieces[k as int]@);
        let ghost lv = last@;
        res.push(last);
        assert(res.deep_view() =~= before.push(lv));
    }
    res
}

/// The value that a `key=value` line gives `key`, trimmed, if the line sets
/// that key.
pub open spec fn setting_in(line: Seq<char>, prefix: Seq<char>) -> Option<Seq<char>> {
    if starts_with(line, prefix) {
        Some(trim(after(line, prefix)))
    } else {
        None
    }
}

/// The emulator revision that a `source.properties` line gives, if any.
pub open spec fn revision_in(line: Seq<char>) -> Option<Seq<char>> {
    if starts_with(line, "Pkg.Revision="@) {
        setting_in(line, "Pkg.Revision="@)
    } else {
        setting_in(line, "Pkg.Revision ="@)
    }
}

/// The first revision given by the lines from position `i` on.
pub open spec fn first_revision(lines: Seq<Seq<char>>, i: int) -> Option<Seq<char>>
    decreases lines.len() - i,
{
    if i < 0 || i >= lines.len() {
        None
    } else if revision_in(lines[i]) is Some {
        revision_in(lines[i])
    } else {
        first_revision(lines, i + 1)
    }
}

/// The emulator version that a `source.properties` text (when it could be
/// read) declares, or "desconhecida".
pub open spec fn emulator_version_of(properties: Option<Seq<char>>) -> Seq<char> {
    match properties {
        Some(t) => match first_revision(file_lines(t), 0) {
            Some(v) => if v.len() > 0 {
                v
            } else {
                "desconhecida"@
            },
            None => "desconhecida"@,
        },
        None => "desconhecida"@,
    }
}

/// The trimmed value after `prefix` in `line`.
fn value_after(line: &Vec<char>, prefix_len: usize) -> (res: Vec<char>)
    requires
        prefix_len <= line.len(),
    ensures
        res@ == trim(line@.subrange(prefix_len as int, line@.len() as int)),
{
    let rest = copy_range(line, prefix_len, line.len());
    trim_chars(&rest)
}

/// The emulator version declared by `source.properties` (when it could be
/// read): the trimmed value of its first `Pkg.Revision=` (or
/// `Pkg.Revision =`) line, or "desconhecida" when there is none or it is
/// empty.
#[verifier::loop_isolation(false)]
pub fn emulator_version(properties: Option<String>) -> (res: String)
    ensures
        res@ == emulator_version_of(properties.deep_view()),
{
    let text = match properties {
        None => {
            return String::from_str("desconhecida");
        },
        Some(t) => t,
    };
    let chars = str_chars(text.as_str());
    let lines = file_lines_of(&chars);
    let ghost lv = lines.deep_view();
    let p1 = str_chars("Pkg.Revision=");
    let p2 = str_chars("Pkg.Revision =");
    let mut k: usize = 0;
    while k < lines.len()
        invariant
            k <= lines.len(),
            lv == lines.deep_view(),
            lv == file_lines(text@),
            p1@ == "Pkg.Revision="@,
            p2@ == "Pkg.Revision ="@,
            first_revision(lv, 0) == first_revision(lv, k as int),
        decreases lines.len() - k,
    {
        assert(lv[k as int] == lines[k as int]@);
        let line = &lines[k];
        let found = if starts_with_chars(line, &p1) {
            Some(value_after(line, p1.len()))
        } else if starts_with_chars(line, &p2) {
            Some(value_after(line, p2.len()))
        } else {
            None
        };
        match found {
            Some(v) => {
                assert(revision_in(lv[k as int]) == Some(v@));
                if v.len() > 0 {
                    return string_from_chars(v.as_slice());
                } else {
                    return String::from_str("desconhecida");
                }
            },
            None => {},
        }
        k = k + 1;
    }
    String::from_str("desconhecida")
}

/// The line that sets `key` to `value`.
pub open spec fn setting_line(key: Seq<char>, value: Seq<char>) -> Seq<char> {
    key + "="@ + value
}

/// The lines with every line that sets `key` replaced by `key=value`.
pub open spec fn replaced_settings(lines: Seq<Seq<char>>, key: Seq<char>, value: Seq<char>) -> Seq<
    Seq<char>,
> {
    lines.map_values(
        |l: Seq<char>|
            if starts_with(l, key + "="@) {
                setting_line(key, value)
            } else {
                l
            },
    )
}

/// Some line sets `key`.
pub open spec fn sets_key(lines: Seq<Seq<char>>, key: Seq<char>) -> bool {
    exists|i: int| 0 <= i < lines.len() && starts_with(#[trigger] lines[i], key + "="@)
}

/// An `.ini` text with `key` set to `value`: every line setting `key` is
/// replaced, the setting is appended when no line set it, and the lines are
/// written back with a final newline.
pub open spec fn ini_with(existing: Seq<char>, key: Seq<char>, value: Seq<char>) -> Seq<char> {
    let lines = file_lines(existing);
    let updated = replaced_settings(lines, key, value);
    let all = if sets_key(lines, key) {
        updated
    } else {
        updated.push(setting_line(key, value))
    };
    join(all, "\n"@) + "\n"@
}

/// `existing` with `key` set to `value` (see `ini_with`).
pub fn set_ini_value(existing: &str, key: &str, value: &str) -> (res: String)
    ensures
        res@ == ini_with(existing@, key@, value@),
{
    let chars = str_chars(existing);
    let lines = file_lines_of(&chars);
    let ghost lv = lines.deep_view();
    let mut prefix = str_chars(key);
    push_str(&mut prefix, "=");
    let mut entry = prefix.clone();
    push_str(&mut entry, value);
    assert(entry@ =~= setting_line(key@, value@));
    let mut out: Vec<Vec<char>> = Vec::new();
    let mut found = false;
    let mut k: usize = 0;
    while k < lines.len()
        invariant
            k <= lines.len(),
            lv == lines.deep_view(),
            prefix@ == key@ + "="@,
            entry@ == setting_line(key@, value@),
            out.deep_view() == replaced_settings(lv.subrange(0, k as int), key@, value@),
            found == sets_key(lv.subrange(0, k as int), key@),
        decreases lines.len() - k,
    {
        assert(lv[k as int] == lines[k as int]@);
        let ghost before = out.deep_view();
        let ghost prev = lv.subrange(0, k as int);
        let ghost next = lv.subrange(0, k + 1);
        assert(next =~= prev.push(lv[k as int]));
        if starts_with_chars(&lines[k], &prefix) {
            out.push(entry.clone());
            assert(out.deep_view() =~= before.push(setting_line(key@, value@)));
            found = true;
            assert(sets_key(next, key@)) by {
                assert(starts_with(next[k as int], key@ + "="@));
            }
        } else {
            out.push(lines[k].clone());
            assert(out.deep_view() =~= before.push(lv[k as int]));
            assert(sets_key(next, key@) == sets_key(prev, key@)) by {
                if sets_key(next, key@) {
                    let i = choose|i: int|
                        0 <= i < next.len() && starts_with(#[trigger] next[i], key@ + "="@);
                    if i < k {
                        assert(prev[i] == next[i]);
                    }
                }
                if sets_key(prev, key@) {
                    let i = choose|i: int|
                        0 <= i < prev.len() && starts_with(#[trigger] prev[i], key@ + "="@);
                    assert(prev[i] == next[i]);
                }
            }
        }
        assert(replaced_settings(next, key@, value@) =~= replaced_settings(prev, key@, value@).push(
            if starts_with(lv[k as int], key@ + "="@) {
                setting_line(key@, value@)
            } else {
                lv[k as int]
            },
        ));
        k = k + 1;
    }
    assert(lv.subrange(0, lv.len() as int) =~= lv);
    if !found {
        let ghost before = out.deep_view();
        out.push(entry);
        assert(out.deep_view() =~= before.push(setting_line(key@, value@)));
    }
    let sep = str_chars("\n");
    let mut text = join_chars(&out, &sep);
    push_str(&mut text, "\n");
    string_from_chars(text.as_slice())
}

// ---------------------------------------------------------------------------
// Device repair
// ---------------------------------------------------------------------------

/// The Android target that a `NOVA.ini` text (when it could be read) names:
/// the trimmed value of its first `target=` line, or "android-35" when there
/// is none or it is empty.
pub open spec fn avd_target_of(ini: Option<Seq<char>>) -> Seq<char> {
    match ini {
        Some(t) => match first_setting(file_lines(t), "target="@, 0) {
            Some(v) => if v.len() > 0 {
                v
            } else {
                "android-35"@
            },
            None => "android-35"@,
        },
        None => "android-35"@,
    }
}

/// The first value that the lines from position `i` on give to `prefix`.
pub open spec fn first_setting(lines: Seq<Seq<char>>, prefix: Seq<char>, i: int) -> Option<
    Seq<char>,
>
    decreases lines.len() - i,
{
    if i < 0 || i >= lines.len() {
        None
    } else if setting_in(lines[i], prefix) is Some {
        setting_in(lines[i], prefix)
    } else {
        first_setting(lines, prefix, i + 1)
    }
}

/// The Android target that `NOVA.ini` names (see `avd_target_of`).
#[verifier::loop_isolation(false)]
pub fn avd_target(ini: Option<String>) -> (res: String)
    ensures
        res@ == avd_target_of(ini.deep_view()),
{
    let text = match ini {
        None => {
            return String::from_str("android-35");
        },
        Some(t) => t,
    };
    let chars = str_chars(text.as_str());
    let lines = file_lines_of(&chars);
    let ghost lv = lines.deep_view();
    let p = str_chars("target=");
    let mut k: usize = 0;
    while k < lines.len()
        invariant
            k <= lines.len(),
            lv == lines.deep_view(),
            lv == file_lines(text@),
            p@ == "target="@,
            first_setting(lv, "target="@, 0) == first_setting(lv, "target="@, k as int),
        decreases lines.len() - k,
    {
        assert(lv[k as int] == lines[k as int]@);
        if starts_with_chars(&lines[k], &p) {
            let v = value_after(&lines[k], p.len());
            assert(setting_in(lv[k as int], "target="@) == Some(v@));
            if v.len() > 0 {
                return string_from_chars(v.as_slice());
            } else {
                return String::from_str("android-35");
            }
        }
        k = k + 1;
    }
    String::from_str("android-35")
}

/// The device descriptor written by the repair.
pub open spec fn descriptor_text(dir: Seq<char>, target: Seq<char>) -> Seq<char> {
    "avd.ini.encoding=UTF-8\npath="@ + dir + "\npath.rel=NOVA.avd\ntarget="@ + target + "\n"@
}

/// The `NOVA.ini` descriptor for the device directory `dir` (as the system
/// displays it), keeping the target of the previous descriptor `ini`.
pub fn avd_descriptor(dir: &str, ini: Option<String>) -> (res: String)
    ensures
        res@ == descriptor_text(dir@, avd_target_of(ini.deep_view())),
{
    let target = avd_target(ini);
    let mut out: Vec<char> = Vec::new();
    push_str(&mut out, "avd.ini.encoding=UTF-8\npath=");
    push_str(&mut out, dir);
    push_str(&mut out, "\npath.rel=NOVA.avd\ntarget=");
    push_str(&mut out, target.as_str());
    push_str(&mut out, "\n");
    string_from_chars(out.as_slice())
}

/// The device settings that the repair enforces, in the order it writes them.
pub open spec fn repair_settings() -> Seq<(Seq<char>, Seq<char>)> {
    seq![
        ("hw.keyboard"@, "yes"@),
        ("hw.gpu.enabled"@, "yes"@),
        ("hw.gpu.mode"@, "auto"@),
        ("hw.lcd.width"@, "720"@),
        ("hw.lcd.height"@, "1280"@),
        ("hw.lcd.density"@, "320"@),
        ("disk.dataPartition.size"@, "12G"@),
        ("fastboot.forceColdBoot"@, "no"@),
        ("fastboot.forceFastBoot"@, "no"@),
    ]
}

/// `text` with the first `n` repair settings applied in order.
pub open spec fn with_settings(text: Seq<char>, settings: Seq<(Seq<char>, Seq<char>)>, n: nat) -> Seq<
    char,
>
    decreases n,
{
    if n == 0 || n > settings.len() {
        text
    } else {
        let s = settings[n - 1];
        ini_with(with_settings(text, settings, (n - 1) as nat), s.0, s.1)
    }
}

/// The device configuration after the repair: every repair setting applied
/// in order to `config` (empty when the file could not be read).
pub fn repair_avd_config(config: &str) -> (res: String)
    ensures
        res@ == with_settings(config@, repair_settings(), 9),
{
    let t1 = set_ini_value(config, "hw.keyboard", "yes");
    let t2 = set_ini_value(t1.as_str(), "hw.gpu.enabled", "yes");
    let t3 = set_ini_value(t2.as_str(), "hw.gpu.mode", "auto");
    let t4 = set_ini_value(t3.as_str(), "hw.lcd.width", "720");
    let t5 = set_ini_value(t4.as_str(), "hw.lcd.height", "1280");
    let t6 = set_ini_value(t5.as_str(), "hw.lcd.density", "320");
    let t7 = set_ini_value(t6.as_str(), "disk.dataPartition.size", "12G");
    let t8 = set_ini_value(t7.as_str(), "fastboot.forceColdBoot", "no");
    let t9 = set_ini_value(t8.as_str(), "fastboot.forceFastBoot", "no");
    proof {
        let st = repair_settings();
        assert(with_settings(config@, st, 0) == config@);
        assert(with_settings(config@, st, 1) == t1@);
        assert(with_settings(config@, st, 2) == t2@);
        assert(with_settings(config@, st, 3) == t3@);
        assert(with_settings(config@, st, 4) == t4@);
        assert(with_settings(config@, st, 5) == t5@);
        assert(with_settings(config@, st, 6) == t6@);
        assert(with_settings(config@, st, 7) == t7@);
        assert(with_settings(config@, st, 8) == t8@);
        assert(with_settings(config@, st, 9) == t9@);
    }
    t9
}

} // verus!
