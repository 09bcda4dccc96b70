//! Condensing emulator output into short diagnostics: line cleaning, tail
//! limiting, selection of significant log lines and failure classification.

use vstd::prelude::*;

use crate::text::{
    ascii_lower, ascii_lower_chars, chars_eq, contains, contains_chars, contains_str, copy_range,
    join, join_chars, lemma_char_vec_deep_view, lemma_split_nonempty, push_chars, push_str, remove_char, split_on,
    str_chars, string_from_chars, trim, trim_chars,
};

verus! {

broadcast use lemma_char_vec_deep_view;

// ---------------------------------------------------------------------------
// Specifications
// ---------------------------------------------------------------------------

/// The trimmed, non-empty lines among `ls`, in order.
pub open spec fn keep_lines(ls: Seq<Seq<char>>) -> Seq<Seq<char>>
    decreases ls.len(),
{
    if ls.len() == 0 {
        Seq::<Seq<char>>::empty()
    } else {
        let rest = keep_lines(ls.drop_last());
        let t = trim(ls.last());
        if t.len() > 0 {
            rest.push(t)
        } else {
            rest
        }
    }
}

/// The lines of `text` once carriage returns are removed, each trimmed, the
/// empty ones dropped.
pub open spec fn cleaned_lines(text: Seq<char>) -> Seq<Seq<char>> {
    keep_lines(split_on(remove_char(text, '\r'), '\n'))
}

/// `s` itself when it has at most `max` characters, else an ellipsis followed
/// by its last `max` characters.
pub open spec fn tail_limited(s: Seq<char>, max: nat) -> Seq<char> {
    if s.len() <= max {
        s
    } else {
        seq!['\u{2026}'] + s.subrange(s.len() - max, s.len() as int)
    }
}

/// The separator placed between condensed lines.
pub open spec fn line_separator() -> Seq<char> {
    " \u{b7} "@
}

/// The words that make a log line significant, matched in lowercase.
pub open spec fn diagnostic_keywords() -> Seq<Seq<char>> {
    seq![
        "error"@, "fatal"@, "panic"@, "failed"@, "failure"@, "cannot"@, "could not"@,
        "unable"@, "whpx"@, "hypervisor"@, "vulkan"@, "opengl"@, "egl"@, "qemu"@,
        "crash"@, "exit"@, "memory"@, "ram"@, "permission"@, "denied"@, "unsupported"@,
    ]
}

/// A line is significant when its ASCII lowercase form contains a keyword.
pub open spec fn is_significant(line: Seq<char>) -> bool {
    exists|k: int|
        0 <= k < diagnostic_keywords().len() && contains(
            ascii_lower(line),
            #[trigger] diagnostic_keywords()[k],
        )
}

/// The significant lines among `ls`, in order.
pub open spec fn significant_lines(ls: Seq<Seq<char>>) -> Seq<Seq<char>>
    decreases ls.len(),
{
    if ls.len() == 0 {
        Seq::<Seq<char>>::empty()
    } else {
        let rest = significant_lines(ls.drop_last());
        if is_significant(ls.last()) {
            rest.push(ls.last())
        } else {
            rest
        }
    }
}

/// The last `n` elements of `s` (all of them when there are fewer).
pub open spec fn last_n<T>(s: Seq<T>, n: nat) -> Seq<T> {
    if s.len() <= n {
        s
    } else {
        s.subrange(s.len() - n, s.len() as int)
    }
}

/// `base` followed by the elements of `items` that are not already present,
/// each added at most once, in order.
pub open spec fn merge_new(base: Seq<Seq<char>>, items: Seq<Seq<char>>) -> Seq<Seq<char>>
    decreases items.len(),
{
    if items.len() == 0 {
        base
    } else {
        let m = merge_new(base, items.drop_last());
        if m.contains(items.last()) {
            m
        } else {
            m.push(items.last())
        }
    }
}

/// The lines kept for a diagnostic: the last 45 lines, preceded by the last 20
/// significant lines when there are any (without repeating a line).
pub open spec fn selected_lines(lines: Seq<Seq<char>>) -> Seq<Seq<char>> {
    let sig = significant_lines(lines);
    let tail = last_n(lines, 45);
    if sig.len() == 0 {
        tail
    } else {
        merge_new(last_n(sig, 20), tail)
    }
}

/// The diagnostic condensed from a log text.
pub open spec fn diagnostic_of(text: Seq<char>) -> Seq<char> {
    let lines = cleaned_lines(text);
    if lines.len() == 0 {
        Seq::<char>::empty()
    } else {
        tail_limited(join(selected_lines(lines), line_separator()), 3600)
    }
}

/// The kind of failure that a lowercased diagnostic reveals, or `fallback`.
pub open spec fn failure_kind(lower: Seq<char>, fallback: Seq<char>) -> Seq<char> {
    if (contains(lower, "whpx"@) || contains(lower, "hypervisor"@)) && (contains(
        lower,
        "not installed"@,
    ) || contains(lower, "not usable"@) || contains(lower, "failed"@) || contains(
        lower,
        "error"@,
    )) {
        "Falha de virtualiza\u{e7}\u{e3}o/WHPX"@
    } else if contains(lower, "vulkan"@) {
        "Falha na camada Vulkan/GPU"@
    } else if contains(lower, "opengl"@) || contains(lower, "egl"@) || contains(
        lower,
        "gfxstream"@,
    ) {
        "Falha na inicializa\u{e7}\u{e3}o gr\u{e1}fica"@
    } else if contains(lower, "not enough memory"@) || contains(lower, "commit charge"@)
        || contains(lower, "out of memory"@) {
        "Mem\u{f3}ria insuficiente para a VM"@
    } else {
        fallback
    }
}

/// The message reporting a failed boot attempt with graphics mode `gpu`.
pub open spec fn failure_message(gpu: Seq<char>, details: Seq<char>, timeout_label: Seq<char>) -> Seq<
    char,
> {
    let kind = failure_kind(ascii_lower(details), timeout_label);
    if details.len() == 0 {
        "GPU "@ + gpu + ": "@ + kind + "."@
    } else {
        "GPU "@ + gpu + ": "@ + kind + ". Diagn\u{f3}stico final: "@ + details
    }
}

// ---------------------------------------------------------------------------
// Line cleaning
// ---------------------------------------------------------------------------

/// Closes the current line: pushes it, trimmed, unless it is blank.
fn close_line(out: &mut Vec<Vec<char>>, cur: &Vec<char>, Ghost(done): Ghost<Seq<Seq<char>>>)
    requires
        old(out).deep_view() == keep_lines(done),
    ensures
        final(out).deep_view() == keep_lines(done.push(cur@)),
{
    let t = trim_chars(cur);
    let ghost before = out.deep_view();
    assert(done.push(cur@).drop_last() =~= done);
    if t.len() > 0 {
        out.push(t);
        assert(out.deep_view() =~= before.push(trim(cur@)));
    }
}

/// The cleaned lines of a text, as character vectors.
pub fn clean_line_chars(text: &Vec<char>) -> (res: Vec<Vec<char>>)
    ensures
        res.deep_view() == cleaned_lines(text@),
{
    let mut out: Vec<Vec<char>> = Vec::new();
    let mut cur: Vec<char> = Vec::new();
    let mut k: usize = 0;
    proof {
        assert(text@.subrange(0, 0) =~= Seq::<char>::empty());
        assert(out.deep_view() =~= Seq::<Seq<char>>::empty());
    }
    while k < text.len()
        invariant
            k <= text.len(),
            ({
                let sp = split_on(remove_char(text@.subrange(0, k as int), '\r'), '\n');
                &&& sp.len() >= 1
                &&& cur@ == sp.last()
                &&& out.deep_view() == keep_lines(sp.drop_last())
            }),
        decreases text.len() - k,
    {
        let c = text[k];
        let ghost pre = text@.subrange(0, k as int);
        let ghost p = remove_char(pre, '\r');
        let ghost sp = split_on(p, '\n');
        let ghost next = text@.subrange(0, k + 1);
        proof {
            assert(next.drop_last() =~= pre);
            assert(next.last() == c);
        }
        if c == '\r' {
            assert(remove_char(next, '\r') == p);
        } else if c == '\n' {
            assert(remove_char(next, '\r') == p.push(c));
            proof {
                assert(p.push(c).drop_last() =~= p);
                lemma_split_nonempty(p, '\n');
            }
            close_line(&mut out, &cur, Ghost(sp.drop_last()));
            proof {
                assert(sp.drop_last().push(cur@) =~= sp);
                let sp2 = split_on(p.push(c), '\n');
                assert(sp2 == sp.push(Seq::<char>::empty()));
                assert(sp2.drop_last() =~= sp);
            }
            cur = Vec::new();
            proof {
                assert(cur@ =~= Seq::<char>::empty());
            }
        } else {
            assert(remove_char(next, '\r') == p.push(c));
            proof {
                assert(p.push(c).drop_last() =~= p);
                lemma_split_nonempty(p, '\n');
            }
            cur.push(c);
            proof {
                let sp2 = split_on(p.push(c), '\n');
                assert(sp2 == sp.update(sp.len() - 1, sp.last().push(c)));
                assert(sp2.drop_last() =~= sp.drop_last());
                assert(sp2.last() == sp.last().push(c));
            }
        }
        k = k + 1;
    }
    let ghost sp = split_on(remove_char(text@.subrange(0, k as int), '\r'), '\n');
    close_line(&mut out, &cur, Ghost(sp.drop_last()));
    proof {
        assert(sp.drop_last().push(cur@) =~= sp);
        assert(text@.subrange(0, k as int) =~= text@);
    }
    out
}

/// The cleaned lines of `text`: carriage returns removed, each line trimmed,
/// blank lines dropped.
pub fn clean_lines(text: &str) -> (res: Vec<String>)
    ensures
        res.deep_view() == cleaned_lines(text@),
{
    let chars = str_chars(text);
    let lines = clean_line_chars(&chars);
    let ghost dv = lines.deep_view();
    let mut res: Vec<String> = Vec::new();
    let mut k: usize = 0;
    while k < lines.len()
        invariant
            k <= lines.len(),
            dv == lines.deep_view(),
            res.deep_view() == dv.subrange(0, k as int),
        decreases lines.len() - k,
    {
        let s = string_from_chars(lines[k].as_slice());
        let ghost before = res.deep_view();
        res.push(s);
        k = k + 1;
        assert(res.deep_view() =~= dv.subrange(0, k as int)) by {
            assert(res.deep_view() =~= before.push(s@));
            assert(dv[k - 1] == lines[k - 1]@);
        }
    }
    assert(dv.subrange(0, lines.len() as int) =~= dv);
    res
}

// ---------------------------------------------------------------------------
// Tail limiting
// ---------------------------------------------------------------------------

/// `s` limited to its last `max_chars` characters, behind an ellipsis.
pub fn limit_tail_chars(s: Vec<char>, max_chars: usize) -> (res: Vec<char>)
    ensures
        res@ == tail_limited(s@, max_chars as nat),
{
    if s.len() <= max_chars {
        return s;
    }
    let start = s.len() - max_chars;
    let mut res: Vec<char> = Vec::new();
    res.push('\u{2026}');
    let rest = copy_range(&s, start, s.len());
    push_chars(&mut res, &rest);
    assert(res@ =~= seq!['\u{2026}'] + rest@);
    res
}

/// `text` when it has at most `max_chars` characters, else an ellipsis
/// followed by its last `max_chars` characters.
pub fn limit_tail(text: String, max_chars: usize) -> (res: String)
    ensures
        res@ == tail_limited(text@, max_chars as nat),
{
    let chars = str_chars(text.as_str());
    if chars.len() <= max_chars {
        return text;
    }
    let limited = limit_tail_chars(chars, max_chars);
    string_from_chars(limited.as_slice())
}

/// The cleaned lines of `text` joined by " · ", limited to 2200 characters.
pub fn compact_output(text: String) -> (res: String)
    ensures
        res@ == tail_limited(join(cleaned_lines(text@), line_separator()), 2200),
{
    let chars = str_chars(text.as_str());
    let lines = clean_line_chars(&chars);
    let sep = str_chars(" \u{b7} ");
    let joined = join_chars(&lines, &sep);
    let limited = limit_tail_chars(joined, 2200);
    string_from_chars(limited.as_slice())
}

// ---------------------------------------------------------------------------
// Diagnostic selection
// ---------------------------------------------------------------------------

/// The keywords of a significant line, as character vectors.
pub fn keyword_chars() -> (res: Vec<Vec<char>>)
    ensures
        res.deep_view() == diagnostic_keywords(),
{
    let mut res: Vec<Vec<char>> = Vec::new();
    res.push(str_chars("error"));
    res.push(str_chars("fatal"));
    res.push(str_chars("panic"));
    res.push(str_chars("failed"));
    res.push(str_chars("failure"));
    res.push(str_chars("cannot"));
    res.push(str_chars("could not"));
    res.push(str_chars("unable"));
    res.push(str_chars("whpx"));
    res.push(str_chars("hypervisor"));
    res.push(str_chars("vulkan"));
    res.push(str_chars("opengl"));
    res.push(str_chars("egl"));
    res.push(str_chars("qemu"));
    res.push(str_chars("crash"));
    res.push(str_chars("exit"));
    res.push(str_chars("memory"));
    res.push(str_chars("ram"));
    res.push(str_chars("permission"));
    res.push(str_chars("denied"));
    res.push(str_chars("unsupported"));
    assert(res.deep_view() =~= diagnostic_keywords());
    res
}

/// Whether a line holds one of the diagnostic keywords (ASCII case-insensitive).
pub fn line_is_significant(line: &Vec<char>, keywords: &Vec<Vec<char>>) -> (r: bool)
    requires
        keywords.deep_view() == diagnostic_keywords(),
    ensures
        r == is_significant(line@),
{
    let lower = ascii_lower_chars(line);
    let mut k: usize = 0;
    while k < keywords.len()
        invariant
            k <= keywords.len(),
            keywords.deep_view() == diagnostic_keywords(),
            lower@ == ascii_lower(line@),
            forall|j: int|
                0 <= j < k ==> !contains(ascii_lower(line@), #[trigger] diagnostic_keywords()[j]),
        decreases keywords.len() - k,
    {
        assert(diagnostic_keywords()[k as int] == keywords[k as int]@);
        if contains_chars(&lower, &keywords[k]) {
            assert(contains(ascii_lower(line@), diagnostic_keywords()[k as int]));
            return true;
        }
        k = k + 1;
    }
    false
}

/// Whether `lines` holds a line equal to `line`.
pub fn holds_line(lines: &Vec<Vec<char>>, line: &Vec<char>) -> (r: bool)
    ensures
        r == lines.deep_view().contains(line@),
{
    let ghost dv = lines.deep_view();
    let mut k: usize = 0;
    while k < lines.len()
        invariant
            k <= lines.len(),
            dv == lines.deep_view(),
            forall|j: int| 0 <= j < k ==> dv[j] != line@,
        decreases lines.len() - k,
    {
        assert(dv[k as int] == lines[k as int]@);
        if chars_eq(&lines[k], line) {
            return true;
        }
        k = k + 1;
    }
    false
}

/// The last `n` lines of `lines`.
fn last_lines(lines: &Vec<Vec<char>>, n: usize) -> (res: Vec<Vec<char>>)
    ensures
        res.deep_view() == last_n(lines.deep_view(), n as nat),
{
    let ghost dv = lines.deep_view();
    let start = if lines.len() <= n {
        0
    } else {
        lines.len() - n
    };
    let mut res: Vec<Vec<char>> = Vec::new();
    let mut k = start;
    while k < lines.len()
        invariant
            start <= k <= lines.len(),
            dv == lines.deep_view(),
            res.deep_view() == dv.subrange(start as int, k as int),
        decreases lines.len() - k,
    {
        let ghost before = res.deep_view();
        res.push(lines[k].clone());
        k = k + 1;
        assert(res.deep_view() =~= dv.subrange(start as int, k as int)) by {
            assert(res.deep_view() =~= before.push(lines[k - 1]@));
            assert(dv[k - 1] == lines[k - 1]@);
        }
    }
    assert(dv.subrange(0, dv.len() as int) =~= dv);
    res
}

/// The significant lines of `lines`, in order.
fn significant_of(lines: &Vec<Vec<char>>, keywords: &Vec<Vec<char>>) -> (res: Vec<Vec<char>>)
    requires
        keywords.deep_view() == diagnostic_keywords(),
    ensures
        res.deep_view() == significant_lines(lines.deep_view()),
{
    let ghost dv = lines.deep_view();
    let mut res: Vec<Vec<char>> = Vec::new();
    let mut k: usize = 0;
    assert(res.deep_view() =~= significant_lines(dv.subrange(0, 0)));
    while k < lines.len()
        invariant
            k <= lines.len(),
            dv == lines.deep_view(),
            keywords.deep_view() == diagnostic_keywords(),
            res.deep_view() == significant_lines(dv.subrange(0, k as int)),
        decreases lines.len() - k,
    {
        let ghost before = res.deep_view();
        assert(dv[k as int] == lines[k as int]@);
        assert(dv.subrange(0, k + 1).drop_last() =~= dv.subrange(0, k as int));
        if line_is_significant(&lines[k], keywords) {
            res.push(lines[k].clone());
            assert(res.deep_view() =~= before.push(lines[k as int]@));
        }
        k = k + 1;
    }
    assert(dv.subrange(0, dv.len() as int) =~= dv);
    res
}

/// `base` extended with the lines of `items` that it does not hold yet.
fn merge_lines(base: Vec<Vec<char>>, items: &Vec<Vec<char>>) -> (res: Vec<Vec<char>>)
    ensures
        res.deep_view() == merge_new(base.deep_view(), items.deep_view()),
{
    let ghost b = base.deep_view();
    let ghost iv = items.deep_view();
    let mut merged = base;
    let mut k: usize = 0;
    assert(iv.subrange(0, 0) =~= Seq::<Seq<char>>::empty());
    while k < items.len()
        invariant
            k <= items.len(),
            iv == items.deep_view(),
            merged.deep_view() == merge_new(b, iv.subrange(0, k as int)),
        decreases items.len() - k,
    {
        let ghost before = merged.deep_view();
        assert(iv[k as int] == items[k as int]@);
        assert(iv.subrange(0, k + 1).drop_last() =~= iv.subrange(0, k as int));
        if !holds_line(&merged, &items[k]) {
            merged.push(items[k].clone());
            assert(merged.deep_view() =~= before.push(items[k as int]@));
        }
        k = k + 1;
    }
    assert(iv.subrange(0, iv.len() as int) =~= iv);
    merged
}

/// The diagnostic tail of a log: the last 20 significant lines followed by the
/// remaining lines among the last 45, joined by " · " and limited to 3600
/// characters.
pub fn diagnostic_tail(text: &str) -> (res: String)
    ensures
        res@ == diagnostic_of(text@),
{
    let chars = str_chars(text);
    let lines = clean_line_chars(&chars);
    if lines.len() == 0 {
        return String::new();
    }
    let keywords = keyword_chars();
    let significant = significant_of(&lines, &keywords);
    let tail = last_lines(&lines, 45);
    let selected = if significant.len() == 0 {
        tail
    } else {
        let recent = last_lines(&significant, 20);
        merge_lines(recent, &tail)
    };
    let sep = str_chars(" \u{b7} ");
    let joined = join_chars(&selected, &sep);
    let limited = limit_tail_chars(joined, 3600);
    string_from_chars(limited.as_slice())
}

/// The diagnostic of a boot attempt, from its standard output and standard
/// error logs (each empty when it could not be read), read one after the
/// other.
pub fn attempt_diagnostics(stdout: &str, stderr: &str) -> (res: String)
    ensures
        res@ == diagnostic_of(stdout@ + "\n"@ + stderr@),
{
    let mut text: Vec<char> = Vec::new();
    push_str(&mut text, stdout);
    push_str(&mut text, "\n");
    push_str(&mut text, stderr);
    let joined = string_from_chars(text.as_slice());
    diagnostic_tail(joined.as_str())
}

// ---------------------------------------------------------------------------
// Failure classification
// ---------------------------------------------------------------------------

/// The kind of failure that the lowercased diagnostic `lower` reveals.
fn failure_kind_chars(lower: &Vec<char>, fallback: &str) -> (res: Vec<char>)
    ensures
        res@ == failure_kind(lower@, fallback@),
{
    if (contains_str(lower, "whpx") || contains_str(lower, "hypervisor")) && (contains_str(
        lower,
        "not installed",
    ) || contains_str(lower, "not usable") || contains_str(lower, "failed") || contains_str(
        lower,
        "error",
    )) {
        str_chars("Falha de virtualiza\u{e7}\u{e3}o/WHPX")
    } else if contains_str(lower, "vulkan") {
        str_chars("Falha na camada Vulkan/GPU")
    } else if contains_str(lower, "opengl") || contains_str(lower, "egl") || contains_str(
        lower,
        "gfxstream",
    ) {
        str_chars("Falha na inicializa\u{e7}\u{e3}o gr\u{e1}fica")
    } else if contains_str(lower, "not enough memory") || contains_str(lower, "commit charge")
        || contains_str(lower, "out of memory") {
        str_chars("Mem\u{f3}ria insuficiente para a VM")
    } else {
        str_chars(fallback)
    }
}

/// The report of a failed boot attempt: the graphics mode, the failure kind
/// read from the diagnostic (or `timeout_label` when none is recognised) and
/// the diagnostic itself when there is one.
pub fn classify_failure(gpu: &str, details: &str, timeout_label: &str) -> (res: String)
    ensures
        res@ == failure_message(gpu@, details@, timeout_label@),
{
    let d = str_chars(details);
    let lower = ascii_lower_chars(&d);
    let kind = failure_kind_chars(&lower, timeout_label);
    let mut out: Vec<char> = Vec::new();
    push_str(&mut out, "GPU ");
    push_str(&mut out, gpu);
    push_str(&mut out, ": ");
    push_chars(&mut out, &kind);
    if d.len() == 0 {
        push_str(&mut out, ".");
    } else {
        push_str(&mut out, ". Diagn\u{f3}stico final: ");
        push_chars(&mut out, &d);
    }
    string_from_chars(out.as_slice())
}

} // verus!
