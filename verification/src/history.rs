//! The history store's pure core: run records, their file names, the slug,
//! timestamp formatting and the most-recent-first ordering.

use vstd::prelude::*;
use crate::ports::ScriptRunOutput;
use crate::schema::clone_string_vec;
use crate::text::{
    append_chars, chars_to_string, dec_digits, dec_padded, dec_signed, alnum_char, i64_to_chars,
    is_alnum_char, lower_char, starts_with, starts_with_spec, str_to_chars, subrange_chars,
    to_lower_char, trim, trim_end, trim_end_spec, trim_spec, u64_to_chars, u64_to_chars_padded,
};

verus! {

/// One recorded run attempt: created on every attempt, success or failure,
/// and immutable once written.
#[derive(Debug)]
pub struct HistoryEntry {
    pub timestamp: i64,
    pub script: String,
    pub args: Vec<String>,
    pub success: bool,
    pub exit_code: Option<i32>,
    pub stdout: String,
    pub stderr: String,
    pub error: Option<String>,
}

/// The mathematical value of a `HistoryEntry`.
pub struct HistoryEntryView {
    pub timestamp: i64,
    pub script: Seq<char>,
    pub args: Seq<Seq<char>>,
    pub success: bool,
    pub exit_code: Option<i32>,
    pub stdout: Seq<char>,
    pub stderr: Seq<char>,
    pub error: Option<Seq<char>>,
}

impl View for HistoryEntry {
    type V = HistoryEntryView;

    open spec fn view(&self) -> HistoryEntryView {
        HistoryEntryView {
            timestamp: self.timestamp,
            script: self.script@,
            args: self.args.deep_view(),
            success: self.success,
            exit_code: self.exit_code,
            stdout: self.stdout@,
            stderr: self.stderr@,
            error: crate::schema::opt_str_view(self.error),
        }
    }
}

impl Clone for HistoryEntry {
    /// A cloned entry has the same mathematical value.
    fn clone(&self) -> (r: HistoryEntry)
        ensures
            r@ == self@,
    {
        HistoryEntry {
            timestamp: self.timestamp,
            script: self.script.clone(),
            args: clone_string_vec(&self.args),
            success: self.success,
            exit_code: self.exit_code,
            stdout: self.stdout.clone(),
            stderr: self.stderr.clone(),
            error: crate::schema::clone_opt_string(&self.error),
        }
    }
}

/// The record of a run that the runner completed, successfully or not.
pub fn success_entry(
    timestamp: i64,
    script: String,
    args: Vec<String>,
    output: ScriptRunOutput,
) -> (r: HistoryEntry)
    ensures
        r@.timestamp == timestamp,
        r@.script == script@,
        r@.args == args.deep_view(),
        r@.success == output.success,
        r@.exit_code == output.exit_code,
        r@.stdout == output.stdout@,
        r@.stderr == output.stderr@,
        r@.error is None,
{
    HistoryEntry {
        timestamp,
        script,
        args,
        success: output.success,
        exit_code: output.exit_code,
        stdout: output.stdout,
        stderr: output.stderr,
        error: Option::None,
    }
}

/// The record of a run that could not be launched: marked failed, with the
/// launch error kept.
pub fn error_entry(timestamp: i64, script: String, args: Vec<String>, message: String) -> (r:
    HistoryEntry)
    ensures
        r@.timestamp == timestamp,
        r@.script == script@,
        r@.args == args.deep_view(),
        !r@.success,
        r@.exit_code is None,
        r@.stdout.len() == 0,
        r@.stderr.len() == 0,
        r@.error == Option::Some(message@),
{
    HistoryEntry {
        timestamp,
        script,
        args,
        success: false,
        exit_code: Option::None,
        stdout: String::new(),
        stderr: String::new(),
        error: Option::Some(message),
    }
}

/// The workspace-relative form of a script path: the root prefix stripped
/// when it stands on a separator boundary, the path unchanged otherwise.
pub open spec fn relative_path_spec(root: Seq<char>, script: Seq<char>) -> Seq<char> {
    if script == root {
        Seq::empty()
    } else if starts_with_spec(script, root.push('/')) {
        script.subrange(root.len() as int + 1, script.len() as int)
    } else {
        script
    }
}

pub fn script_path(root: &str, script: &str) -> (r: String)
    ensures
        r@ == relative_path_spec(root@, script@),
{
    let root_chars = str_to_chars(root);
    let script_chars = str_to_chars(script);
    if crate::text::eq_chars(&script_chars, &root_chars) {
        return chars_to_string(&Vec::new());
    }
    let mut with_sep = root_chars;
    with_sep.push('/');
    proof {
        assert(with_sep@ =~= root@.push('/'));
    }
    if starts_with(&script_chars, &with_sep) {
        let rel = subrange_chars(&script_chars, with_sep.len(), script_chars.len());
        return chars_to_string(&rel);
    }
    chars_to_string(&script_chars)
}

/// The slug body before trimming: alphanumerics lower-cased, every run of
/// other characters collapsed to one underscore. `prev_us` records whether
/// the last written character was such an underscore.
pub open spec fn slug_core(s: Seq<char>, prev_us: bool) -> Seq<char>
    decreases s.len(),
{
    if s.len() == 0 {
        Seq::empty()
    } else if is_alnum_char(s[0]) {
        seq![lower_char(s[0])] + slug_core(s.drop_first(), false)
    } else if !prev_us {
        seq!['_'] + slug_core(s.drop_first(), true)
    } else {
        slug_core(s.drop_first(), true)
    }
}

pub open spec fn trim_us_start(s: Seq<char>) -> Seq<char>
    decreases s.len(),
{
    if s.len() > 0 && s[0] == '_' {
        trim_us_start(s.drop_first())
    } else {
        s
    }
}

pub open spec fn trim_us_end(s: Seq<char>) -> Seq<char>
    decreases s.len(),
{
    if s.len() > 0 && s.last() == '_' {
        trim_us_end(s.drop_last())
    } else {
        s
    }
}

/// The file-name slug of a script path: lower case, non-alphanumerics
/// collapsed to single underscores, underscores trimmed from the ends,
/// `run` when nothing is left, cut off at 64 characters.
pub open spec fn slug_spec(s: Seq<char>) -> Seq<char> {
    let core = trim_us_end(trim_us_start(slug_core(s, false)));
    let base = if core.len() == 0 {
        "run"@
    } else {
        core
    };
    if base.len() > 64 {
        base.subrange(0, 64)
    } else {
        base
    }
}

proof fn lemma_trim_us_start_at(s: Seq<char>, i: int)
    requires
        0 <= i <= s.len(),
        forall|j: int| 0 <= j < i ==> s[j] == '_',
        i == s.len() || s[i] != '_',
    ensures
        trim_us_start(s) == s.subrange(i, s.len() as int),
    decreases i,
{
    if i == 0 {
        assert(s.subrange(0, s.len() as int) =~= s);
    } else {
        let s2 = s.drop_first();
        lemma_trim_us_start_at(s2, i - 1);
        assert(s2.subrange(i - 1, s2.len() as int) =~= s.subrange(i, s.len() as int));
    }
}

proof fn lemma_trim_us_end_at(s: Seq<char>, i: int)
    requires
        0 <= i <= s.len(),
        forall|j: int| i <= j < s.len() ==> s[j] == '_',
        i == 0 || s[i - 1] != '_',
    ensures
        trim_us_end(s) == s.subrange(0, i),
    decreases s.len() - i,
{
    if i == s.len() {
        assert(s.subrange(0, i) =~= s);
    } else {
        let s2 = s.drop_last();
        lemma_trim_us_end_at(s2, i);
        assert(s2.subrange(0, i) =~= s.subrange(0, i));
    }
}

/// Builds the file-name slug of a script path.
pub fn safe_slug(input: &str) -> (r: String)
    ensures
        r@ == slug_spec(input@),
{
    let chars = str_to_chars(input);
    let mut out: Vec<char> = Vec::new();
    let mut prev_us = false;
    let mut i: usize = 0;
    proof {
        assert(chars@.subrange(0, chars@.len() as int) =~= chars@);
        assert(out@ + slug_core(chars@, false) =~= slug_core(chars@, false));
    }
    while i < chars.len()
        invariant
            i <= chars@.len(),
            chars@ == input@,
            slug_core(input@, false) == out@ + slug_core(
                input@.subrange(i as int, input@.len() as int),
                prev_us,
            ),
            prev_us ==> out@.len() > 0 && out@.last() == '_',
        decreases chars@.len() - i,
    {
        let ghost rest = input@.subrange(i as int, input@.len() as int);
        proof {
            assert(rest[0] == input@[i as int]);
            assert(rest.drop_first() =~= input@.subrange(i + 1, input@.len() as int));
        }
        let c = chars[i];
        if alnum_char(c) {
            out.push(to_lower_char(c));
            prev_us = false;
            proof {
                assert(out@ + slug_core(rest.drop_first(), false) =~= (out@.drop_last() + (seq![
                    lower_char(rest[0]),
                ] + slug_core(rest.drop_first(), false))));
            }
        } else if !prev_us {
            out.push('_');
            prev_us = true;
            proof {
                assert(out@ + slug_core(rest.drop_first(), true) =~= (out@.drop_last() + (seq!['_']
                    + slug_core(rest.drop_first(), true))));
            }
        }
        i = i + 1;
    }
    proof {
        assert(input@.subrange(input@.len() as int, input@.len() as int) =~= Seq::<char>::empty());
        assert(out@ + Seq::<char>::empty() =~= out@);
        assert(out@ == slug_core(input@, false));
    }
    // trim underscores from both ends
    let mut start: usize = 0;
    while start < out.len() && out[start] == '_'
        invariant
            start <= out@.len(),
            forall|j: int| 0 <= j < start ==> out@[j] == '_',
        decreases out@.len() - start,
    {
        start = start + 1;
    }
    proof {
        lemma_trim_us_start_at(out@, start as int);
    }
    let ghost t = trim_us_start(out@);
    let mut end: usize = out.len();
    while end > start && out[end - 1] == '_'
        invariant
            start <= end <= out@.len(),
            forall|j: int| end <= j < out@.len() ==> out@[j] == '_',
        decreases end,
    {
        end = end - 1;
    }
    let core = subrange_chars(&out, start, end);
    proof {
        assert(t =~= out@.subrange(start as int, out@.len() as int));
        assert(forall|j: int| end - start <= j < t.len() ==> t[j] == '_');
        lemma_trim_us_end_at(t, end - start);
        assert(core@ == trim_us_end(trim_us_start(out@)));
    }
    let mut base = core;
    if base.len() == 0 {
        base = str_to_chars("run");
    }
    if base.len() > 64 {
        base.truncate(64);
    }
    chars_to_string(&base)
}

/// The history file name of an entry: time stamp, process id and slug joined
/// with `-`, then `.json`; sortable by time and collision-resistant.
pub open spec fn file_name_spec(e: HistoryEntryView, pid: u64) -> Seq<char> {
    dec_signed(e.timestamp as int) + "-"@ + dec_digits(pid as nat) + "-"@ + slug_spec(e.script)
        + ".json"@
}

pub fn history_file_name(entry: &HistoryEntry, pid: u64) -> (r: String)
    ensures
        r@ == file_name_spec(entry@, pid),
{
    let mut out = i64_to_chars(entry.timestamp);
    let dash = str_to_chars("-");
    append_chars(&mut out, &dash);
    let pid_chars = u64_to_chars(pid);
    append_chars(&mut out, &pid_chars);
    append_chars(&mut out, &dash);
    let slug = safe_slug(entry.script.as_str());
    let slug_chars = str_to_chars(slug.as_str());
    append_chars(&mut out, &slug_chars);
    let ext = str_to_chars(".json");
    append_chars(&mut out, &ext);
    chars_to_string(&out)
}

/// The text shown for a finished run: the launch error when there is one,
/// else the captured streams under their labels.
pub open spec fn format_output_spec(e: HistoryEntryView) -> Seq<char> {
    match e.error {
        Option::Some(err) => trim_spec(err),
        Option::None => {
            let has_out = trim_spec(e.stdout).len() > 0;
            let has_err = trim_spec(e.stderr).len() > 0;
            let out_part = "STDOUT:\n"@ + trim_end_spec(e.stdout);
            let err_part = "STDERR:\n"@ + trim_end_spec(e.stderr);
            if has_out && has_err {
                out_part + "\n\n"@ + err_part
            } else if has_out {
                out_part
            } else if has_err {
                err_part
            } else {
                Seq::empty()
            }
        },
    }
}

pub fn format_output(entry: &HistoryEntry) -> (r: String)
    ensures
        r@ == format_output_spec(entry@),
{
    if let Option::Some(err) = &entry.error {
        let t = trim(&str_to_chars(err.as_str()));
        return chars_to_string(&t);
    }
    let out_chars = str_to_chars(entry.stdout.as_str());
    let err_chars = str_to_chars(entry.stderr.as_str());
    let has_out = trim(&out_chars).len() > 0;
    let has_err = trim(&err_chars).len() > 0;
    let mut acc: Vec<char> = Vec::new();
    if has_out {
        let label = str_to_chars("STDOUT:\n");
        append_chars(&mut acc, &label);
        let body = trim_end(&out_chars);
        append_chars(&mut acc, &body);
    }
    if has_out && has_err {
        let gap = str_to_chars("\n\n");
        append_chars(&mut acc, &gap);
    }
    if has_err {
        let label = str_to_chars("STDERR:\n");
        append_chars(&mut acc, &label);
        let body = trim_end(&err_chars);
        append_chars(&mut acc, &body);
    }
    chars_to_string(&acc)
}

/// Entries stand most recent first.
pub open spec fn sorted_desc(entries: Seq<HistoryEntry>) -> bool {
    forall|i: int, j: int|
        0 <= i < j < entries.len() ==> #[trigger] entries[i].timestamp
            >= #[trigger] entries[j].timestamp
}

/// Orders run records by time stamp, newest first, as the history screen
/// shows them.
pub fn sort_entries_desc(entries: Vec<HistoryEntry>) -> (r: Vec<HistoryEntry>)
    ensures
        sorted_desc(r@),
        r@.to_multiset() == entries@.to_multiset(),
        r@.len() == entries@.len(),
{
    broadcast use vstd::seq_lib::group_to_multiset_ensures;

    let mut rest = entries;
    let mut r: Vec<HistoryEntry> = Vec::new();
    while rest.len() > 0
        invariant
            sorted_desc(r@),
            r@.to_multiset().add(rest@.to_multiset()) == entries@.to_multiset(),
            r@.len() + rest@.len() == entries@.len(),
        decreases rest.len(),
    {
        let ghost old_r = r@;
        let ghost old_rest = rest@;
        let e = rest.remove(0);
        proof {
            assert(old_rest =~= seq![e] + rest@);
            crate::seqs::lemma_multiset_head(e, rest@);
        }
        let mut p: usize = r.len();
        while p > 0 && r[p - 1].timestamp < e.timestamp
            invariant
                p <= r@.len(),
                forall|k: int| p <= k < r@.len() ==> #[trigger] r@[k].timestamp < e.timestamp,
            decreases p,
        {
            p = p - 1;
        }
        proof {
            crate::seqs::lemma_multiset_insert(r@, p as int, e);
        }
        r.insert(p, e);
        proof {
            broadcast use vstd::multiset::group_multiset_axioms;

            assert(r@ =~= old_r.subrange(0, p as int) + seq![e] + old_r.subrange(
                p as int,
                old_r.len() as int,
            ));
            assert(forall|i: int| 0 <= i < p ==> r@[i] == old_r[i]);
            assert(r@[p as int] == e);
            assert(forall|i: int| p < i < r@.len() ==> r@[i] == old_r[i - 1]);
            assert forall|i: int, j: int| 0 <= i < j < r@.len() implies r@[i].timestamp
                >= r@[j].timestamp by {
                if i < p && j > p {
                    assert(old_r[j - 1].timestamp < e.timestamp);
                }
            }
            assert(r@.to_multiset() == old_r.to_multiset().insert(e));
            assert(r@.to_multiset().add(rest@.to_multiset()) =~= entries@.to_multiset());
        }
    }
    proof {
        assert(rest@ =~= Seq::<HistoryEntry>::empty());
        assert(r@.to_multiset() =~= entries@.to_multiset());
    }
    r
}

/// The proleptic-Gregorian civil date of a day count since the epoch.
pub open spec fn civil_spec(days: int) -> (int, int, int) {
    let z = days + 719468;
    let era = (if z >= 0 { z } else { z - 146096 }) / 146097;
    let doe = z - era * 146097;
    let yoe = (doe - doe / 1460 + doe / 36524 - doe / 146096) / 365;
    let y = yoe + era * 400;
    let doy = doe - (365 * yoe + yoe / 4 - yoe / 100);
    let mp = (5 * doy + 2) / 153;
    let d = doy - (153 * mp + 2) / 5 + 1;
    let m = mp + (if mp < 10 { 3 } else { -9 });
    ((if m <= 2 { y + 1 } else { y }), m, d)
}

/// Converts a day count since the epoch to year, month and day.
pub fn civil_from_days(days: i64) -> (r: (i64, i64, i64))
    requires
        0 <= days <= 200_000_000_000i64,
    ensures
        civil_spec(days as int) == (r.0 as int, r.1 as int, r.2 as int),
        0 <= r.0,
        1 <= r.1 <= 12,
        1 <= r.2 <= 31,
{
    broadcast use vstd::arithmetic::div_mod::lemma_mod_bound;

    let z: u64 = days as u64 + 719468;
    let era: u64 = z / 146097;
    proof {
        vstd::arithmetic::div_mod::lemma_fundamental_div_mod(z as int, 146097);
        vstd::arithmetic::div_mod::lemma_mod_bound(z as int, 146097);
    }
    let doe: u64 = z - era * 146097;
    proof {
        assert(doe <= 146096);
    }
    let q1: u64 = doe / 1460;
    let q2: u64 = doe / 36524;
    let q3: u64 = doe / 146096;
    proof {
        vstd::arithmetic::div_mod::lemma_fundamental_div_mod(doe as int, 1460);
        vstd::arithmetic::div_mod::lemma_mod_bound(doe as int, 1460);
        vstd::arithmetic::div_mod::lemma_fundamental_div_mod(doe as int, 36524);
        vstd::arithmetic::div_mod::lemma_mod_bound(doe as int, 36524);
        vstd::arithmetic::div_mod::lemma_fundamental_div_mod(doe as int, 146096);
        vstd::arithmetic::div_mod::lemma_mod_bound(doe as int, 146096);
        assert(q1 <= doe);
        assert(q2 <= q1);
        assert(q3 <= q2);
    }
    let a: u64 = doe - q1 + q2 - q3;
    let yoe: u64 = a / 365;
    proof {
        vstd::arithmetic::div_mod::lemma_fundamental_div_mod(a as int, 365);
        vstd::arithmetic::div_mod::lemma_mod_bound(a as int, 365);
        assert(a <= doe);
        assert(yoe <= 400);
        vstd::arithmetic::div_mod::lemma_fundamental_div_mod(yoe as int, 4);
        vstd::arithmetic::div_mod::lemma_mod_bound(yoe as int, 4);
        vstd::arithmetic::div_mod::lemma_fundamental_div_mod(yoe as int, 100);
        vstd::arithmetic::div_mod::lemma_mod_bound(yoe as int, 100);
        assert(365 * yoe + yoe / 4 >= yoe / 100);
        assert(365 * yoe + yoe / 4 - yoe / 100 <= doe);
    }
    let y: u64 = yoe + era * 400;
    let t1: u64 = 365 * yoe + yoe / 4 - yoe / 100;
    let doy: u64 = doe - t1;
    proof {
        assert(doy <= 365);
    }
    let mp: u64 = (5 * doy + 2) / 153;
    proof {
        vstd::arithmetic::div_mod::lemma_fundamental_div_mod(5 * doy as int + 2, 153);
        vstd::arithmetic::div_mod::lemma_mod_bound(5 * doy as int + 2, 153);
        assert(mp <= 11);
        vstd::arithmetic::div_mod::lemma_fundamental_div_mod(153 * mp as int + 2, 5);
        vstd::arithmetic::div_mod::lemma_mod_bound(153 * mp as int + 2, 5);
        assert((153 * mp + 2) / 5 <= doy);
        assert(doy - (153 * mp + 2) / 5 <= 30);
    }
    let t2: u64 = (153 * mp + 2) / 5;
    let d: u64 = doy - t2 + 1;
    let m: u64 = if mp < 10 {
        mp + 3
    } else {
        mp - 9
    };
    let year: u64 = if m <= 2 {
        y + 1
    } else {
        y
    };
    (year as i64, m as i64, d as i64)
}

/// The minute-resolution rendering of a time stamp: `YYYY-MM-DD HH:MM`,
/// negative stamps clamped to the epoch.
pub open spec fn format_timestamp_spec(ms: i64) -> Seq<char> {
    let clamped = if ms < 0 { 0 } else { ms as int };
    let seconds = clamped / 1000;
    let days = seconds / 86400;
    let sod = seconds % 86400;
    let hour = sod / 3600;
    let minute = (sod % 3600) / 60;
    let ymd = civil_spec(days);
    dec_padded(ymd.0 as nat, 4) + "-"@ + dec_padded(ymd.1 as nat, 2) + "-"@ + dec_padded(
        ymd.2 as nat,
        2,
    ) + " "@ + dec_padded(hour as nat, 2) + ":"@ + dec_padded(minute as nat, 2)
}

/// Renders a time stamp for the history table.
pub fn format_timestamp(timestamp_ms: i64) -> (r: String)
    ensures
        r@ == format_timestamp_spec(timestamp_ms),
{
    let ms: i64 = if timestamp_ms < 0 {
        0
    } else {
        timestamp_ms
    };
    let msu: u64 = ms as u64;
    let seconds: u64 = msu / 1000;
    let days: u64 = seconds / 86400;
    let sod: u64 = seconds % 86400;
    let hour: u64 = sod / 3600;
    let minute: u64 = (sod % 3600) / 60;
    let ymd = civil_from_days(days as i64);
    let mut out = u64_to_chars_padded(ymd.0 as u64, 4);
    let dash = str_to_chars("-");
    append_chars(&mut out, &dash);
    let mo = u64_to_chars_padded(ymd.1 as u64, 2);
    append_chars(&mut out, &mo);
    append_chars(&mut out, &dash);
    let da = u64_to_chars_padded(ymd.2 as u64, 2);
    append_chars(&mut out, &da);
    let space = str_to_chars(" ");
    append_chars(&mut out, &space);
    let ho = u64_to_chars_padded(hour, 2);
    append_chars(&mut out, &ho);
    let colon = str_to_chars(":");
    append_chars(&mut out, &colon);
    let mi = u64_to_chars_padded(minute, 2);
    append_chars(&mut out, &mi);
    chars_to_string(&out)
}

/// A slug never exceeds 64 characters, whatever the input.
pub proof fn lemma_slug_len(s: Seq<char>)
    ensures
        slug_spec(s).len() <= 64,
{
    reveal_strlit("run");
    assert("run"@.len() == 3);
}

} // verus!
