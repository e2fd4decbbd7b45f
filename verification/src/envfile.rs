//! Environment files: the line-oriented `KEY=VALUE` format, the masked
//! preview, the case-insensitive defaults map, the active-environment marker
//! and the sorted file listing.

use vstd::prelude::*;
use crate::text::{
    chars_to_string, contains_chars, contains_seq, eq_chars, lower_seq, starts_with,
    starts_with_spec, str_to_chars, subrange_chars, to_lower, trim, trim_spec,
};

verus! {

/// One selectable environment file.
#[derive(Debug)]
pub struct EnvFile {
    pub name: String,
}

impl Clone for EnvFile {
    fn clone(&self) -> (r: EnvFile)
        ensures
            r == *self,
    {
        EnvFile { name: self.name.clone() }
    }
}

/// The loaded environment configuration: where the files live, which one is
/// active, and the defaults it declares, keyed by lower-cased field name.
#[derive(Debug)]
pub struct EnvironmentConfig {
    pub envs_dir: String,
    pub active: Option<String>,
    pub defaults: Vec<(String, String)>,
}

/// The value stored for `key`, the last write winning.
pub open spec fn assoc_get(m: Seq<(Seq<char>, Seq<char>)>, key: Seq<char>) -> Option<Seq<char>>
    decreases m.len(),
{
    if m.len() == 0 {
        Option::None
    } else if m.last().0 == key {
        Option::Some(m.last().1)
    } else {
        assoc_get(m.drop_last(), key)
    }
}

/// Looks a key up in a defaults list, the last entry for the key winning.
pub fn lookup_default(defaults: &Vec<(String, String)>, key: &Vec<char>) -> (r: Option<String>)
    ensures
        match r {
            Option::Some(v) => assoc_get(defaults.deep_view(), key@) == Option::Some(v@),
            Option::None => assoc_get(defaults.deep_view(), key@) is None,
        },
{
    let ghost m = defaults.deep_view();
    proof {
        assert(m.subrange(0, m.len() as int) =~= m);
    }
    let mut i: usize = defaults.len();
    while i > 0
        invariant
            i <= defaults@.len(),
            m == defaults.deep_view(),
            m.len() == defaults@.len(),
            forall|j: int|
                0 <= j < defaults@.len() ==> #[trigger] m[j] == (defaults@[j].0@, defaults@[j].1@),
            assoc_get(m, key@) == assoc_get(m.subrange(0, i as int), key@),
        decreases i,
    {
        let k = str_to_chars(defaults[i - 1].0.as_str());
        proof {
            let pre = m.subrange(0, i as int);
            assert(pre.last() == m[i - 1]);
            assert(pre.drop_last() =~= m.subrange(0, i - 1));
        }
        if eq_chars(&k, key) {
            return Option::Some(defaults[i - 1].1.clone());
        }
        i = i - 1;
    }
    proof {
        assert(m.subrange(0, 0) =~= Seq::<(Seq<char>, Seq<char>)>::empty());
    }
    Option::None
}

/// The first index at which `c` occurs, or the length when it does not.
pub open spec fn first_index(s: Seq<char>, c: char) -> int
    decreases s.len(),
{
    if s.len() == 0 {
        0
    } else if s[0] == c {
        0
    } else {
        1 + first_index(s.drop_first(), c)
    }
}

proof fn lemma_first_index_at(s: Seq<char>, c: char, i: int)
    requires
        0 <= i <= s.len(),
        forall|j: int| 0 <= j < i ==> s[j] != c,
        i == s.len() || s[i] == c,
    ensures
        first_index(s, c) == i,
    decreases i,
{
    if s.len() == 0 {
    } else if i == 0 {
    } else {
        lemma_first_index_at(s.drop_first(), c, i - 1);
    }
}

fn find_first_char(v: &Vec<char>, c: char) -> (r: usize)
    ensures
        r == first_index(v@, c),
        r <= v@.len(),
        r < v@.len() ==> v@[r as int] == c,
{
    let mut i: usize = 0;
    while i < v.len()
        invariant
            i <= v@.len(),
            forall|j: int| 0 <= j < i ==> v@[j] != c,
        decreases v@.len() - i,
    {
        if v[i] == c {
            proof {
                lemma_first_index_at(v@, c, i as int);
            }
            return i;
        }
        i = i + 1;
    }
    proof {
        lemma_first_index_at(v@, c, v@.len() as int);
    }
    i
}

/// Surrounding quotes removed: the trimmed value loses one pair of matching
/// double or single quotes, when both ends carry them.
pub open spec fn strip_quotes_spec(v: Seq<char>) -> Seq<char> {
    let t = trim_spec(v);
    if t.len() >= 2 && ((t[0] == '"' && t.last() == '"') || (t[0] == '\'' && t.last() == '\'')) {
        t.subrange(1, t.len() - 1)
    } else {
        t
    }
}

/// Removes one pair of surrounding quotes from a trimmed value.
pub fn strip_quotes(value: &str) -> (r: String)
    ensures
        r@ == strip_quotes_spec(value@),
{
    let chars = str_to_chars(value);
    let t = trim(&chars);
    if t.len() >= 2 && ((t[0] == '"' && t[t.len() - 1] == '"') || (t[0] == '\'' && t[t.len() - 1]
        == '\'')) {
        let inner = subrange_chars(&t, 1, t.len() - 1);
        return chars_to_string(&inner);
    }
    chars_to_string(&t)
}

fn strip_quotes_chars(v: &Vec<char>) -> (r: Vec<char>)
    ensures
        r@ == strip_quotes_spec(v@),
{
    let t = trim(v);
    if t.len() >= 2 && ((t[0] == '"' && t[t.len() - 1] == '"') || (t[0] == '\'' && t[t.len() - 1]
        == '\'')) {
        return subrange_chars(&t, 1, t.len() - 1);
    }
    t
}

/// Whether a key looks like a credential, by the tokens its lower-cased form
/// contains.
pub open spec fn is_sensitive_spec(key: Seq<char>) -> bool {
    let l = lower_seq(key);
    contains_seq(l, "password"@) || contains_seq(l, "secret"@) || contains_seq(l, "token"@)
        || contains_seq(l, "key"@) || contains_seq(l, "api"@) || contains_seq(l, "private"@)
        || contains_seq(l, "cred"@)
}

/// Tests whether a key's value should be masked in previews.
pub fn is_sensitive_key(key: &str) -> (r: bool)
    ensures
        r == is_sensitive_spec(key@),
{
    let chars = str_to_chars(key);
    is_sensitive_chars(&chars)
}

fn is_sensitive_chars(key: &Vec<char>) -> (r: bool)
    ensures
        r == is_sensitive_spec(key@),
{
    let l = to_lower(key);
    contains_chars(&l, &str_to_chars("password")) || contains_chars(&l, &str_to_chars("secret"))
        || contains_chars(&l, &str_to_chars("token")) || contains_chars(&l, &str_to_chars("key"))
        || contains_chars(&l, &str_to_chars("api")) || contains_chars(&l, &str_to_chars("private"))
        || contains_chars(&l, &str_to_chars("cred"))
}

/// The key and raw value of one line, or `None` for blank and comment lines
/// and lines without a key.
pub open spec fn env_line_kv(line: Seq<char>) -> Option<(Seq<char>, Seq<char>)> {
    let t0 = trim_spec(line);
    if t0.len() == 0 || t0[0] == '#' || t0[0] == ';' {
        Option::None
    } else {
        let t = if starts_with_spec(t0, "export "@) {
            trim_spec(t0.subrange(7, t0.len() as int))
        } else {
            t0
        };
        let eq = first_index(t, '=');
        let key = trim_spec(t.subrange(0, eq));
        let raw = if eq < t.len() {
            trim_spec(t.subrange(eq + 1, t.len() as int))
        } else {
            Seq::empty()
        };
        if key.len() == 0 {
            Option::None
        } else {
            Option::Some((key, raw))
        }
    }
}

fn parse_env_line(line: &Vec<char>) -> (r: Option<(Vec<char>, Vec<char>)>)
    ensures
        match r {
            Option::Some(kv) => env_line_kv(line@) == Option::Some((kv.0@, kv.1@)),
            Option::None => env_line_kv(line@) is None,
        },
{
    let t0 = trim(line);
    if t0.len() == 0 || t0[0] == '#' || t0[0] == ';' {
        return Option::None;
    }
    let export_prefix = str_to_chars("export ");
    let t: Vec<char>;
    if starts_with(&t0, &export_prefix) {
        proof {
            reveal_strlit("export ");
        }
        let rest = subrange_chars(&t0, 7, t0.len());
        proof {
            assert(rest@ =~= trim_spec(line@).subrange(7, trim_spec(line@).len() as int));
        }
        t = trim(&rest);
    } else {
        t = t0;
    }
    let eq = find_first_char(&t, '=');
    let key_part = subrange_chars(&t, 0, eq);
    let key = trim(&key_part);
    let raw: Vec<char>;
    if eq < t.len() {
        let raw_part = subrange_chars(&t, eq + 1, t.len());
        raw = trim(&raw_part);
    } else {
        raw = Vec::new();
        proof {
            assert(raw@ =~= Seq::<char>::empty());
        }
    }
    if key.len() == 0 {
        return Option::None;
    }
    Option::Some((key, raw))
}

/// The preview value of one entry: quotes stripped, trimmed, and masked with
/// `***` when the key looks sensitive and the value is not empty.
pub open spec fn preview_value(key: Seq<char>, raw: Seq<char>) -> Seq<char> {
    let v = trim_spec(strip_quotes_spec(raw));
    if is_sensitive_spec(key) && v.len() > 0 {
        "***"@
    } else {
        v
    }
}

/// The preview entries of the lines from index `i` on.
pub open spec fn preview_scan(lines: Seq<Seq<char>>, i: int) -> Seq<(Seq<char>, Seq<char>)>
    decreases lines.len() - i,
{
    if i < 0 || i >= lines.len() {
        Seq::empty()
    } else {
        let rest = preview_scan(lines, i + 1);
        match env_line_kv(lines[i]) {
            Option::None => rest,
            Option::Some(kv) => seq![(kv.0, preview_value(kv.0, kv.1))] + rest,
        }
    }
}

/// What the preview of an environment file shows.
pub open spec fn preview_spec(contents: Seq<char>) -> Seq<(Seq<char>, Seq<char>)> {
    preview_scan(crate::text::split_lines_spec(contents), 0)
}

/// Parses an environment file into its preview entries, secrets masked.
pub fn parse_env_preview(contents: &str) -> (r: Vec<(String, String)>)
    ensures
        r.deep_view() == preview_spec(contents@),
{
    let chars = str_to_chars(contents);
    let lines = split_lines_vec(&chars);
    let ghost ls = crate::text::split_lines_spec(contents@);
    let mut out: Vec<(String, String)> = Vec::new();
    let mut i: usize = 0;
    proof {
        assert(out.deep_view() =~~= Seq::<(Seq<char>, Seq<char>)>::empty());
        assert(preview_spec(contents@) =~= out.deep_view() + preview_scan(ls, 0));
    }
    while i < lines.len()
        invariant
            i <= lines@.len(),
            ls == crate::text::split_lines_spec(contents@),
            lines.deep_view() == ls,
            lines@.len() == ls.len(),
            forall|j: int| 0 <= j < lines@.len() ==> ls[j] == lines@[j]@,
            preview_spec(contents@) == out.deep_view() + preview_scan(ls, i as int),
        decreases lines@.len() - i,
    {
        let line = &lines[i];
        match parse_env_line(line) {
            Option::Some(kv) => {
                let value = preview_value_exec(&kv.0, &kv.1);
                let ghost old_deep = out.deep_view();
                let key_s = chars_to_string(&kv.0);
                out.push((key_s, value));
                proof {
                    assert(out.deep_view() =~~= old_deep.push(
                        (kv.0@, preview_value(kv.0@, kv.1@)),
                    ));
                    assert(old_deep.push((kv.0@, preview_value(kv.0@, kv.1@))) + preview_scan(
                        ls,
                        i + 1,
                    ) =~= old_deep + (seq![(kv.0@, preview_value(kv.0@, kv.1@))] + preview_scan(
                        ls,
                        i + 1,
                    )));
                }
            },
            Option::None => {},
        }
        i = i + 1;
    }
    proof {
        assert(out.deep_view() + Seq::<(Seq<char>, Seq<char>)>::empty() =~= out.deep_view());
    }
    out
}

fn preview_value_exec(key: &Vec<char>, raw: &Vec<char>) -> (r: String)
    ensures
        r@ == preview_value(key@, raw@),
{
    let stripped = strip_quotes_chars(raw);
    let v = trim(&stripped);
    if is_sensitive_chars(key) && v.len() > 0 {
        return chars_to_string(&str_to_chars("***"));
    }
    chars_to_string(&v)
}

fn split_lines_vec(chars: &Vec<char>) -> (r: Vec<Vec<char>>)
    ensures
        r.deep_view() == crate::text::split_lines_spec(chars@),
{
    crate::text::split_lines(chars)
}

/// The defaults declared by the lines from index `i` on: lower-cased keys,
/// quotes stripped, empty values skipped.
pub open spec fn defaults_scan(lines: Seq<Seq<char>>, i: int) -> Seq<(Seq<char>, Seq<char>)>
    decreases lines.len() - i,
{
    if i < 0 || i >= lines.len() {
        Seq::empty()
    } else {
        let rest = defaults_scan(lines, i + 1);
        match env_line_kv(lines[i]) {
            Option::None => rest,
            Option::Some(kv) => {
                let v = trim_spec(strip_quotes_spec(kv.1));
                if v.len() == 0 {
                    rest
                } else {
                    seq![(lower_seq(kv.0), v)] + rest
                }
            },
        }
    }
}

/// The defaults map of an environment file, in declaration order; a later
/// entry for the same key wins on lookup.
pub open spec fn defaults_spec(contents: Seq<char>) -> Seq<(Seq<char>, Seq<char>)> {
    defaults_scan(crate::text::split_lines_spec(contents), 0)
}

/// Parses an environment file into field defaults, keyed by lower-cased name.
pub fn parse_env_defaults(contents: &str) -> (r: Vec<(String, String)>)
    ensures
        r.deep_view() == defaults_spec(contents@),
{
    let chars = str_to_chars(contents);
    let lines = split_lines_vec(&chars);
    let ghost ls = crate::text::split_lines_spec(contents@);
    let mut out: Vec<(String, String)> = Vec::new();
    let mut i: usize = 0;
    proof {
        assert(out.deep_view() =~~= Seq::<(Seq<char>, Seq<char>)>::empty());
        assert(defaults_spec(contents@) =~= out.deep_view() + defaults_scan(ls, 0));
    }
    while i < lines.len()
        invariant
            i <= lines@.len(),
            ls == crate::text::split_lines_spec(contents@),
            lines.deep_view() == ls,
            lines@.len() == ls.len(),
            forall|j: int| 0 <= j < lines@.len() ==> ls[j] == lines@[j]@,
            defaults_spec(contents@) == out.deep_view() + defaults_scan(ls, i as int),
        decreases lines@.len() - i,
    {
        let line = &lines[i];
        match parse_env_line(line) {
            Option::Some(kv) => {
                let stripped = strip_quotes_chars(&kv.1);
                let v = trim(&stripped);
                if v.len() > 0 {
                    let ghost old_deep = out.deep_view();
                    let key_low = to_lower(&kv.0);
                    let key_s = chars_to_string(&key_low);
                    let val_s = chars_to_string(&v);
                    out.push((key_s, val_s));
                    proof {
                        assert(out.deep_view() =~~= old_deep.push(
                            (lower_seq(kv.0@), trim_spec(strip_quotes_spec(kv.1@))),
                        ));
                        assert(old_deep.push(
                            (lower_seq(kv.0@), trim_spec(strip_quotes_spec(kv.1@))),
                        ) + defaults_scan(ls, i + 1) =~= old_deep + (seq![
                            (lower_seq(kv.0@), trim_spec(strip_quotes_spec(kv.1@))),
                        ] + defaults_scan(ls, i + 1)));
                    }
                }
            },
            Option::None => {},
        }
        i = i + 1;
    }
    proof {
        assert(out.deep_view() + Seq::<(Seq<char>, Seq<char>)>::empty() =~= out.deep_view());
    }
    out
}

/// The active-environment name: the first line that is neither blank nor a
/// comment, trimmed.
pub open spec fn active_scan(lines: Seq<Seq<char>>, i: int) -> Option<Seq<char>>
    decreases lines.len() - i,
{
    if i < 0 || i >= lines.len() {
        Option::None
    } else {
        let t = trim_spec(lines[i]);
        if t.len() == 0 || t[0] == '#' || t[0] == ';' {
            active_scan(lines, i + 1)
        } else {
            Option::Some(t)
        }
    }
}

pub open spec fn active_name_spec(contents: Seq<char>) -> Option<Seq<char>> {
    active_scan(crate::text::split_lines_spec(contents), 0)
}

/// Reads the active environment's name out of the marker file's text.
pub fn parse_active_name(contents: &str) -> (r: Option<String>)
    ensures
        match r {
            Option::Some(name) => active_name_spec(contents@) == Option::Some(name@),
            Option::None => active_name_spec(contents@) is None,
        },
{
    let chars = str_to_chars(contents);
    let lines = split_lines_vec(&chars);
    let ghost ls = crate::text::split_lines_spec(contents@);
    let mut i: usize = 0;
    while i < lines.len()
        invariant
            i <= lines@.len(),
            ls == crate::text::split_lines_spec(contents@),
            lines.deep_view() == ls,
            lines@.len() == ls.len(),
            forall|j: int| 0 <= j < lines@.len() ==> ls[j] == lines@[j]@,
            active_name_spec(contents@) == active_scan(ls, i as int),
        decreases lines@.len() - i,
    {
        let t = trim(&lines[i]);
        if t.len() > 0 && t[0] != '#' && t[0] != ';' {
            return Option::Some(chars_to_string(&t));
        }
        i = i + 1;
    }
    Option::None
}

/// `a` stands at or before `b` in character order.
pub open spec fn lex_leq(a: Seq<char>, b: Seq<char>) -> bool
    decreases a.len(),
{
    if a.len() == 0 {
        true
    } else if b.len() == 0 {
        false
    } else if a[0] != b[0] {
        a[0] < b[0]
    } else {
        lex_leq(a.drop_first(), b.drop_first())
    }
}

proof fn lemma_lex_total(a: Seq<char>, b: Seq<char>)
    ensures
        lex_leq(a, b) || lex_leq(b, a),
    decreases a.len(),
{
    if a.len() > 0 && b.len() > 0 && a[0] == b[0] {
        lemma_lex_total(a.drop_first(), b.drop_first());
    }
}

proof fn lemma_lex_trans(a: Seq<char>, b: Seq<char>, c: Seq<char>)
    requires
        lex_leq(a, b),
        lex_leq(b, c),
    ensures
        lex_leq(a, c),
    decreases a.len(),
{
    if a.len() > 0 && b.len() > 0 && c.len() > 0 && a[0] == b[0] && b[0] == c[0] {
        lemma_lex_trans(a.drop_first(), b.drop_first(), c.drop_first());
    }
}

fn lex_leq_exec(a: &Vec<char>, b: &Vec<char>) -> (r: bool)
    ensures
        r == lex_leq(a@, b@),
{
    proof {
        assert(a@.subrange(0, a@.len() as int) =~= a@);
        assert(b@.subrange(0, b@.len() as int) =~= b@);
    }
    let mut i: usize = 0;
    while i < a.len() && i < b.len()
        invariant
            i <= a@.len(),
            i <= b@.len(),
            forall|j: int| 0 <= j < i ==> a@[j] == b@[j],
            lex_leq(a@, b@) == lex_leq(
                a@.subrange(i as int, a@.len() as int),
                b@.subrange(i as int, b@.len() as int),
            ),
        decreases a@.len() - i,
    {
        let ghost ra = a@.subrange(i as int, a@.len() as int);
        let ghost rb = b@.subrange(i as int, b@.len() as int);
        proof {
            assert(ra[0] == a@[i as int]);
            assert(rb[0] == b@[i as int]);
            assert(ra.drop_first() =~= a@.subrange(i + 1, a@.len() as int));
            assert(rb.drop_first() =~= b@.subrange(i + 1, b@.len() as int));
        }
        if a[i] < b[i] {
            return true;
        }
        if a[i] > b[i] {
            return false;
        }
        i = i + 1;
    }
    proof {
        let ra = a@.subrange(i as int, a@.len() as int);
        let rb = b@.subrange(i as int, b@.len() as int);
        assert(ra.len() == 0 || rb.len() == 0);
    }
    a.len() <= b.len()
}

/// Environment files stand in name order.
pub open spec fn sorted_env_files(files: Seq<EnvFile>) -> bool {
    forall|i: int, j: int|
        0 <= i < j < files.len() ==> lex_leq(#[trigger] files[i].name@, #[trigger] files[j].name@)
}

/// Builds the environment list from a directory's file names: the active
/// marker dropped, the rest sorted by name.
pub fn env_files_from_names(names: Vec<String>) -> (r: Vec<EnvFile>)
    ensures
        sorted_env_files(r@),
        r@.map_values(|f: EnvFile| f.name@).to_multiset() == names.deep_view().filter(
            |n: Seq<char>| n != "active"@,
        ).to_multiset(),
{
    broadcast use vstd::seq_lib::group_to_multiset_ensures;

    let ghost pred = |n: Seq<char>| n != "active"@;
    let mut kept: Vec<String> = Vec::new();
    let mut i: usize = 0;
    proof {
        assert(names.deep_view().subrange(0, 0) =~= Seq::<Seq<char>>::empty());
        reveal_with_fuel(Seq::filter, 1);
        assert(kept.deep_view() =~~= names.deep_view().subrange(0, 0).filter(pred));
    }
    while i < names.len()
        invariant
            i <= names@.len(),
            names.deep_view().len() == names@.len(),
            forall|j: int| 0 <= j < names@.len() ==> names.deep_view()[j] == names@[j]@,
            kept.deep_view() == names.deep_view().subrange(0, i as int).filter(
                |n: Seq<char>| n != "active"@,
            ),
        decreases names@.len() - i,
    {
        let ghost pre = names.deep_view().subrange(0, i as int);
        let ghost cur = names.deep_view().subrange(0, i + 1);
        proof {
            reveal_with_fuel(Seq::filter, 1);
            assert(cur.drop_last() =~= pre);
            assert(cur.last() == names@[i as int]@);
        }
        let name_chars = str_to_chars(names[i].as_str());
        if !crate::text::eq_str(&name_chars, "active") {
            let ghost old_deep = kept.deep_view();
            kept.push(names[i].clone());
            proof {
                assert(kept.deep_view() =~~= old_deep.push(names@[i as int]@));
                assert(kept.deep_view() =~~= cur.filter(|n: Seq<char>| n != "active"@));
            }
        } else {
            proof {
                assert(kept.deep_view() =~~= cur.filter(|n: Seq<char>| n != "active"@));
            }
        }
        i = i + 1;
    }
    proof {
        assert(names.deep_view().subrange(0, names.deep_view().len() as int) =~= names.deep_view());
    }
    // insertion sort on the kept names
    let ghost kept_deep = kept.deep_view();
    let mut rest = kept;
    let mut sorted: Vec<String> = Vec::new();
    while rest.len() > 0
        invariant
            forall|x: int, y: int|
                0 <= x < y < sorted@.len() ==> lex_leq(
                    #[trigger] sorted.deep_view()[x],
                    #[trigger] sorted.deep_view()[y],
                ),
            sorted.deep_view().len() == sorted@.len(),
            rest.deep_view().len() == rest@.len(),
            forall|j: int| 0 <= j < sorted@.len() ==> sorted.deep_view()[j] == sorted@[j]@,
            forall|j: int| 0 <= j < rest@.len() ==> rest.deep_view()[j] == rest@[j]@,
            sorted.deep_view().to_multiset().add(rest.deep_view().to_multiset())
                == kept_deep.to_multiset(),
        decreases rest.len(),
    {
        let ghost old_sorted = sorted.deep_view();
        let ghost old_rest = rest.deep_view();
        let e = rest.remove(0);
        proof {
            assert(rest.deep_view() =~~= old_rest.drop_first());
            assert(old_rest =~= seq![e@] + rest.deep_view());
            crate::seqs::lemma_multiset_head(e@, rest.deep_view());
        }
        let e_chars = str_to_chars(e.as_str());
        let mut p: usize = sorted.len();
        loop
            invariant
                p <= sorted@.len(),
                sorted.deep_view().len() == sorted@.len(),
                forall|j: int| 0 <= j < sorted@.len() ==> sorted.deep_view()[j] == sorted@[j]@,
                e_chars@ == e@,
                forall|k: int|
                    p <= k < sorted@.len() ==> !lex_leq(#[trigger] sorted.deep_view()[k], e@),
            ensures
                p <= sorted@.len(),
                forall|k: int|
                    p <= k < sorted@.len() ==> !lex_leq(#[trigger] sorted.deep_view()[k], e@),
                p > 0 ==> lex_leq(sorted.deep_view()[p - 1], e@),
            decreases p,
        {
            if p == 0 {
                break;
            }
            let prev = str_to_chars(sorted[p - 1].as_str());
            if lex_leq_exec(&prev, &e_chars) {
                break;
            }
            p = p - 1;
        }
        proof {
            crate::seqs::lemma_multiset_insert(sorted.deep_view(), p as int, e@);
        }
        sorted.insert(p, e);
        proof {
            broadcast use vstd::multiset::group_multiset_axioms;

            assert(sorted.deep_view() =~~= old_sorted.subrange(0, p as int) + seq![e_chars@]
                + old_sorted.subrange(p as int, old_sorted.len() as int));
            assert(forall|x: int| 0 <= x < p ==> sorted.deep_view()[x] == old_sorted[x]);
            assert(sorted.deep_view()[p as int] == e_chars@);
            assert(forall|x: int|
                p < x < sorted.deep_view().len() ==> sorted.deep_view()[x] == old_sorted[x - 1]);
            assert forall|x: int, y: int|
                0 <= x < y < sorted@.len() implies lex_leq(
                sorted.deep_view()[x],
                sorted.deep_view()[y],
            ) by {
                if y == p {
                    if x < p {
                        lemma_lex_total(old_sorted[p as int - 1], e_chars@);
                        if x < p - 1 {
                            lemma_lex_trans(old_sorted[x], old_sorted[p as int - 1], e_chars@);
                        }
                    }
                } else if x == p {
                    lemma_lex_total(old_sorted[y - 1], e_chars@);
                } else if x < p && y > p {
                    lemma_lex_total(old_sorted[y - 1], e_chars@);
                    if p > 0 {
                        lemma_lex_total(old_sorted[p as int - 1], e_chars@);
                    }
                }
            }
            assert(sorted.deep_view().to_multiset() == old_sorted.to_multiset().insert(e@));
            assert(sorted.deep_view().to_multiset().add(rest.deep_view().to_multiset())
                =~= kept_deep.to_multiset());
        }
    }
    proof {
        assert(rest.deep_view() =~~= Seq::<Seq<char>>::empty());
        assert(sorted.deep_view().to_multiset() =~= kept_deep.to_multiset());
    }
    // wrap the sorted names
    let mut r: Vec<EnvFile> = Vec::new();
    let mut k: usize = 0;
    while k < sorted.len()
        invariant
            k <= sorted@.len(),
            r@.len() == k,
            sorted.deep_view().len() == sorted@.len(),
            forall|j: int| 0 <= j < sorted@.len() ==> sorted.deep_view()[j] == sorted@[j]@,
            forall|j: int| 0 <= j < k ==> #[trigger] r@[j].name@ == sorted.deep_view()[j],
            forall|x: int, y: int|
                0 <= x < y < sorted@.len() ==> lex_leq(
                    #[trigger] sorted.deep_view()[x],
                    #[trigger] sorted.deep_view()[y],
                ),
        decreases sorted@.len() - k,
    {
        r.push(EnvFile { name: sorted[k].clone() });
        k = k + 1;
    }
    proof {
        assert(r@.map_values(|f: EnvFile| f.name@) =~= sorted.deep_view());
        assert(kept_deep == names.deep_view().filter(|n: Seq<char>| n != "active"@));
    }
    r
}

} // verus!
