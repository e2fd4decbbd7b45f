//! Script-kind detection and the interpreter names and quoting rules used to
//! launch a script.

use vstd::prelude::*;
use crate::text::{chars_to_string, eq_str, lower_seq, str_to_chars, subrange_chars, to_lower};

verus! {

/// The interpreters the runner knows how to launch.
#[derive(Debug, Clone, Copy, PartialEq, Eq, Structural)]
pub enum ScriptKind {
    Bash,
    PowerShell,
    Python,
}

/// The extension of a path: what follows the last `.` of the part after the
/// last `/`, provided the dot is not the name's first character.
pub open spec fn extension_spec(path: Seq<char>) -> Option<Seq<char>> {
    let name_start = last_index_after(path, '/') + 1;
    let name = path.subrange(name_start, path.len() as int);
    let dot = last_index_after(name, '.');
    if dot <= 0 {
        Option::None
    } else {
        Option::Some(name.subrange(dot + 1, name.len() as int))
    }
}

/// The last index at which `c` occurs, or `-1` when it does not.
pub open spec fn last_index_after(s: Seq<char>, c: char) -> int
    decreases s.len(),
{
    if s.len() == 0 {
        -1
    } else if s.last() == c {
        s.len() - 1
    } else {
        last_index_after(s.drop_last(), c)
    }
}

pub proof fn lemma_last_index_at(s: Seq<char>, c: char, i: int)
    requires
        -1 <= i < s.len(),
        i >= 0 ==> s[i] == c,
        forall|j: int| i < j < s.len() ==> s[j] != c,
    ensures
        last_index_after(s, c) == i,
    decreases s.len(),
{
    if s.len() == 0 {
    } else if s.last() == c {
        assert(i == s.len() - 1);
    } else {
        lemma_last_index_at(s.drop_last(), c, i);
    }
}

fn find_last(v: &Vec<char>, from: usize, c: char) -> (r: Option<usize>)
    requires
        from <= v@.len(),
    ensures
        ({
            let s = v@.subrange(from as int, v@.len() as int);
            match r {
                Option::Some(i) => from <= i < v@.len() && last_index_after(s, c) == i - from,
                Option::None => last_index_after(s, c) == -1,
            }
        }),
{
    let ghost s = v@.subrange(from as int, v@.len() as int);
    let mut i: usize = v.len();
    while i > from
        invariant
            from <= i <= v@.len(),
            s == v@.subrange(from as int, v@.len() as int),
            forall|j: int| i <= j < v@.len() ==> v@[j] != c,
        decreases i,
    {
        if v[i - 1] == c {
            proof {
                assert(s[i - 1 - from] == v@[i - 1]);
                assert forall|j: int| i - 1 - from < j < s.len() implies s[j] != c by {
                    assert(s[j] == v@[from + j]);
                }
                lemma_last_index_at(s, c, i - 1 - from);
            }
            return Option::Some(i - 1);
        }
        i = i - 1;
    }
    proof {
        assert forall|j: int| 0 <= j < s.len() implies s[j] != c by {
            assert(s[j] == v@[from + j]);
        }
        lemma_last_index_at(s, c, -1);
    }
    Option::None
}

/// Which script kind an extension selects.
pub open spec fn kind_of_extension(ext: Seq<char>) -> Option<ScriptKind> {
    let low = lower_seq(ext);
    if low == "bash"@ || low == "sh"@ {
        Option::Some(ScriptKind::Bash)
    } else if low == "ps1"@ {
        Option::Some(ScriptKind::PowerShell)
    } else if low == "py"@ {
        Option::Some(ScriptKind::Python)
    } else {
        Option::None
    }
}

pub open spec fn script_kind_spec(path: Seq<char>) -> Option<ScriptKind> {
    match extension_spec(path) {
        Option::None => Option::None,
        Option::Some(ext) => kind_of_extension(ext),
    }
}

/// Which interpreter a script path calls for, by its extension.
pub fn script_kind(path: &str) -> (r: Option<ScriptKind>)
    ensures
        r == script_kind_spec(path@),
{
    let chars = str_to_chars(path);
    let total = chars.len();
    proof {
        assert(chars@.len() <= usize::MAX);
    }
    let name_start: usize = match find_last(&chars, 0, '/') {
        Option::Some(i) => i + 1,
        Option::None => 0,
    };
    proof {
        assert(chars@.subrange(0, chars@.len() as int) =~= chars@);
    }
    let ghost name = path@.subrange(last_index_after(path@, '/') + 1, path@.len() as int);
    let dot = find_last(&chars, name_start, '.');
    proof {
        assert(name =~= chars@.subrange(name_start as int, chars@.len() as int));
    }
    match dot {
        Option::None => Option::None,
        Option::Some(d) => {
            if d == name_start {
                return Option::None;
            }
            let ext = subrange_chars(&chars, d + 1, total);
            proof {
                assert(ext@ =~= name.subrange(
                    d + 1 - name_start,
                    name.len() as int,
                ));
            }
            let low = to_lower(&ext);
            if eq_str(&low, "bash") || eq_str(&low, "sh") {
                Option::Some(ScriptKind::Bash)
            } else if eq_str(&low, "ps1") {
                Option::Some(ScriptKind::PowerShell)
            } else if eq_str(&low, "py") {
                Option::Some(ScriptKind::Python)
            } else {
                Option::None
            }
        },
    }
}

/// The extensions recognized as runnable scripts.
pub fn script_extensions() -> (r: Vec<String>)
    ensures
        r.deep_view() =~= seq!["bash"@, "sh"@, "ps1"@, "py"@],
{
    let mut v: Vec<String> = Vec::new();
    v.push(chars_to_string(&str_to_chars("bash")));
    v.push(chars_to_string(&str_to_chars("sh")));
    v.push(chars_to_string(&str_to_chars("ps1")));
    v.push(chars_to_string(&str_to_chars("py")));
    proof {
        assert(v.deep_view() =~= seq!["bash"@, "sh"@, "ps1"@, "py"@]);
    }
    v
}

/// The PowerShell interpreter launched on this platform.
pub fn powershell_program() -> (r: &'static str)
    ensures
        r@ == "pwsh"@,
{
    "pwsh"
}

/// The Python interpreter launched on this platform.
pub fn python_program() -> (r: &'static str)
    ensures
        r@ == "python3"@,
{
    "python3"
}

/// A string quoted for PowerShell: wrapped in single quotes, with every
/// single quote doubled.
pub open spec fn ps_quote_spec(s: Seq<char>) -> Seq<char> {
    seq!['\''] + double_quotes(s) + seq!['\'']
}

pub open spec fn double_quotes(s: Seq<char>) -> Seq<char>
    decreases s.len(),
{
    if s.len() == 0 {
        Seq::empty()
    } else if s[0] == '\'' {
        seq!['\'', '\''] + double_quotes(s.drop_first())
    } else {
        seq![s[0]] + double_quotes(s.drop_first())
    }
}

/// Quotes a string for use in PowerShell commands.
pub fn ps_quote(input: &str) -> (r: String)
    ensures
        r@ == ps_quote_spec(input@),
{
    let chars = str_to_chars(input);
    let mut mid: Vec<char> = Vec::new();
    let mut i: usize = 0;
    proof {
        assert(chars@.subrange(0, chars@.len() as int) =~= chars@);
        assert(mid@ + double_quotes(chars@) =~= double_quotes(chars@));
    }
    while i < chars.len()
        invariant
            i <= chars@.len(),
            chars@ == input@,
            double_quotes(input@) == mid@ + double_quotes(
                input@.subrange(i as int, input@.len() as int),
            ),
        decreases chars@.len() - i,
    {
        let ghost rest = input@.subrange(i as int, input@.len() as int);
        proof {
            assert(rest[0] == input@[i as int]);
            assert(rest.drop_first() =~= input@.subrange(i + 1, input@.len() as int));
        }
        let c = chars[i];
        if c == '\'' {
            let ghost old_mid = mid@;
            mid.push('\'');
            mid.push('\'');
            proof {
                assert(mid@ + double_quotes(rest.drop_first()) =~= old_mid + (seq!['\'', '\'']
                    + double_quotes(rest.drop_first())));
            }
        } else {
            let ghost old_mid = mid@;
            mid.push(c);
            proof {
                assert(mid@ + double_quotes(rest.drop_first()) =~= old_mid + (seq![rest[0]]
                    + double_quotes(rest.drop_first())));
            }
        }
        i = i + 1;
    }
    proof {
        assert(input@.subrange(input@.len() as int, input@.len() as int) =~= Seq::<char>::empty());
        assert(mid@ + Seq::<char>::empty() =~= mid@);
    }
    let mut out: Vec<char> = Vec::new();
    out.push('\'');
    crate::text::append_chars(&mut out, &mid);
    out.push('\'');
    proof {
        assert(out@ =~= ps_quote_spec(input@));
    }
    chars_to_string(&out)
}

/// The interpreter a script kind launches on this platform.
pub open spec fn program_of(k: ScriptKind) -> Seq<char> {
    match k {
        ScriptKind::Bash => "bash"@,
        ScriptKind::PowerShell => "pwsh"@,
        ScriptKind::Python => "python3"@,
    }
}

/// The full argument list handed to the interpreter: the script path alone,
/// or PowerShell's profile-free file invocation.
pub open spec fn argv_of(k: ScriptKind, script: Seq<char>) -> Seq<Seq<char>> {
    match k {
        ScriptKind::Bash => seq![script],
        ScriptKind::Python => seq![script],
        ScriptKind::PowerShell => seq!["-NoProfile"@, "-File"@, script],
    }
}

/// The command line that launches a script: the interpreter its extension
/// selects and the arguments that interpreter takes, or the unsupported-type
/// error when no interpreter claims the extension.
pub fn command_for_script(script: &str) -> (r: Result<
    (String, Vec<String>),
    crate::errors::ScriptError,
>)
    ensures
        match script_kind_spec(script@) {
            Option::None => r matches Err(e) && e is UnsupportedType,
            Option::Some(k) => r matches Ok(c) && c.0@ == program_of(k) && c.1.deep_view()
                == argv_of(k, script@),
        },
{
    let kind = match script_kind(script) {
        Option::Some(k) => k,
        Option::None => {
            return Err(crate::errors::ScriptError::UnsupportedType);
        },
    };
    let script_s = chars_to_string(&str_to_chars(script));
    match kind {
        ScriptKind::Bash => {
            let program = chars_to_string(&str_to_chars("bash"));
            let mut argv: Vec<String> = Vec::new();
            argv.push(script_s);
            proof {
                assert(argv.deep_view() =~~= argv_of(ScriptKind::Bash, script@));
            }
            Ok((program, argv))
        },
        ScriptKind::Python => {
            let program = chars_to_string(&str_to_chars("python3"));
            let mut argv: Vec<String> = Vec::new();
            argv.push(script_s);
            proof {
                assert(argv.deep_view() =~~= argv_of(ScriptKind::Python, script@));
            }
            Ok((program, argv))
        },
        ScriptKind::PowerShell => {
            let program = chars_to_string(&str_to_chars("pwsh"));
            let mut argv: Vec<String> = Vec::new();
            argv.push(chars_to_string(&str_to_chars("-NoProfile")));
            argv.push(chars_to_string(&str_to_chars("-File")));
            argv.push(script_s);
            proof {
                assert(argv.deep_view() =~~= argv_of(ScriptKind::PowerShell, script@));
            }
            Ok((program, argv))
        },
    }
}

} // verus!
