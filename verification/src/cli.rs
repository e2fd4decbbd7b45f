//! Command-line option handling for the non-interactive commands.

pub mod config;
pub mod doctor;
pub mod list;

use vstd::prelude::*;
use crate::text::{chars_to_string, eq_str, str_to_chars, subrange_chars};

verus! {

/// A help flag stands among the arguments.
pub open spec fn wants_help_spec(args: Seq<Seq<char>>) -> bool {
    exists|i: int| 0 <= i < args.len() && (#[trigger] args[i] == "-h"@ || args[i] == "--help"@)
}

/// Checks whether a help flag is present.
pub fn wants_help(args: &Vec<String>) -> (r: bool)
    ensures
        r == wants_help_spec(args.deep_view()),
{
    let ghost deep = args.deep_view();
    proof {
        assert(deep.len() == args@.len());
        assert forall|j: int| 0 <= j < args@.len() implies #[trigger] deep[j] == args@[j]@ by {
            assert(deep[j] == args@[j].deep_view());
        }
    }
    let mut i: usize = 0;
    while i < args.len()
        invariant
            i <= args@.len(),
            deep == args.deep_view(),
            deep.len() == args@.len(),
            forall|j: int| 0 <= j < args@.len() ==> #[trigger] deep[j] == args@[j]@,
            forall|j: int| 0 <= j < i ==> !(#[trigger] deep[j] == "-h"@ || deep[j] == "--help"@),
        decreases args@.len() - i,
    {
        let a = str_to_chars(args[i].as_str());
        if eq_str(&a, "-h") || eq_str(&a, "--help") {
            proof {
                assert(deep[i as int] == "-h"@ || deep[i as int] == "--help"@);
            }
            return true;
        }
        i = i + 1;
    }
    false
}

/// The trailing occurrences of `suffix` removed, as the installer trims
/// `.git` endings.
pub open spec fn strip_suffix_rec(s: Seq<char>, suffix: Seq<char>) -> Seq<char>
    decreases s.len(),
{
    if suffix.len() > 0 && s.len() >= suffix.len() && s.subrange(
        s.len() - suffix.len(),
        s.len() as int,
    ) == suffix {
        strip_suffix_rec(s.subrange(0, s.len() - suffix.len()), suffix)
    } else {
        s
    }
}

/// The trailing occurrences of `c` removed.
pub open spec fn strip_char_end_rec(s: Seq<char>, c: char) -> Seq<char>
    decreases s.len(),
{
    if s.len() > 0 && s.last() == c {
        strip_char_end_rec(s.drop_last(), c)
    } else {
        s
    }
}

/// The folder name a repository URL suggests: trailing slashes dropped, the
/// last path segment taken, trailing `.git` endings trimmed.
pub open spec fn infer_name_spec(url: Seq<char>) -> Seq<char> {
    let t = strip_char_end_rec(url, '/');
    let seg = t.subrange(crate::runtime::last_index_after(t, '/') + 1, t.len() as int);
    strip_suffix_rec(seg, ".git"@)
}

/// Infers an install folder name from a repository URL.
pub fn infer_name_from_url(url: &str) -> (r: String)
    ensures
        r@ == infer_name_spec(url@),
{
    let chars = str_to_chars(url);
    // drop trailing slashes
    let mut end: usize = chars.len();
    proof {
        assert(chars@.subrange(0, chars@.len() as int) =~= chars@);
    }
    while end > 0 && chars[end - 1] == '/'
        invariant
            end <= chars@.len(),
            strip_char_end_rec(chars@, '/') == strip_char_end_rec(
                chars@.subrange(0, end as int),
                '/',
            ),
        decreases end,
    {
        proof {
            assert(chars@.subrange(0, end as int).last() == chars@[end - 1]);
            assert(chars@.subrange(0, end as int).drop_last() =~= chars@.subrange(0, end - 1));
        }
        end = end - 1;
    }
    let t = subrange_chars(&chars, 0, end);
    proof {
        assert(chars@.subrange(0, chars@.len() as int) =~= chars@);
        if end > 0 {
            assert(chars@.subrange(0, end as int).last() == chars@[end - 1]);
        }
        assert(strip_char_end_rec(chars@.subrange(0, end as int), '/') == chars@.subrange(
            0,
            end as int,
        ));
        assert(t@ == strip_char_end_rec(chars@, '/'));
    }
    // take the last segment
    let seg_start: usize = match find_last_slash(&t) {
        Option::Some(i) => i + 1,
        Option::None => 0,
    };
    let mut seg = subrange_chars(&t, seg_start, t.len());
    proof {
        assert(seg@ =~= t@.subrange(crate::runtime::last_index_after(t@, '/') + 1, t@.len() as int));
    }
    // trim `.git` endings
    let ghost seg0 = seg@;
    loop
        invariant
            strip_suffix_rec(seg0, ".git"@) == strip_suffix_rec(seg@, ".git"@),
        ensures
            strip_suffix_rec(seg0, ".git"@) == seg@,
        decreases seg@.len(),
    {
        proof {
            reveal_strlit(".git");
        }
        let n = seg.len();
        if n >= 4 {
            let tail = subrange_chars(&seg, n - 4, n);
            if eq_str(&tail, ".git") {
                proof {
                    assert(seg@.subrange(seg@.len() - 4, seg@.len() as int) == ".git"@);
                }
                seg = subrange_chars(&seg, 0, n - 4);
                continue;
            }
            proof {
                assert(seg@.subrange(seg@.len() - 4, seg@.len() as int) != ".git"@);
                assert(strip_suffix_rec(seg@, ".git"@) == seg@);
            }
            break;
        }
        proof {
            assert(".git"@.len() == 4);
            assert(strip_suffix_rec(seg@, ".git"@) == seg@);
        }
        break;
    }
    chars_to_string(&seg)
}

fn find_last_slash(v: &Vec<char>) -> (r: Option<usize>)
    ensures
        match r {
            Option::Some(i) => i < v@.len() && crate::runtime::last_index_after(v@, '/') == i,
            Option::None => crate::runtime::last_index_after(v@, '/') == -1,
        },
{
    let mut i: usize = v.len();
    while i > 0
        invariant
            i <= v@.len(),
            forall|j: int| i <= j < v@.len() ==> v@[j] != '/',
        decreases i,
    {
        if v[i - 1] == '/' {
            proof {
                crate::runtime::lemma_last_index_at(v@, '/', i - 1);
            }
            return Option::Some(i - 1);
        }
        i = i - 1;
    }
    proof {
        crate::runtime::lemma_last_index_at(v@, '/', -1);
    }
    Option::None
}

} // verus!
