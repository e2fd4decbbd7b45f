//! The schema extractor: pulls the bounded, sentinel-delimited schema block
//! out of commented script text.

use vstd::prelude::*;
use crate::errors::SchemaError;
use crate::text::{
    append_chars, chars_to_string, eq_str, split_lines, split_lines_spec, starts_with,
    starts_with_spec, str_to_chars, subrange_chars, trim, trim_spec, trim_start, trim_start_spec,
};

verus! {

/// The comment remainder of a line for the prefixes from index `i` on: the
/// first prefix that the line (leading space ignored) starts with wins, and
/// at most one following space is stripped.
pub open spec fn strip_prefix_at(line: Seq<char>, prefixes: Seq<Seq<char>>, i: int) -> Option<
    Seq<char>,
>
    decreases prefixes.len() - i,
{
    if i < 0 || i >= prefixes.len() {
        Option::None
    } else {
        let t = trim_start_spec(line);
        if starts_with_spec(t, prefixes[i]) {
            let rem = t.subrange(prefixes[i].len() as int, t.len() as int);
            if rem.len() > 0 && rem[0] == ' ' {
                Option::Some(rem.drop_first())
            } else {
                Option::Some(rem)
            }
        } else {
            strip_prefix_at(line, prefixes, i + 1)
        }
    }
}

/// The comment remainder of a line, or `None` for a line that carries no
/// recognized comment prefix.
pub open spec fn strip_prefix_spec(line: Seq<char>, prefixes: Seq<Seq<char>>) -> Option<Seq<char>> {
    strip_prefix_at(line, prefixes, 0)
}

/// The outcome of a schema-block scan.
pub enum ExtractSpec {
    /// The block between the start and end markers.
    Found(Seq<char>),
    /// No start marker before the end of input, or no end marker after one.
    NotFound,
    /// Start and end markers with nothing but white space between them.
    Empty,
    /// A non-empty line without a comment prefix inside an open block; the
    /// payload is its 1-indexed line number.
    MissingPrefix(int),
}

/// One step per line: `idx` is the next line to read, `in_block` whether the
/// start marker has been passed, `buffer` the block text gathered so far.
pub open spec fn extract_scan(
    lines: Seq<Seq<char>>,
    prefixes: Seq<Seq<char>>,
    idx: int,
    in_block: bool,
    buffer: Seq<char>,
) -> ExtractSpec
    decreases lines.len() - idx,
{
    if idx < 0 || idx >= lines.len() {
        ExtractSpec::NotFound
    } else {
        let line = lines[idx];
        match strip_prefix_spec(line, prefixes) {
            Option::Some(commented) => {
                let t = trim_spec(commented);
                if !in_block && t == "OMAKURE_SCHEMA_START"@ {
                    extract_scan(lines, prefixes, idx + 1, true, buffer)
                } else if in_block && t == "OMAKURE_SCHEMA_END"@ {
                    if trim_spec(buffer).len() == 0 {
                        ExtractSpec::Empty
                    } else {
                        ExtractSpec::Found(buffer)
                    }
                } else if in_block {
                    let b = if buffer.len() > 0 {
                        buffer.push('\n') + commented
                    } else {
                        commented
                    };
                    extract_scan(lines, prefixes, idx + 1, true, b)
                } else {
                    extract_scan(lines, prefixes, idx + 1, false, buffer)
                }
            },
            Option::None => {
                if in_block {
                    if trim_spec(line).len() == 0 {
                        extract_scan(lines, prefixes, idx + 1, in_block, buffer)
                    } else {
                        ExtractSpec::MissingPrefix(idx + 1)
                    }
                } else {
                    extract_scan(lines, prefixes, idx + 1, false, buffer)
                }
            },
        }
    }
}

/// What extracting the schema block from `text` yields.
pub open spec fn extract_spec(text: Seq<char>, prefixes: Seq<Seq<char>>) -> ExtractSpec {
    extract_scan(split_lines_spec(text), prefixes, 0, false, Seq::empty())
}

/// Extraction is a pure function of its input: two runs over the same text
/// and prefixes always agree.
pub proof fn lemma_extract_idempotent(
    text: Seq<char>,
    prefixes: Seq<Seq<char>>,
    a: ExtractSpec,
    b: ExtractSpec,
)
    requires
        a == extract_spec(text, prefixes),
        b == extract_spec(text, prefixes),
    ensures
        a == b,
{
}

fn strip_comment_prefix(line: &Vec<char>, prefixes: &Vec<String>) -> (r: Option<Vec<char>>)
    ensures
        match r {
            Option::Some(v) => strip_prefix_spec(line@, prefixes.deep_view()) == Option::Some(v@),
            Option::None => strip_prefix_spec(line@, prefixes.deep_view()) is None,
        },
{
    let t = trim_start(line);
    let ghost ps = prefixes.deep_view();
    let mut i: usize = 0;
    while i < prefixes.len()
        invariant
            i <= prefixes@.len(),
            ps == prefixes.deep_view(),
            ps.len() == prefixes@.len(),
            forall|j: int| 0 <= j < prefixes@.len() ==> ps[j] == prefixes@[j]@,
            t@ == trim_start_spec(line@),
            strip_prefix_spec(line@, ps) == strip_prefix_at(line@, ps, i as int),
        decreases prefixes@.len() - i,
    {
        let p = str_to_chars(prefixes[i].as_str());
        if starts_with(&t, &p) {
            let rem = subrange_chars(&t, p.len(), t.len());
            if rem.len() > 0 && rem[0] == ' ' {
                let out = subrange_chars(&rem, 1, rem.len());
                proof {
                    assert(out@ =~= rem@.drop_first());
                }
                return Option::Some(out);
            }
            return Option::Some(rem);
        }
        i = i + 1;
    }
    Option::None
}

/// Extracts the schema block from a script's text.
///
/// The block starts at a comment line whose stripped content is exactly the
/// start marker and ends at one equal to the end marker; every non-empty line
/// strictly between must carry a recognized comment prefix.
pub fn extract_schema_block(contents: &str, prefixes: &Vec<String>) -> (r: Result<
    String,
    SchemaError,
>)
    ensures
        match r {
            Ok(block) => extract_spec(contents@, prefixes.deep_view()) == ExtractSpec::Found(
                block@,
            ),
            Err(e) => match e {
                SchemaError::BlockNotFound => extract_spec(contents@, prefixes.deep_view())
                    is NotFound,
                SchemaError::EmptyBlock => extract_spec(contents@, prefixes.deep_view()) is Empty,
                SchemaError::MissingCommentPrefix { line } => extract_spec(
                    contents@,
                    prefixes.deep_view(),
                ) == ExtractSpec::MissingPrefix(line as int),
                _ => false,
            },
        },
{
    let chars = str_to_chars(contents);
    let lines = split_lines(&chars);
    let ghost ls = split_lines_spec(contents@);
    let ghost ps = prefixes.deep_view();
    let mut in_block = false;
    let mut buffer: Vec<char> = Vec::new();
    let mut idx: usize = 0;
    proof {
        assert(buffer@ =~= Seq::<char>::empty());
    }
    while idx < lines.len()
        invariant
            idx <= lines@.len(),
            ls == split_lines_spec(contents@),
            ps == prefixes.deep_view(),
            lines.deep_view() == ls,
            lines@.len() == ls.len(),
            forall|j: int| 0 <= j < lines@.len() ==> ls[j] == lines@[j]@,
            extract_spec(contents@, ps) == extract_scan(ls, ps, idx as int, in_block, buffer@),
        decreases lines@.len() - idx,
    {
        let line = &lines[idx];
        let stripped = strip_comment_prefix(line, prefixes);
        match stripped {
            Option::Some(commented) => {
                let t = trim(&commented);
                if !in_block && eq_str(&t, "OMAKURE_SCHEMA_START") {
                    in_block = true;
                } else if in_block && eq_str(&t, "OMAKURE_SCHEMA_END") {
                    let btrim = trim(&buffer);
                    if btrim.len() == 0 {
                        return Err(SchemaError::EmptyBlock);
                    }
                    return Ok(chars_to_string(&buffer));
                } else if in_block {
                    if buffer.len() > 0 {
                        let ghost old_buffer = buffer@;
                        buffer.push('\n');
                        append_chars(&mut buffer, &commented);
                        proof {
                            assert(buffer@ =~= old_buffer.push('\n') + commented@);
                        }
                    } else {
                        buffer = commented;
                    }
                }
            },
            Option::None => {
                if in_block {
                    let ltrim = trim(line);
                    if ltrim.len() > 0 {
                        return Err(SchemaError::MissingCommentPrefix { line: idx + 1 });
                    }
                }
            },
        }
        idx = idx + 1;
    }
    Err(SchemaError::BlockNotFound)
}

proof fn lemma_scan_without_end(
    lines: Seq<Seq<char>>,
    prefixes: Seq<Seq<char>>,
    i: int,
    in_block: bool,
    buffer: Seq<char>,
)
    requires
        forall|j: int|
            i <= j < lines.len() ==> !(#[trigger] strip_prefix_spec(lines[j], prefixes) matches
            Option::Some(c) && trim_spec(c) == "OMAKURE_SCHEMA_END"@),
        forall|j: int|
            i <= j < lines.len() ==> (#[trigger] strip_prefix_spec(lines[j], prefixes)) is Some
                || trim_spec(lines[j]).len() == 0,
    ensures
        extract_scan(lines, prefixes, i, in_block, buffer) == ExtractSpec::NotFound,
    decreases lines.len() - i,
{
    if 0 <= i < lines.len() {
        match strip_prefix_spec(lines[i], prefixes) {
            Option::Some(commented) => {
                let t = trim_spec(commented);
                assert(t != "OMAKURE_SCHEMA_END"@);
                if !in_block && t == "OMAKURE_SCHEMA_START"@ {
                    lemma_scan_without_end(lines, prefixes, i + 1, true, buffer);
                } else if in_block {
                    let b = if buffer.len() > 0 {
                        buffer.push('\n') + commented
                    } else {
                        commented
                    };
                    lemma_scan_without_end(lines, prefixes, i + 1, true, b);
                } else {
                    lemma_scan_without_end(lines, prefixes, i + 1, false, buffer);
                }
            },
            Option::None => {
                lemma_scan_without_end(lines, prefixes, i + 1, in_block, buffer);
            },
        }
    }
}

/// Without an end-marker line there is never a block: when no line of the
/// text strips to a comment whose trimmed content is the end marker, and
/// every line either carries a recognized prefix or is blank, extraction
/// fails with the block not found — whether a start marker appears or not.
pub proof fn lemma_missing_end_marker(text: Seq<char>, prefixes: Seq<Seq<char>>)
    requires
        forall|j: int|
            0 <= j < split_lines_spec(text).len() ==> !(#[trigger] strip_prefix_spec(
                split_lines_spec(text)[j],
                prefixes,
            ) matches Option::Some(c) && trim_spec(c) == "OMAKURE_SCHEMA_END"@),
        forall|j: int|
            0 <= j < split_lines_spec(text).len() ==> (#[trigger] strip_prefix_spec(
                split_lines_spec(text)[j],
                prefixes,
            )) is Some || trim_spec(split_lines_spec(text)[j]).len() == 0,
    ensures
        extract_spec(text, prefixes) == ExtractSpec::NotFound,
{
    lemma_scan_without_end(split_lines_spec(text), prefixes, 0, false, Seq::empty());
}

} // verus!
