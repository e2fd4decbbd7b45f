//! The field validator: normalizes one raw form value against its field
//! definition, applying defaults, the required flag, the choice set, and the
//! kind-specific checks.

use vstd::prelude::*;
use crate::errors::SchemaError;
use crate::schema::{Field, FieldView};
use crate::text::{
    chars_to_string, eq_chars, eq_str, is_digit_char, digit_char, lower_seq, str_to_chars,
    to_lower, trim, trim_spec,
};

verus! {

/// The canonical boolean reading of a string: case-insensitive, trimmed,
/// `true/t/yes/y/1` or `false/f/no/n/0`.
pub open spec fn bool_of(s: Seq<char>) -> Option<bool> {
    let t = lower_seq(trim_spec(s));
    if t == "true"@ || t == "t"@ || t == "yes"@ || t == "y"@ || t == "1"@ {
        Option::Some(true)
    } else if t == "false"@ || t == "f"@ || t == "no"@ || t == "n"@ || t == "0"@ {
        Option::Some(false)
    } else {
        Option::None
    }
}

/// Reads a boolean from free-form user input.
pub fn parse_bool(input: &str) -> (r: Option<bool>)
    ensures
        r == bool_of(input@),
{
    let chars = str_to_chars(input);
    let t = to_lower(&trim(&chars));
    if eq_str(&t, "true") || eq_str(&t, "t") || eq_str(&t, "yes") || eq_str(&t, "y") || eq_str(
        &t,
        "1",
    ) {
        Option::Some(true)
    } else if eq_str(&t, "false") || eq_str(&t, "f") || eq_str(&t, "no") || eq_str(&t, "n")
        || eq_str(&t, "0") {
        Option::Some(false)
    } else {
        Option::None
    }
}

pub open spec fn all_digits(s: Seq<char>) -> bool {
    forall|i: int| 0 <= i < s.len() ==> is_digit_char(#[trigger] s[i])
}

/// The exponent part of a float literal: an optional sign, then digits.
pub open spec fn is_exp_part(s: Seq<char>) -> bool {
    let t = if s.len() > 0 && (s[0] == '+' || s[0] == '-') {
        s.drop_first()
    } else {
        s
    };
    t.len() > 0 && all_digits(t)
}

/// The mantissa of a float literal: digits, optionally with one point, with a
/// digit on at least one side of the point.
pub open spec fn is_mantissa(s: Seq<char>) -> bool {
    (s.len() > 0 && all_digits(s)) || (exists|i: int|
        0 <= i < s.len() && #[trigger] s[i] == '.' && all_digits(s.subrange(0, i)) && all_digits(
            s.subrange(i + 1, s.len() as int),
        ) && (i > 0 || s.len() > 1))
}

/// A float literal without sign and keywords: a mantissa, optionally followed
/// by `e`/`E` and an exponent.
pub open spec fn is_number_body(s: Seq<char>) -> bool {
    is_mantissa(s) || (exists|i: int|
        0 <= i < s.len() && (#[trigger] s[i] == 'e' || s[i] == 'E') && is_mantissa(
            s.subrange(0, i),
        ) && is_exp_part(s.subrange(i + 1, s.len() as int)))
}

/// The strings accepted by a 64-bit float parse: an optional sign, then
/// `inf`, `infinity`, `nan` (case-insensitive) or a number.
pub open spec fn is_float_literal(s: Seq<char>) -> bool {
    let t = if s.len() > 0 && (s[0] == '+' || s[0] == '-') {
        s.drop_first()
    } else {
        s
    };
    lower_seq(t) == "inf"@ || lower_seq(t) == "infinity"@ || lower_seq(t) == "nan"@
        || is_number_body(t)
}

fn check_all_digits(v: &Vec<char>, from: usize, to: usize) -> (r: bool)
    requires
        from <= to <= v@.len(),
    ensures
        r == all_digits(v@.subrange(from as int, to as int)),
{
    let mut i: usize = from;
    while i < to
        invariant
            from <= i <= to <= v@.len(),
            forall|j: int| from <= j < i ==> is_digit_char(#[trigger] v@[j]),
        decreases to - i,
    {
        if !digit_char(v[i]) {
            proof {
                assert(v@.subrange(from as int, to as int)[i - from] == v@[i as int]);
            }
            return false;
        }
        i = i + 1;
    }
    proof {
        assert forall|j: int| 0 <= j < to - from implies is_digit_char(
            #[trigger] v@.subrange(from as int, to as int)[j],
        ) by {
            assert(v@.subrange(from as int, to as int)[j] == v@[from + j]);
        }
    }
    true
}

fn check_mantissa(v: &Vec<char>, from: usize, to: usize) -> (r: bool)
    requires
        from <= to <= v@.len(),
    ensures
        r == is_mantissa(v@.subrange(from as int, to as int)),
{
    let ghost s = v@.subrange(from as int, to as int);
    let mut dot: usize = to;
    let mut i: usize = from;
    while i < to
        invariant
            from <= i <= to <= v@.len(),
            s == v@.subrange(from as int, to as int),
            dot == to || (from <= dot < i && v@[dot as int] == '.'),
            forall|j: int| from <= j < i && j != dot ==> #[trigger] v@[j] != '.',
        decreases to - i,
    {
        if v[i] == '.' {
            if dot != to {
                // a second point: neither an all-digit run nor a single split
                proof {
                    assert(s[dot - from] == '.');
                    assert(s[i - from] == '.');
                    assert forall|k: int|
                        0 <= k < s.len() && #[trigger] s[k] == '.' && all_digits(
                            s.subrange(0, k),
                        ) && all_digits(s.subrange(k + 1, s.len() as int)) implies false by {
                        if k != dot - from {
                            if k < dot - from {
                                assert(s.subrange(k + 1, s.len() as int)[dot - from - k - 1]
                                    == s[dot - from]);
                            } else {
                                assert(s.subrange(0, k)[dot - from] == s[dot - from]);
                            }
                        } else {
                            assert(s.subrange(k + 1, s.len() as int)[i - from - k - 1] == s[i
                                - from]);
                        }
                    }
                    assert(!all_digits(s));
                }
                return false;
            }
            dot = i;
        }
        i = i + 1;
    }
    if dot == to {
        let r = to > from && check_all_digits(v, from, to);
        proof {
            if !r {
                assert forall|k: int|
                    0 <= k < s.len() implies !(#[trigger] s[k] == '.' && all_digits(
                    s.subrange(0, k),
                ) && all_digits(s.subrange(k + 1, s.len() as int)) && (k > 0 || s.len() > 1)) by {
                    if s[k] == '.' {
                        assert(v@[from + k] == '.');
                    }
                }
            }
        }
        return r;
    }
    let before = check_all_digits(v, from, dot);
    let after = check_all_digits(v, dot + 1, to);
    let ok = before && after && (dot > from || to - from > 1);
    proof {
        assert(s.subrange(0, dot - from) =~= v@.subrange(from as int, dot as int));
        assert(s.subrange(dot - from + 1, s.len() as int) =~= v@.subrange(dot + 1, to as int));
        assert(s[dot - from] == '.');
        if ok {
            assert(is_mantissa(s));
        } else {
            assert(!all_digits(s)) by {
                assert(s[dot - from] == '.');
            }
            assert forall|k: int|
                0 <= k < s.len() implies !(#[trigger] s[k] == '.' && all_digits(s.subrange(0, k))
                && all_digits(s.subrange(k + 1, s.len() as int)) && (k > 0 || s.len() > 1)) by {
                if s[k] == '.' && k != dot - from {
                    if k < dot - from {
                        assert(s.subrange(k + 1, s.len() as int)[dot - from - k - 1] == s[dot
                            - from]);
                    } else {
                        assert(s.subrange(0, k)[dot - from] == s[dot - from]);
                    }
                }
            }
        }
    }
    ok
}

fn check_exp_part(v: &Vec<char>, from: usize, to: usize) -> (r: bool)
    requires
        from <= to <= v@.len(),
    ensures
        r == is_exp_part(v@.subrange(from as int, to as int)),
{
    let ghost s = v@.subrange(from as int, to as int);
    let start: usize = if from < to && (v[from] == '+' || v[from] == '-') {
        from + 1
    } else {
        from
    };
    proof {
        if from < to && (v@[from as int] == '+' || v@[from as int] == '-') {
            assert(s[0] == v@[from as int]);
            assert(s.drop_first() =~= v@.subrange(from + 1, to as int));
        } else {
            if s.len() > 0 {
                assert(s[0] == v@[from as int]);
            }
            assert(s =~= v@.subrange(start as int, to as int));
        }
    }
    let r = start < to && check_all_digits(v, start, to);
    r
}

/// Accepts exactly the strings a 64-bit float parse accepts; the value is
/// never needed, only whether it exists.
#[verifier::rlimit(60)]
pub fn is_number_literal(v: &Vec<char>) -> (r: bool)
    ensures
        r == is_float_literal(v@),
{
    let start: usize = if v.len() > 0 && (v[0] == '+' || v[0] == '-') {
        1
    } else {
        0
    };
    let ghost t = if v@.len() > 0 && (v@[0] == '+' || v@[0] == '-') {
        v@.drop_first()
    } else {
        v@
    };
    proof {
        assert(t =~= v@.subrange(start as int, v@.len() as int));
    }
    let body = crate::text::subrange_chars(v, start, v.len());
    let low = to_lower(&body);
    if eq_str(&low, "inf") || eq_str(&low, "infinity") || eq_str(&low, "nan") {
        return true;
    }
    // find the first exponent marker, if any
    let mut e: usize = v.len();
    let mut i: usize = start;
    while i < v.len()
        invariant
            start <= i <= v@.len(),
            e == v@.len() || (start <= e < i && (v@[e as int] == 'e' || v@[e as int] == 'E')),
            forall|j: int| start <= j < i && j < e ==> #[trigger] v@[j] != 'e' && v@[j] != 'E',
        decreases v@.len() - i,
    {
        if e == v.len() && (v[i] == 'e' || v[i] == 'E') {
            e = i;
        }
        i = i + 1;
    }
    if e == v.len() {
        let r = check_mantissa(v, start, v.len());
        proof {
            if !r {
                assert forall|k: int|
                    0 <= k < t.len() implies !((#[trigger] t[k] == 'e' || t[k] == 'E')
                    && is_mantissa(t.subrange(0, k)) && is_exp_part(
                    t.subrange(k + 1, t.len() as int),
                )) by {
                    assert(t[k] == v@[start + k]);
                }
            }
        }
        return r;
    }
    let m = check_mantissa(v, start, e);
    let x = check_exp_part(v, e + 1, v.len());
    let r = m && x;
    proof {
        assert(t.subrange(0, e - start) =~= v@.subrange(start as int, e as int));
        assert(t.subrange(e - start + 1, t.len() as int) =~= v@.subrange(e + 1, v@.len() as int));
        assert(t[e - start] == v@[e as int]);
        if r {
            assert(is_number_body(t));
        } else {
            // the found marker is the only possible split point, and a
            // mantissa never holds an exponent marker
            assert(!is_mantissa(t)) by {
                assert(t[e - start] == 'e' || t[e - start] == 'E');
                if t.len() > 0 && all_digits(t) {
                    assert(is_digit_char(t[e - start]));
                }
                if exists|k: int|
                    0 <= k < t.len() && #[trigger] t[k] == '.' && all_digits(t.subrange(0, k))
                        && all_digits(t.subrange(k + 1, t.len() as int)) && (k > 0 || t.len()
                        > 1) {
                    let k = choose|k: int|
                        0 <= k < t.len() && #[trigger] t[k] == '.' && all_digits(t.subrange(0, k))
                            && all_digits(t.subrange(k + 1, t.len() as int)) && (k > 0 || t.len()
                            > 1);
                    if e - start < k {
                        assert(t.subrange(0, k)[e - start] == t[e - start]);
                    } else {
                        assert(t.subrange(k + 1, t.len() as int)[e - start - k - 1] == t[e
                            - start]);
                    }
                }
            }
            assert forall|k: int|
                0 <= k < t.len() && (#[trigger] t[k] == 'e' || t[k] == 'E') implies !(is_mantissa(
                t.subrange(0, k),
            ) && is_exp_part(t.subrange(k + 1, t.len() as int))) by {
                if k == e - start {
                } else if k < e - start {
                    // an earlier marker would have been found first
                    assert(t[k] == v@[start + k]);
                } else {
                    // a later marker stands inside the exponent part
                    if is_mantissa(t.subrange(0, k)) {
                        lemma_mantissa_no_marker(t.subrange(0, k), e - start);
                    }
                }
            }
        }
    }
    r
}

proof fn lemma_mantissa_no_marker(s: Seq<char>, i: int)
    requires
        0 <= i < s.len(),
        s[i] == 'e' || s[i] == 'E',
    ensures
        !is_mantissa(s),
{
    if s.len() > 0 && all_digits(s) {
        assert(is_digit_char(s[i]));
    }
    if exists|k: int|
        0 <= k < s.len() && #[trigger] s[k] == '.' && all_digits(s.subrange(0, k)) && all_digits(
            s.subrange(k + 1, s.len() as int),
        ) && (k > 0 || s.len() > 1) {
        let k = choose|k: int|
            0 <= k < s.len() && #[trigger] s[k] == '.' && all_digits(s.subrange(0, k))
                && all_digits(s.subrange(k + 1, s.len() as int)) && (k > 0 || s.len() > 1);
        if i < k {
            assert(s.subrange(0, k)[i] == s[i]);
        } else if i > k {
            assert(s.subrange(k + 1, s.len() as int)[i - k - 1] == s[i]);
        }
    }
}

/// The parts joined by `sep`, as `[String]::join` builds it.
pub open spec fn join_with(parts: Seq<Seq<char>>, sep: Seq<char>) -> Seq<char>
    decreases parts.len(),
{
    if parts.len() == 0 {
        Seq::empty()
    } else if parts.len() == 1 {
        parts[0]
    } else {
        parts[0] + sep + join_with(parts.drop_first(), sep)
    }
}

proof fn lemma_join_push(parts: Seq<Seq<char>>, sep: Seq<char>, x: Seq<char>)
    requires
        parts.len() > 0,
    ensures
        join_with(parts.push(x), sep) == join_with(parts, sep) + sep + x,
    decreases parts.len(),
{
    if parts.len() == 1 {
        assert(parts.push(x).drop_first() =~= seq![x]);
        assert(parts.push(x)[0] == parts[0]);
        assert(join_with(seq![x], sep) == x);
        assert(join_with(parts.push(x), sep) == parts[0] + sep + x);
    } else {
        lemma_join_push(parts.drop_first(), sep, x);
        assert(parts.push(x).drop_first() =~= parts.drop_first().push(x));
        assert(join_with(parts, sep) + sep + x =~= parts[0] + sep + (join_with(
            parts.drop_first(),
            sep,
        ) + sep + x));
    }
}

/// Joins the declared choices with `", "` for the error message.
pub fn join_choices(parts: &Vec<String>) -> (r: String)
    ensures
        r@ == join_with(parts.deep_view(), ", "@),
{
    let mut acc: Vec<char> = Vec::new();
    let mut i: usize = 0;
    while i < parts.len()
        invariant
            i <= parts@.len(),
            parts.deep_view().len() == parts@.len(),
            forall|j: int| 0 <= j < parts@.len() ==> parts.deep_view()[j] == parts@[j]@,
            acc@ == join_with(parts.deep_view().subrange(0, i as int), ", "@),
        decreases parts@.len() - i,
    {
        let part = str_to_chars(parts[i].as_str());
        if i > 0 {
            let sep = str_to_chars(", ");
            crate::text::append_chars(&mut acc, &sep);
        }
        crate::text::append_chars(&mut acc, &part);
        proof {
            let pre = parts.deep_view().subrange(0, i as int);
            assert(parts.deep_view().subrange(0, i + 1) =~= pre.push(parts@[i as int]@));
            if i > 0 {
                lemma_join_push(pre, ", "@, parts@[i as int]@);
            } else {
                assert(parts.deep_view().subrange(0, 1) =~= seq![parts@[0]@]);
            }
        }
        i = i + 1;
    }
    proof {
        assert(parts.deep_view().subrange(0, parts.deep_view().len() as int) =~= parts.deep_view());
    }
    chars_to_string(&acc)
}

fn choices_contain(choices: &Vec<String>, value: &Vec<char>) -> (r: bool)
    ensures
        r == choices.deep_view().contains(value@),
{
    let mut i: usize = 0;
    while i < choices.len()
        invariant
            i <= choices@.len(),
            choices.deep_view().len() == choices@.len(),
            forall|j: int| 0 <= j < choices@.len() ==> choices.deep_view()[j] == choices@[j]@,
            forall|j: int| 0 <= j < i ==> choices.deep_view()[j] != value@,
        decreases choices@.len() - i,
    {
        let c = str_to_chars(choices[i].as_str());
        if eq_chars(&c, value) {
            assert(choices.deep_view()[i as int] == value@);
            return true;
        }
        i = i + 1;
    }
    proof {
        if choices.deep_view().contains(value@) {
            let j = choose|j: int|
                0 <= j < choices.deep_view().len() && choices.deep_view()[j] == value@;
            assert(choices.deep_view()[j] != value@);
        }
    }
    false
}

/// The outcome the validator owes for a field and a raw input.
pub enum NormalizedSpec {
    /// The field is omitted from the argument vector.
    Absent,
    /// The field contributes this value.
    Value(Seq<char>),
    /// The input is rejected.
    RequiredMissing,
    BadChoice,
    BadNumber,
    BadBoolean,
}

/// What `normalize_input` returns, for every field and every input.
pub open spec fn normalize_spec(f: FieldView, input: Seq<char>) -> NormalizedSpec {
    let t = trim_spec(input);
    if t.len() == 0 && f.default is None {
        if f.required == Option::Some(true) {
            NormalizedSpec::RequiredMissing
        } else {
            NormalizedSpec::Absent
        }
    } else {
        let raw = if t.len() == 0 {
            f.default->Some_0
        } else {
            t
        };
        if f.choices matches Option::Some(cs) && !cs.contains(raw) {
            NormalizedSpec::BadChoice
        } else {
            let k = lower_seq(f.kind);
            if k == "number"@ {
                if is_float_literal(raw) {
                    NormalizedSpec::Value(raw)
                } else {
                    NormalizedSpec::BadNumber
                }
            } else if k == "bool"@ || k == "boolean"@ {
                match bool_of(raw) {
                    Option::Some(true) => NormalizedSpec::Value("true"@),
                    Option::Some(false) => NormalizedSpec::Value("false"@),
                    Option::None => NormalizedSpec::BadBoolean,
                }
            } else {
                NormalizedSpec::Value(raw)
            }
        }
    }
}

/// Normalizes and validates one raw form value against its field definition.
///
/// `Ok(Some(v))` means the caller appends the field's flag and `v` to the
/// argument vector; `Ok(None)` means the field is omitted entirely.
pub fn normalize_input(field: &Field, input: &str) -> (r: Result<Option<String>, SchemaError>)
    ensures
        ({
            let n = normalize_spec(field@, input@);
            match r {
                Ok(opt) => match opt {
                    Option::None => n is Absent,
                    Option::Some(v) => n == NormalizedSpec::Value(v@),
                },
                Err(e) => match e {
                    SchemaError::ValueRequired => n is RequiredMissing,
                    SchemaError::InvalidChoice { choices } => n is BadChoice && (
                    field@.choices matches Option::Some(cs) ==> choices@ == join_with(cs, ", "@)),
                    SchemaError::InvalidNumber => n is BadNumber,
                    SchemaError::InvalidBoolean => n is BadBoolean,
                    _ => false,
                },
            }
        }),
{
    let chars = str_to_chars(input);
    let t = trim(&chars);
    let required = match field.required {
        Option::Some(b) => b,
        Option::None => false,
    };
    let raw: Vec<char>;
    if t.len() == 0 {
        match &field.default {
            Option::Some(d) => {
                raw = str_to_chars(d.as_str());
            },
            Option::None => {
                if required {
                    return Err(SchemaError::ValueRequired);
                }
                return Ok(Option::None);
            },
        }
    } else {
        raw = t;
    }
    if let Option::Some(cs) = &field.choices {
        if !choices_contain(cs, &raw) {
            let joined = join_choices(cs);
            return Err(SchemaError::InvalidChoice { choices: joined });
        }
    }
    let kind_chars = str_to_chars(field.kind.as_str());
    let kind_lower = to_lower(&kind_chars);
    if eq_str(&kind_lower, "number") {
        if is_number_literal(&raw) {
            return Ok(Option::Some(chars_to_string(&raw)));
        }
        return Err(SchemaError::InvalidNumber);
    }
    if eq_str(&kind_lower, "bool") || eq_str(&kind_lower, "boolean") {
        let b = parse_bool_chars(&raw);
        return match b {
            Option::Some(true) => Ok(Option::Some(chars_to_string(&str_to_chars("true")))),
            Option::Some(false) => Ok(Option::Some(chars_to_string(&str_to_chars("false")))),
            Option::None => Err(SchemaError::InvalidBoolean),
        };
    }
    Ok(Option::Some(chars_to_string(&raw)))
}

fn parse_bool_chars(input: &Vec<char>) -> (r: Option<bool>)
    ensures
        r == bool_of(input@),
{
    let t = to_lower(&trim(input));
    if eq_str(&t, "true") || eq_str(&t, "t") || eq_str(&t, "yes") || eq_str(&t, "y") || eq_str(
        &t,
        "1",
    ) {
        Option::Some(true)
    } else if eq_str(&t, "false") || eq_str(&t, "f") || eq_str(&t, "no") || eq_str(&t, "n")
        || eq_str(&t, "0") {
        Option::Some(false)
    } else {
        Option::None
    }
}

} // verus!
