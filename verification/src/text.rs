//! Character-level text utilities shared by the schema extractor, the field
//! validator, the environment-file parser and the history store.
//!
//! Executable code works on `Vec<char>`; specifications are stated over
//! `Seq<char>`, the view of both `Vec<char>` and `str`.

use vstd::prelude::*;

verus! {

/// Unicode white space, the set recognized by `char::is_whitespace`.
pub open spec fn is_space_char(c: char) -> bool {
    c == ' ' || c == '\t' || c == '\n' || c == '\r' || c == '\u{b}' || c == '\u{c}'
        || c == '\u{85}' || c == '\u{a0}' || c == '\u{1680}'
        || ('\u{2000}' <= c && c <= '\u{200a}')
        || c == '\u{2028}' || c == '\u{2029}' || c == '\u{202f}' || c == '\u{205f}'
        || c == '\u{3000}'
}

pub fn space_char(c: char) -> (r: bool)
    ensures
        r == is_space_char(c),
{
    c == ' ' || c == '\t' || c == '\n' || c == '\r' || c == '\u{b}' || c == '\u{c}'
        || c == '\u{85}' || c == '\u{a0}' || c == '\u{1680}'
        || ('\u{2000}' <= c && c <= '\u{200a}')
        || c == '\u{2028}' || c == '\u{2029}' || c == '\u{202f}' || c == '\u{205f}'
        || c == '\u{3000}'
}

pub open spec fn is_digit_char(c: char) -> bool {
    '0' <= c && c <= '9'
}

pub fn digit_char(c: char) -> (r: bool)
    ensures
        r == is_digit_char(c),
{
    '0' <= c && c <= '9'
}

pub open spec fn is_alnum_char(c: char) -> bool {
    ('0' <= c && c <= '9') || ('a' <= c && c <= 'z') || ('A' <= c && c <= 'Z')
}

pub fn alnum_char(c: char) -> (r: bool)
    ensures
        r == is_alnum_char(c),
{
    ('0' <= c && c <= '9') || ('a' <= c && c <= 'z') || ('A' <= c && c <= 'Z')
}

/// ASCII lower-casing of one character.
pub open spec fn lower_char(c: char) -> char {
    if 'A' <= c && c <= 'Z' {
        ((c as u8) + 32) as char
    } else {
        c
    }
}

pub fn to_lower_char(c: char) -> (r: char)
    ensures
        r == lower_char(c),
{
    match c {
        'A' => 'a',
        'B' => 'b',
        'C' => 'c',
        'D' => 'd',
        'E' => 'e',
        'F' => 'f',
        'G' => 'g',
        'H' => 'h',
        'I' => 'i',
        'J' => 'j',
        'K' => 'k',
        'L' => 'l',
        'M' => 'm',
        'N' => 'n',
        'O' => 'o',
        'P' => 'p',
        'Q' => 'q',
        'R' => 'r',
        'S' => 's',
        'T' => 't',
        'U' => 'u',
        'V' => 'v',
        'W' => 'w',
        'X' => 'x',
        'Y' => 'y',
        'Z' => 'z',
        _ => c,
    }
}

/// ASCII lower-casing of a whole character sequence.
pub open spec fn lower_seq(s: Seq<char>) -> Seq<char> {
    s.map_values(|c: char| lower_char(c))
}

pub fn to_lower(v: &Vec<char>) -> (r: Vec<char>)
    ensures
        r@ == lower_seq(v@),
{
    let mut r: Vec<char> = Vec::new();
    for i in 0..v.len()
        invariant
            r@ == lower_seq(v@.subrange(0, i as int)),
    {
        r.push(to_lower_char(v[i]));
        proof {
            assert(v@.subrange(0, i + 1).drop_last() =~= v@.subrange(0, i as int));
            assert(r@ =~= lower_seq(v@.subrange(0, i + 1)));
        }
    }
    proof {
        assert(v@.subrange(0, v@.len() as int) =~= v@);
    }
    r
}

pub open spec fn trim_start_spec(s: Seq<char>) -> Seq<char>
    decreases s.len(),
{
    if s.len() > 0 && is_space_char(s[0]) {
        trim_start_spec(s.drop_first())
    } else {
        s
    }
}

pub open spec fn trim_end_spec(s: Seq<char>) -> Seq<char>
    decreases s.len(),
{
    if s.len() > 0 && is_space_char(s.last()) {
        trim_end_spec(s.drop_last())
    } else {
        s
    }
}

/// White space removed from both ends, as `str::trim` does.
pub open spec fn trim_spec(s: Seq<char>) -> Seq<char> {
    trim_end_spec(trim_start_spec(s))
}

proof fn lemma_trim_start_at(s: Seq<char>, i: int)
    requires
        0 <= i <= s.len(),
        forall|j: int| 0 <= j < i ==> is_space_char(s[j]),
        i == s.len() || !is_space_char(s[i]),
    ensures
        trim_start_spec(s) == s.subrange(i, s.len() as int),
    decreases i,
{
    if i == 0 {
        assert(s.subrange(0, s.len() as int) =~= s);
    } else {
        let s2 = s.drop_first();
        lemma_trim_start_at(s2, i - 1);
        assert(s2.subrange(i - 1, s2.len() as int) =~= s.subrange(i, s.len() as int));
    }
}

proof fn lemma_trim_end_at(s: Seq<char>, i: int)
    requires
        0 <= i <= s.len(),
        forall|j: int| i <= j < s.len() ==> is_space_char(s[j]),
        i == 0 || !is_space_char(s[i - 1]),
    ensures
        trim_end_spec(s) == s.subrange(0, i),
    decreases s.len() - i,
{
    if i == s.len() {
        assert(s.subrange(0, i) =~= s);
    } else {
        let s2 = s.drop_last();
        lemma_trim_end_at(s2, i);
        assert(s2.subrange(0, i) =~= s.subrange(0, i));
    }
}

pub fn trim(v: &Vec<char>) -> (r: Vec<char>)
    ensures
        r@ == trim_spec(v@),
{
    let mut start: usize = 0;
    while start < v.len() && space_char(v[start])
        invariant
            start <= v.len(),
            forall|j: int| 0 <= j < start ==> is_space_char(v@[j]),
        decreases v.len() - start,
    {
        start = start + 1;
    }
    proof {
        lemma_trim_start_at(v@, start as int);
    }
    let ghost t = trim_start_spec(v@);
    let mut end: usize = v.len();
    while end > start && space_char(v[end - 1])
        invariant
            start <= end <= v.len(),
            forall|j: int| end <= j < v.len() ==> is_space_char(v@[j]),
        decreases end,
    {
        end = end - 1;
    }
    proof {
        assert(t =~= v@.subrange(start as int, v@.len() as int));
        assert(forall|j: int| end - start <= j < t.len() ==> is_space_char(t[j]));
        lemma_trim_end_at(t, end - start);
    }
    let mut r: Vec<char> = Vec::new();
    let mut i: usize = start;
    while i < end
        invariant
            start <= i <= end <= v.len(),
            r@ == v@.subrange(start as int, i as int),
        decreases end - i,
    {
        r.push(v[i]);
        proof {
            assert(v@.subrange(start as int, i + 1) =~= v@.subrange(start as int, i as int).push(
                v@[i as int],
            ));
        }
        i = i + 1;
    }
    proof {
        assert(trim_spec(v@) =~= v@.subrange(start as int, end as int));
    }
    r
}

/// `prefix` is an initial segment of `s`.
pub open spec fn starts_with_spec(s: Seq<char>, prefix: Seq<char>) -> bool {
    prefix.len() <= s.len() && s.subrange(0, prefix.len() as int) == prefix
}

pub fn eq_chars(a: &Vec<char>, b: &Vec<char>) -> (r: bool)
    ensures
        r == (a@ == b@),
{
    if a.len() != b.len() {
        return false;
    }
    for i in 0..a.len()
        invariant
            a.len() == b.len(),
            forall|j: int| 0 <= j < i ==> a@[j] == b@[j],
    {
        if a[i] != b[i] {
            return false;
        }
    }
    proof {
        assert(a@ =~= b@);
    }
    true
}

pub fn starts_with(v: &Vec<char>, prefix: &Vec<char>) -> (r: bool)
    ensures
        r == starts_with_spec(v@, prefix@),
{
    if prefix.len() > v.len() {
        return false;
    }
    for i in 0..prefix.len()
        invariant
            prefix.len() <= v.len(),
            forall|j: int| 0 <= j < i ==> v@[j] == prefix@[j],
    {
        if v[i] != prefix[i] {
            return false;
        }
    }
    proof {
        assert(v@.subrange(0, prefix@.len() as int) =~= prefix@);
    }
    true
}

/// The characters of `v` from `from` (inclusive) to `to` (exclusive).
pub fn subrange_chars(v: &Vec<char>, from: usize, to: usize) -> (r: Vec<char>)
    requires
        from <= to <= v@.len(),
    ensures
        r@ == v@.subrange(from as int, to as int),
{
    let mut r: Vec<char> = Vec::new();
    let mut i: usize = from;
    while i < to
        invariant
            from <= i <= to <= v@.len(),
            r@ == v@.subrange(from as int, i as int),
        decreases to - i,
    {
        r.push(v[i]);
        proof {
            assert(v@.subrange(from as int, i + 1) =~= v@.subrange(from as int, i as int).push(
                v@[i as int],
            ));
        }
        i = i + 1;
    }
    r
}

pub fn concat_chars(a: &Vec<char>, b: &Vec<char>) -> (r: Vec<char>)
    ensures
        r@ == a@ + b@,
{
    let mut r: Vec<char> = Vec::new();
    for i in 0..a.len()
        invariant
            r@ == a@.subrange(0, i as int),
    {
        r.push(a[i]);
        proof {
            assert(a@.subrange(0, i + 1) =~= a@.subrange(0, i as int).push(a@[i as int]));
        }
    }
    for i in 0..b.len()
        invariant
            r@ == a@.subrange(0, a@.len() as int) + b@.subrange(0, i as int),
    {
        r.push(b[i]);
        proof {
            assert(b@.subrange(0, i + 1) =~= b@.subrange(0, i as int).push(b@[i as int]));
            assert(a@.subrange(0, a@.len() as int) + b@.subrange(0, i + 1) =~= (a@.subrange(
                0,
                a@.len() as int,
            ) + b@.subrange(0, i as int)).push(b@[i as int]));
        }
    }
    proof {
        assert(a@.subrange(0, a@.len() as int) =~= a@);
        assert(b@.subrange(0, b@.len() as int) =~= b@);
    }
    r
}

/// `sub` occurs somewhere inside `s`.
pub open spec fn contains_seq(s: Seq<char>, sub: Seq<char>) -> bool {
    exists|i: int|
        0 <= i && i + sub.len() <= s.len() && #[trigger] s.subrange(i, i + sub.len() as int)
            == sub
}

pub fn contains_chars(v: &Vec<char>, sub: &Vec<char>) -> (r: bool)
    ensures
        r == contains_seq(v@, sub@),
{
    if sub.len() > v.len() {
        return false;
    }
    if sub.len() == 0 {
        proof {
            assert(v@.subrange(0, 0 + sub@.len() as int) =~= sub@);
        }
        return true;
    }
    let mut i: usize = 0;
    while i <= v.len() - sub.len()
        invariant
            1 <= sub@.len() <= v@.len() <= usize::MAX,
            i <= v@.len() - sub@.len() + 1,
            forall|k: int|
                0 <= k < i ==> #[trigger] v@.subrange(k, k + sub@.len() as int) != sub@,
        decreases v@.len() - sub@.len() + 1 - i,
    {
        let window = subrange_chars(v, i, i + sub.len());
        if eq_chars(&window, sub) {
            return true;
        }
        i = i + 1;
    }
    proof {
        assert forall|k: int| 0 <= k && k + sub@.len() <= v@.len() implies #[trigger] v@.subrange(
            k,
            k + sub@.len() as int,
        ) != sub@ by {
            assert(k < i);
        }
    }
    false
}

/// The characters of a `&str`, collected for index-based processing.
pub fn str_to_chars(s: &str) -> (r: Vec<char>)
    ensures
        r@ == s@,
{
    broadcast use vstd::string::group_string_axioms;

    let mut r: Vec<char> = Vec::new();
    for c in it: s.chars()
        invariant
            it.seq() == s@,
            r@ == it.seq().subrange(0, it.index() as int),
    {
        r.push(c);
        proof {
            assert(r@ =~= it.seq().subrange(0, it.index() + 1));
        }
    }
    proof {
        assert(s@.subrange(0, s@.len() as int) =~= s@);
    }
    r
}

/// Relies on `String: FromIterator<char>`: collecting characters yields the
/// string holding exactly those characters in order.
#[verifier::external_body]
pub(crate) fn chars_to_string(v: &Vec<char>) -> (r: String)
    ensures
        r@ == v@,
{
    v.iter().collect()
}

/// The character for one decimal digit.
pub open spec fn digit_char_of(d: nat) -> char {
    if d == 0 { '0' } else if d == 1 { '1' } else if d == 2 { '2' } else if d == 3 { '3' }
    else if d == 4 { '4' } else if d == 5 { '5' } else if d == 6 { '6' } else if d == 7 { '7' }
    else if d == 8 { '8' } else { '9' }
}

/// The decimal digits of `n`, most significant first, no sign and no padding.
pub open spec fn dec_digits(n: nat) -> Seq<char>
    decreases n,
{
    if n < 10 {
        seq![digit_char_of(n)]
    } else {
        dec_digits(n / 10).push(digit_char_of(n % 10))
    }
}

/// The decimal rendering of a signed value, `-` first when negative.
pub open spec fn dec_signed(n: int) -> Seq<char> {
    if n < 0 {
        seq!['-'] + dec_digits((0 - n) as nat)
    } else {
        dec_digits(n as nat)
    }
}

/// `n` zero-padded to at least `width` digits, as `{:0width$}` renders it.
pub open spec fn dec_padded(n: nat, width: nat) -> Seq<char>
    decreases width,
{
    if dec_digits(n).len() >= width {
        dec_digits(n)
    } else {
        seq!['0'] + dec_padded(n, (width - 1) as nat)
    }
}

pub fn digit_to_char(d: u64) -> (r: char)
    requires
        d < 10,
    ensures
        r == digit_char_of(d as nat),
{
    match d {
        0 => '0',
        1 => '1',
        2 => '2',
        3 => '3',
        4 => '4',
        5 => '5',
        6 => '6',
        7 => '7',
        8 => '8',
        _ => '9',
    }
}

pub fn push_dec_u64(n: u64, out: &mut Vec<char>)
    ensures
        final(out)@ == old(out)@ + dec_digits(n as nat),
    decreases n,
{
    if n < 10 {
        out.push(digit_to_char(n));
        proof {
            assert(out@ =~= old(out)@ + dec_digits(n as nat));
        }
    } else {
        push_dec_u64(n / 10, out);
        out.push(digit_to_char(n % 10));
        proof {
            assert(out@ =~= old(out)@ + dec_digits(n as nat));
        }
    }
}

pub fn u64_to_chars(n: u64) -> (r: Vec<char>)
    ensures
        r@ == dec_digits(n as nat),
{
    let mut out: Vec<char> = Vec::new();
    push_dec_u64(n, &mut out);
    proof {
        assert(out@ =~= dec_digits(n as nat));
    }
    out
}

pub fn i64_to_chars(n: i64) -> (r: Vec<char>)
    ensures
        r@ == dec_signed(n as int),
{
    if n < 0 {
        let mut out: Vec<char> = Vec::new();
        out.push('-');
        let mag: u64 = (-(n as i128)) as u64;
        push_dec_u64(mag, &mut out);
        proof {
            assert(out@ =~= dec_signed(n as int));
        }
        out
    } else {
        let out = u64_to_chars(n as u64);
        out
    }
}

proof fn lemma_dec_digits_len(n: nat)
    ensures
        dec_digits(n).len() >= 1,
        n < 10 ==> dec_digits(n).len() == 1,
        n < 100 ==> dec_digits(n).len() <= 2,
        n < 1000 ==> dec_digits(n).len() <= 3,
        n < 10000 ==> dec_digits(n).len() <= 4,
    decreases n,
{
    if n >= 10 {
        lemma_dec_digits_len(n / 10);
    }
}

proof fn lemma_dec_padded_shape(n: nat, width: nat)
    ensures
        dec_digits(n).len() >= width ==> dec_padded(n, width) == dec_digits(n),
        dec_digits(n).len() < width ==> dec_padded(n, width) == Seq::new(
            (width - dec_digits(n).len()) as nat,
            |j: int| '0',
        ) + dec_digits(n),
    decreases width,
{
    if dec_digits(n).len() < width {
        lemma_dec_padded_shape(n, (width - 1) as nat);
        assert(dec_padded(n, width) =~= Seq::new(
            (width - dec_digits(n).len()) as nat,
            |j: int| '0',
        ) + dec_digits(n));
    }
}

/// `n` rendered zero-padded to at least `width` digits.
pub fn u64_to_chars_padded(n: u64, width: u64) -> (r: Vec<char>)
    requires
        width <= 4,
    ensures
        r@ == dec_padded(n as nat, width as nat),
{
    let digits = u64_to_chars(n);
    proof {
        lemma_dec_digits_len(n as nat);
        lemma_dec_padded_shape(n as nat, width as nat);
    }
    if digits.len() >= width as usize {
        return digits;
    }
    let mut out: Vec<char> = Vec::new();
    let pad: usize = width as usize - digits.len();
    let mut i: usize = 0;
    while i < pad
        invariant
            i <= pad,
            out@ == Seq::new(i as nat, |j: int| '0'),
        decreases pad - i,
    {
        out.push('0');
        proof {
            assert(out@ =~= Seq::new((i + 1) as nat, |j: int| '0'));
        }
        i = i + 1;
    }
    let r = concat_chars(&out, &digits);
    proof {
        assert(r@ =~= dec_padded(n as nat, width as nat));
    }
    r
}

pub fn append_chars(out: &mut Vec<char>, add: &Vec<char>)
    ensures
        final(out)@ == old(out)@ + add@,
{
    for i in 0..add.len()
        invariant
            out@ == old(out)@ + add@.subrange(0, i as int),
    {
        out.push(add[i]);
        proof {
            assert(out@ =~= old(out)@ + add@.subrange(0, i + 1));
        }
    }
    proof {
        assert(out@ =~= old(out)@ + add@);
    }
}

/// Compares a character vector with a string slice.
pub fn eq_str(v: &Vec<char>, s: &str) -> (r: bool)
    ensures
        r == (v@ == s@),
{
    let sv = str_to_chars(s);
    eq_chars(v, &sv)
}

/// One carriage return stripped from the end, as line splitting does before
/// a line feed.
pub open spec fn strip_cr(l: Seq<char>) -> Seq<char> {
    if l.len() > 0 && l.last() == '\r' {
        l.drop_last()
    } else {
        l
    }
}

/// The lines of `s` while `cur` is the partial line already read: split at
/// `\n`, a preceding `\r` stripped, the final line ending optional.
pub open spec fn lines_rec(s: Seq<char>, cur: Seq<char>) -> Seq<Seq<char>>
    decreases s.len(),
{
    if s.len() == 0 {
        if cur.len() == 0 {
            Seq::empty()
        } else {
            seq![cur]
        }
    } else if s[0] == '\n' {
        seq![strip_cr(cur)] + lines_rec(s.drop_first(), Seq::empty())
    } else {
        lines_rec(s.drop_first(), cur.push(s[0]))
    }
}

/// The lines of a text, as `str::lines` yields them.
pub open spec fn split_lines_spec(s: Seq<char>) -> Seq<Seq<char>> {
    lines_rec(s, Seq::empty())
}

fn strip_cr_exec(l: Vec<char>) -> (r: Vec<char>)
    ensures
        r@ == strip_cr(l@),
{
    let mut l = l;
    if l.len() > 0 && l[l.len() - 1] == '\r' {
        l.pop();
    }
    l
}

/// Splits a text into lines.
pub fn split_lines(v: &Vec<char>) -> (r: Vec<Vec<char>>)
    ensures
        r.deep_view() == split_lines_spec(v@),
{
    let mut r: Vec<Vec<char>> = Vec::new();
    let mut cur: Vec<char> = Vec::new();
    let mut i: usize = 0;
    proof {
        assert(r.deep_view() =~~= Seq::<Seq<char>>::empty());
        assert(v@.subrange(0, v@.len() as int) =~= v@);
    }
    while i < v.len()
        invariant
            i <= v@.len(),
            split_lines_spec(v@) == r.deep_view() + lines_rec(
                v@.subrange(i as int, v@.len() as int),
                cur@,
            ),
        decreases v@.len() - i,
    {
        let ghost rest = v@.subrange(i as int, v@.len() as int);
        proof {
            assert(rest[0] == v@[i as int]);
            assert(rest.drop_first() =~= v@.subrange(i + 1, v@.len() as int));
        }
        let c = v[i];
        if c == '\n' {
            let ghost old_deep = r.deep_view();
            let ghost old_cur = cur@;
            let done = strip_cr_exec(cur);
            r.push(done);
            cur = Vec::new();
            proof {
                assert(r.deep_view() =~~= old_deep.push(strip_cr(old_cur)));
                assert(lines_rec(rest, old_cur) == seq![strip_cr(old_cur)] + lines_rec(
                    rest.drop_first(),
                    Seq::empty(),
                ));
                assert(old_deep.push(strip_cr(old_cur)) =~= old_deep + seq![strip_cr(old_cur)]);
                assert((old_deep + seq![strip_cr(old_cur)]) + lines_rec(
                    rest.drop_first(),
                    Seq::empty(),
                ) =~= old_deep + (seq![strip_cr(old_cur)] + lines_rec(
                    rest.drop_first(),
                    Seq::empty(),
                )));
                assert(cur@ =~= Seq::<char>::empty());
            }
        } else {
            let ghost old_cur = cur@;
            cur.push(c);
            proof {
                assert(lines_rec(rest, old_cur) == lines_rec(rest.drop_first(), old_cur.push(
                    v@[i as int],
                )));
            }
        }
        i = i + 1;
    }
    if cur.len() > 0 {
        let ghost old_deep = r.deep_view();
        let ghost old_cur = cur@;
        r.push(cur);
        proof {
            assert(r.deep_view() =~~= old_deep.push(old_cur));
            assert(old_deep.push(old_cur) =~= old_deep + seq![old_cur]);
            assert(v@.subrange(v@.len() as int, v@.len() as int) =~= Seq::<char>::empty());
        }
    } else {
        proof {
            assert(v@.subrange(v@.len() as int, v@.len() as int) =~= Seq::<char>::empty());
            assert(cur@ =~= Seq::<char>::empty());
        }
    }
    r
}

/// White space removed from the start only.
pub fn trim_start(v: &Vec<char>) -> (r: Vec<char>)
    ensures
        r@ == trim_start_spec(v@),
{
    let mut start: usize = 0;
    while start < v.len() && space_char(v[start])
        invariant
            start <= v.len(),
            forall|j: int| 0 <= j < start ==> is_space_char(v@[j]),
        decreases v.len() - start,
    {
        start = start + 1;
    }
    proof {
        lemma_trim_start_at(v@, start as int);
    }
    subrange_chars(v, start, v.len())
}

/// White space removed from the end only.
pub fn trim_end(v: &Vec<char>) -> (r: Vec<char>)
    ensures
        r@ == trim_end_spec(v@),
{
    let mut end: usize = v.len();
    while end > 0 && space_char(v[end - 1])
        invariant
            end <= v.len(),
            forall|j: int| end <= j < v.len() ==> is_space_char(v@[j]),
        decreases end,
    {
        end = end - 1;
    }
    proof {
        lemma_trim_end_at(v@, end as int);
    }
    subrange_chars(v, 0, end)
}

} // verus!
