//! String helpers shared by the code generators, each with its contract over
//! the character sequence that a `String` or `&str` views as.

use vstd::prelude::*;

verus! {

/// The elements of `parts` with `sep` between each two neighbours.
pub open spec fn seq_join(parts: Seq<Seq<char>>, sep: Seq<char>) -> Seq<char>
    decreases parts.len(),
{
    if parts.len() == 0 {
        Seq::empty()
    } else if parts.len() == 1 {
        parts[0]
    } else {
        seq_join(parts.drop_last(), sep) + sep + parts.last()
    }
}

/// The character sequences of a vector of strings.
pub open spec fn strings_view(v: Seq<String>) -> Seq<Seq<char>> {
    v.map_values(|s: String| s@)
}

/// Joins `parts` with `sep` in between, like `[String]::join`.
pub fn join_strings(parts: &Vec<String>, sep: &str) -> (res: String)
    ensures
        res@ == seq_join(strings_view(parts@), sep@),
{
    let mut res = String::new();
    let ghost views = strings_view(parts@);
    let mut i: usize = 0;
    while i < parts.len()
        invariant
            i <= parts.len(),
            views == strings_view(parts@),
            views.len() == parts@.len(),
            res@ == seq_join(views.take(i as int), sep@),
        decreases parts.len() - i,
    {
        proof {
            assert(views.take(i + 1).drop_last() =~= views.take(i as int));
            assert(views.take(i + 1).last() == parts@[i as int]@);
        }
        if i != 0 {
            res.append(sep);
        } else {
            assert(views.take(1) =~= seq![parts@[0]@]);
        }
        res.append(parts[i].as_str());
        i = i + 1;
    }
    assert(views.take(parts.len() as int) =~= views);
    res
}

/// Whether two string slices hold the same characters.
pub fn str_eq(a: &str, b: &str) -> (res: bool)
    ensures
        res == (a@ == b@),
{
    let x = a.to_string();
    let y = b.to_string();
    x == y
}

/// The concatenation of two string slices.
pub fn concat(a: &str, b: &str) -> (res: String)
    ensures
        res@ == a@ + b@,
{
    let mut r = a.to_string();
    r.append(b);
    r
}

/// The concatenation of three string slices.
pub fn concat3(a: &str, b: &str, c: &str) -> (res: String)
    ensures
        res@ == a@ + b@ + c@,
{
    let mut r = a.to_string();
    r.append(b);
    r.append(c);
    r
}

/// What `str::to_lowercase` gives back for a character sequence.
pub uninterp spec fn lowercase(s: Seq<char>) -> Seq<char>;

/// Calls `str::to_lowercase`; the result is `lowercase` of the argument.
#[verifier::external_body]
pub fn to_lower(s: &str) -> (res: String)
    ensures
        res@ == lowercase(s@),
{
    s.to_lowercase()
}

/// What `str::to_uppercase` gives back for a character sequence.
pub uninterp spec fn uppercase(s: Seq<char>) -> Seq<char>;

/// Calls `str::to_uppercase`; the result is `uppercase` of the argument.
#[verifier::external_body]
pub fn to_upper(s: &str) -> (res: String)
    ensures
        res@ == uppercase(s@),
{
    s.to_uppercase()
}

pub open spec fn is_digit(c: char) -> bool {
    '0' <= c && c <= '9'
}

pub open spec fn all_digits(s: Seq<char>) -> bool {
    forall|i: int| 0 <= i < s.len() ==> is_digit(#[trigger] s[i])
}

/// The number that a sequence of decimal digits writes.
pub open spec fn digits_value(s: Seq<char>) -> int
    decreases s.len(),
{
    if s.len() == 0 {
        0
    } else {
        digits_value(s.drop_last()) * 10 + (s.last() as int - '0' as int)
    }
}

/// The number that decimal digits write is not negative.
pub proof fn lemma_digits_value_nonneg(s: Seq<char>)
    requires
        all_digits(s),
    ensures
        digits_value(s) >= 0,
    decreases s.len(),
{
    if s.len() > 0 {
        assert(all_digits(s.drop_last())) by {
            assert forall|i: int| 0 <= i < s.drop_last().len() implies is_digit(
                #[trigger] s.drop_last()[i],
            ) by {
                assert(s.drop_last()[i] == s[i]);
            }
        }
        lemma_digits_value_nonneg(s.drop_last());
        assert(is_digit(s[s.len() - 1]));
    }
}

/// What `str::parse::<i64>` accepts and gives: an optional `+` or `-`,
/// then one or more decimal digits, the value within the range of `i64`.
pub open spec fn spec_parse_i64(s: Seq<char>) -> Option<int> {
    let neg = s.len() > 0 && s[0] == '-';
    let body = if s.len() > 0 && (s[0] == '-' || s[0] == '+') {
        s.drop_first()
    } else {
        s
    };
    if body.len() > 0 && all_digits(body) {
        let v = if neg {
            -digits_value(body)
        } else {
            digits_value(body)
        };
        if i64::MIN <= v && v <= i64::MAX {
            Some(v)
        } else {
            None
        }
    } else {
        None
    }
}

/// Calls `str::parse::<i64>`: `Some` of the value exactly where the text is an
/// optional sign followed by decimal digits whose value fits an `i64`.
#[verifier::external_body]
pub fn parse_i64(s: &str) -> (res: Option<i64>)
    ensures
        match spec_parse_i64(s@) {
            Some(v) => res == Some(v as i64),
            None => res is None,
        },
{
    s.parse::<i64>().ok()
}

/// The characters of a string slice, in a vector.
pub fn chars_of(s: &str) -> (res: Vec<char>)
    ensures
        res@ == s@,
{
    let n = s.unicode_len();
    let mut res: Vec<char> = Vec::new();
    let mut i: usize = 0;
    while i < n
        invariant
            i <= n,
            n == s@.len(),
            res@ == s@.take(i as int),
        decreases n - i,
    {
        let c = s.get_char(i);
        res.push(c);
        proof {
            assert(s@.take(i + 1) =~= s@.take(i as int).push(c));
        }
        i = i + 1;
    }
    assert(s@.take(n as int) =~= s@);
    res
}

/// The number of decimal digits at the front of `s`.
pub open spec fn leading_digits(s: Seq<char>) -> nat
    decreases s.len(),
{
    if s.len() > 0 && is_digit(s[0]) {
        1 + leading_digits(s.drop_first())
    } else {
        0
    }
}

/// `c` is the lower-case ASCII letter `lower` in either case.
pub open spec fn ci_char(c: char, lower: char) -> bool {
    c == lower || (c as int) == (lower as int) - 32
}

/// `t` spells the lower-case word `w` with letters in either case.
pub open spec fn eq_ci(t: Seq<char>, w: Seq<char>) -> bool {
    t.len() == w.len() && forall|i: int| 0 <= i < t.len() ==> ci_char(#[trigger] t[i], w[i])
}

/// `Exp ::= 'e' Sign? Digit+` (either case of `e`).
pub open spec fn exponent_syntax(r: Seq<char>) -> bool {
    &&& r.len() >= 2
    &&& ci_char(r[0], 'e')
    &&& {
        let d = if r[1] == '+' || r[1] == '-' {
            r.skip(2)
        } else {
            r.skip(1)
        };
        d.len() > 0 && all_digits(d)
    }
}

/// `Number ::= ( Digit+ | Digit+ '.' Digit* | Digit* '.' Digit+ ) Exp?`
pub open spec fn number_syntax(t: Seq<char>) -> bool {
    let a = leading_digits(t);
    let rest = t.skip(a as int);
    if rest.len() > 0 && rest[0] == '.' {
        let frac = rest.skip(1);
        let b = leading_digits(frac);
        let tail = frac.skip(b as int);
        a + b >= 1 && (tail.len() == 0 || exponent_syntax(tail))
    } else {
        a >= 1 && (rest.len() == 0 || exponent_syntax(rest))
    }
}

/// The texts that `str::parse::<f64>` accepts, as its documentation writes
/// them: `Sign? ( 'inf' | 'infinity' | 'nan' | Number )`, compared after
/// lower-casing.
pub open spec fn float_syntax(s: Seq<char>) -> bool {
    let t = if s.len() > 0 && (s[0] == '+' || s[0] == '-') {
        s.skip(1)
    } else {
        s
    };
    eq_ci(t, "inf"@) || eq_ci(t, "infinity"@) || eq_ci(t, "nan"@) || number_syntax(t)
}

proof fn lemma_leading_digits_step(s: Seq<char>, i: int)
    requires
        0 <= i <= s.len(),
    ensures
        i < s.len() && is_digit(s[i]) ==> leading_digits(s.skip(i)) == 1 + leading_digits(
            s.skip(i + 1),
        ),
        !(i < s.len() && is_digit(s[i])) ==> leading_digits(s.skip(i)) == 0,
{
    if i < s.len() {
        assert(s.skip(i).drop_first() =~= s.skip(i + 1));
    }
}

/// The number of decimal digits in `v` from `start` on, up to the first
/// other character.
fn count_digits(v: &Vec<char>, start: usize) -> (n: usize)
    requires
        start <= v.len(),
    ensures
        n == leading_digits(v@.skip(start as int)),
        start + n <= v.len(),
{
    let mut i = start;
    while i < v.len() && '0' <= v[i] && v[i] <= '9'
        invariant
            start <= i <= v.len(),
            leading_digits(v@.skip(start as int)) == (i - start) + leading_digits(
                v@.skip(i as int),
            ),
        decreases v.len() - i,
    {
        proof {
            lemma_leading_digits_step(v@, i as int);
        }
        i = i + 1;
    }
    proof {
        lemma_leading_digits_step(v@, i as int);
    }
    i - start
}

fn ci_char_exec(c: char, lower: char) -> (res: bool)
    requires
        'a' <= lower <= 'z',
    ensures
        res == ci_char(c, lower),
{
    c == lower || (c as u32) + 32 == (lower as u32)
}

/// Whether `v` from `start` on spells the lower-case word `w` in either case.
fn eq_ci_from(v: &Vec<char>, start: usize, w: &str) -> (res: bool)
    requires
        start <= v.len(),
        forall|i: int| 0 <= i < w@.len() ==> 'a' <= #[trigger] w@[i] <= 'z',
    ensures
        res == eq_ci(v@.skip(start as int), w@),
{
    let wc = chars_of(w);
    if v.len() - start != wc.len() {
        return false;
    }
    let mut i: usize = 0;
    while i < wc.len()
        invariant
            wc@ == w@,
            v.len() - start == wc.len(),
            start <= v.len(),
            i <= wc.len(),
            forall|j: int| 0 <= j < w@.len() ==> 'a' <= #[trigger] w@[j] <= 'z',
            forall|j: int| 0 <= j < i ==> ci_char(#[trigger] v@.skip(start as int)[j], w@[j]),
        decreases wc.len() - i,
    {
        if !ci_char_exec(v[start + i], wc[i]) {
            assert(!ci_char(v@.skip(start as int)[i as int], w@[i as int]));
            return false;
        }
        i = i + 1;
    }
    true
}

fn all_digits_from(v: &Vec<char>, start: usize) -> (res: bool)
    requires
        start <= v.len(),
    ensures
        res == all_digits(v@.skip(start as int)),
{
    let mut i = start;
    while i < v.len()
        invariant
            start <= i <= v.len(),
            forall|j: int| 0 <= j < i - start ==> is_digit(#[trigger] v@.skip(start as int)[j]),
        decreases v.len() - i,
    {
        if !('0' <= v[i] && v[i] <= '9') {
            assert(!is_digit(v@.skip(start as int)[i - start]));
            return false;
        }
        i = i + 1;
    }
    true
}

fn exponent_from(v: &Vec<char>, start: usize) -> (res: bool)
    requires
        start <= v.len(),
    ensures
        res == exponent_syntax(v@.skip(start as int)),
{
    let ghost r = v@.skip(start as int);
    if v.len() - start < 2 {
        return false;
    }
    if !ci_char_exec(v[start], 'e') {
        return false;
    }
    if v[start + 1] == '+' || v[start + 1] == '-' {
        assert(r.skip(2) =~= v@.skip(start + 2));
        v.len() - start > 2 && all_digits_from(v, start + 2)
    } else {
        assert(r.skip(1) =~= v@.skip(start + 1));
        all_digits_from(v, start + 1)
    }
}

fn number_from(v: &Vec<char>, start: usize) -> (res: bool)
    requires
        start <= v.len(),
    ensures
        res == number_syntax(v@.skip(start as int)),
{
    let ghost t = v@.skip(start as int);
    let a = count_digits(v, start);
    let p = start + a;
    assert(t.skip(a as int) =~= v@.skip(p as int));
    if p < v.len() && v[p] == '.' {
        assert(t.skip(a as int).skip(1) =~= v@.skip(p + 1));
        let b = count_digits(v, p + 1);
        let q = p + 1 + b;
        assert(t.skip(a as int).skip(1).skip(b as int) =~= v@.skip(q as int));
        a + b >= 1 && (q == v.len() || exponent_from(v, q))
    } else {
        a >= 1 && (p == v.len() || exponent_from(v, p))
    }
}

/// Whether `str::parse::<f64>` would accept `s`: its documented grammar,
/// checked character by character.
pub fn is_float_text(s: &str) -> (res: bool)
    ensures
        res == float_syntax(s@),
{
    let v = chars_of(s);
    let start: usize = if v.len() > 0 && (v[0] == '+' || v[0] == '-') {
        1
    } else {
        0
    };
    proof {
        if start == 0 {
            assert(v@.skip(0) =~= v@);
        }
        reveal_strlit("inf");
        reveal_strlit("infinity");
        reveal_strlit("nan");
    }
    eq_ci_from(&v, start, "inf") || eq_ci_from(&v, start, "infinity") || eq_ci_from(&v, start, "nan")
        || number_from(&v, start)
}

// ---------------------------------------------------------------------------
// Prefixes, splitting, trimming and replacing
// ---------------------------------------------------------------------------

/// `str::strip_prefix`: the rest of `s` after `p` where `s` starts with `p`.
pub open spec fn spec_strip_prefix(s: Seq<char>, p: Seq<char>) -> Option<Seq<char>> {
    if p.len() <= s.len() && s.take(p.len() as int) == p {
        Some(s.skip(p.len() as int))
    } else {
        None
    }
}

/// `str::split` on one character: the pieces between the occurrences of `c`
/// (an empty text gives one empty piece).
pub open spec fn spec_split(s: Seq<char>, c: char) -> Seq<Seq<char>>
    decreases s.len(),
{
    if s.len() == 0 {
        seq![Seq::empty()]
    } else {
        let prev = spec_split(s.drop_last(), c);
        if s.last() == c {
            prev.push(Seq::empty())
        } else {
            prev.update(prev.len() - 1, prev.last().push(s.last()))
        }
    }
}

/// The characters with the Unicode `White_Space` property, which
/// `char::is_whitespace` and `str::trim` go by.
pub open spec fn is_white_space(c: char) -> bool {
    ||| '\u{9}' <= c <= '\u{d}'
    ||| c == ' '
    ||| c == '\u{85}'
    ||| c == '\u{a0}'
    ||| c == '\u{1680}'
    ||| '\u{2000}' <= c <= '\u{200a}'
    ||| c == '\u{2028}'
    ||| c == '\u{2029}'
    ||| c == '\u{202f}'
    ||| c == '\u{205f}'
    ||| c == '\u{3000}'
}

/// Removes from both ends of `s` the characters for which `strip` holds.
pub open spec fn spec_trim_by(s: Seq<char>, strip: spec_fn(char) -> bool) -> Seq<char>
    decreases s.len(),
{
    if s.len() > 0 && strip(s[0]) {
        spec_trim_by(s.drop_first(), strip)
    } else if s.len() > 0 && strip(s.last()) {
        spec_trim_by(s.drop_last(), strip)
    } else {
        s
    }
}

/// `str::trim`.
pub open spec fn spec_trim(s: Seq<char>) -> Seq<char> {
    spec_trim_by(s, |c: char| is_white_space(c))
}

/// The test "is the character `m`".
pub open spec fn eq_char(m: char) -> spec_fn(char) -> bool {
    |c: char| c == m
}

/// `str::trim_matches` with one character.
pub open spec fn spec_trim_matches(s: Seq<char>, m: char) -> Seq<char> {
    spec_trim_by(s, eq_char(m))
}

/// `str::replace`: each occurrence of `from`, taken from the left without
/// overlap, replaced by `to`.
pub open spec fn spec_replace(s: Seq<char>, from: Seq<char>, to: Seq<char>) -> Seq<char>
    decreases s.len(),
{
    if from.len() == 0 || s.len() < from.len() {
        s
    } else if s.take(from.len() as int) == from {
        to + spec_replace(s.skip(from.len() as int), from, to)
    } else {
        seq![s[0]] + spec_replace(s.drop_first(), from, to)
    }
}

/// Whether `v[start..]` begins with the characters of `p`.
fn has_prefix_at(v: &Vec<char>, start: usize, p: &Vec<char>) -> (res: bool)
    requires
        start <= v.len(),
    ensures
        res == (p@.len() <= v@.len() - start && v@.subrange(start as int, start + p@.len()) == p@),
{
    if p.len() > v.len() - start {
        return false;
    }
    let mut i: usize = 0;
    while i < p.len()
        invariant
            i <= p@.len(),
            start <= v@.len(),
            p@.len() <= v@.len() - start,
            forall|j: int| 0 <= j < i ==> v@[start + j] == p@[j],
        decreases p@.len() - i,
    {
        assert(start + i < v.len());
        if v[start + i] != p[i] {
            assert(v@.subrange(start as int, start + p@.len())[i as int] != p@[i as int]);
            return false;
        }
        i = i + 1;
    }
    assert(v@.subrange(start as int, start + p@.len()) =~= p@);
    true
}

/// `str::strip_prefix`, giving an owned string.
pub fn strip_prefix_owned(s: &str, p: &str) -> (res: Option<String>)
    ensures
        match spec_strip_prefix(s@, p@) {
            Some(r) => res is Some && res->0@ == r,
            None => res is None,
        },
{
    let v = chars_of(s);
    let pv = chars_of(p);
    if has_prefix_at(&v, 0, &pv) {
        assert(v@.subrange(0, pv@.len() as int) =~= s@.take(p@.len() as int));
        let rest = s.substring_char(pv.len(), v.len());
        assert(rest@ =~= s@.skip(p@.len() as int));
        Some(rest.to_string())
    } else {
        assert(v@.subrange(0, pv@.len() as int) =~= s@.take(p@.len() as int) || p@.len() > s@.len());
        None
    }
}

/// `str::strip_suffix`: what comes before `p` where `s` ends with `p`.
pub open spec fn spec_strip_suffix(s: Seq<char>, p: Seq<char>) -> Option<Seq<char>> {
    if p.len() <= s.len() && s.skip(s.len() - p.len()) == p {
        Some(s.take(s.len() - p.len()))
    } else {
        None
    }
}

/// `str::strip_suffix`, giving an owned string.
pub fn strip_suffix_owned(s: &str, p: &str) -> (res: Option<String>)
    ensures
        match spec_strip_suffix(s@, p@) {
            Some(r) => res is Some && res->0@ == r,
            None => res is None,
        },
{
    let v = chars_of(s);
    let pv = chars_of(p);
    if pv.len() > v.len() {
        return None;
    }
    let start = v.len() - pv.len();
    if has_prefix_at(&v, start, &pv) {
        assert(v@.subrange(start as int, start + pv@.len()) =~= s@.skip(s@.len() - p@.len()));
        let rest = s.substring_char(0, start);
        assert(rest@ =~= s@.take(s@.len() - p@.len()));
        Some(rest.to_string())
    } else {
        assert(v@.subrange(start as int, start + pv@.len()) =~= s@.skip(s@.len() - p@.len()));
        None
    }
}

/// `str::split` on one character, giving owned pieces.
pub fn split_char(s: &str, c: char) -> (res: Vec<String>)
    ensures
        strings_view(res@) == spec_split(s@, c),
{
    let v = chars_of(s);
    let n = v.len();
    let mut pieces: Vec<String> = Vec::new();
    let mut seg_start: usize = 0;
    let mut i: usize = 0;
    assert(s@.subrange(0, 0) =~= Seq::<char>::empty());
    assert(strings_view(pieces@) =~= Seq::<Seq<char>>::empty());
    while i < n
        invariant
            i <= n,
            n == s@.len(),
            v@ == s@,
            seg_start <= i,
            spec_split(s@.subrange(0, i as int), c) == strings_view(pieces@).push(
                s@.subrange(seg_start as int, i as int),
            ),
        decreases n - i,
    {
        let ghost before = strings_view(pieces@);
        proof {
            assert(s@.subrange(0, i + 1).drop_last() =~= s@.subrange(0, i as int));
            assert(s@.subrange(0, i + 1).last() == v@[i as int]);
        }
        if v[i] == c {
            let piece = s.substring_char(seg_start, i);
            pieces.push(piece.to_string());
            proof {
                assert(strings_view(pieces@) =~= before.push(s@.subrange(seg_start as int, i as int)));
                assert(s@.subrange(i + 1, i + 1) =~= Seq::<char>::empty());
            }
            seg_start = i + 1;
        } else {
            proof {
                assert(s@.subrange(seg_start as int, i + 1) =~= s@.subrange(seg_start as int, i as int).push(
                    v@[i as int],
                ));
                assert(before.push(s@.subrange(seg_start as int, i as int)).update(
                    before.len() as int,
                    s@.subrange(seg_start as int, i as int).push(v@[i as int]),
                ) =~= before.push(s@.subrange(seg_start as int, i + 1)));
            }
        }
        i = i + 1;
    }
    let last = s.substring_char(seg_start, n);
    let ghost before = strings_view(pieces@);
    pieces.push(last.to_string());
    assert(strings_view(pieces@) =~= before.push(last@));
    assert(s@.subrange(0, n as int) =~= s@);
    pieces
}

proof fn lemma_trim_step_front(s: Seq<char>, a: int, b: int, strip: spec_fn(char) -> bool)
    requires
        0 <= a < b <= s.len(),
        strip(s[a]),
    ensures
        spec_trim_by(s.subrange(a, b), strip) == spec_trim_by(s.subrange(a + 1, b), strip),
{
    assert(s.subrange(a, b).drop_first() =~= s.subrange(a + 1, b));
}

proof fn lemma_trim_step_back(s: Seq<char>, a: int, b: int, strip: spec_fn(char) -> bool)
    requires
        0 <= a < b <= s.len(),
        !strip(s[a]),
        strip(s[b - 1]),
    ensures
        spec_trim_by(s.subrange(a, b), strip) == spec_trim_by(s.subrange(a, b - 1), strip),
{
    assert(s.subrange(a, b).drop_last() =~= s.subrange(a, b - 1));
}

fn is_white_space_exec(c: char) -> (res: bool)
    ensures
        res == is_white_space(c),
{
    ('\u{9}' <= c && c <= '\u{d}') || c == ' ' || c == '\u{85}' || c == '\u{a0}' || c == '\u{1680}'
        || ('\u{2000}' <= c && c <= '\u{200a}') || c == '\u{2028}' || c == '\u{2029}' || c
        == '\u{202f}' || c == '\u{205f}' || c == '\u{3000}'
}

/// `str::trim`, giving an owned string.
pub fn trim_owned(s: &str) -> (res: String)
    ensures
        res@ == spec_trim(s@),
{
    let v = chars_of(s);
    let ghost strip = |c: char| is_white_space(c);
    let mut a: usize = 0;
    let mut b: usize = v.len();
    assert(s@.subrange(0, s@.len() as int) =~= s@);
    while a < b && is_white_space_exec(v[a])
        invariant
            a <= b <= v@.len(),
            v@ == s@,
            b == v@.len(),
            spec_trim_by(s@.subrange(a as int, b as int), strip) == spec_trim_by(s@, strip),
            strip == (|c: char| is_white_space(c)),
        decreases b - a,
    {
        proof {
            lemma_trim_step_front(s@, a as int, b as int, strip);
        }
        a = a + 1;
    }
    while a < b && is_white_space_exec(v[b - 1])
        invariant
            a <= b <= v@.len(),
            v@ == s@,
            a < b ==> !is_white_space(v@[a as int]),
            spec_trim_by(s@.subrange(a as int, b as int), strip) == spec_trim_by(s@, strip),
            strip == (|c: char| is_white_space(c)),
        decreases b - a,
    {
        proof {
            if a < b - 1 {
                lemma_trim_step_back(s@, a as int, b as int, strip);
            } else {
                assert(s@.subrange(a as int, b as int).drop_first() =~= s@.subrange(b as int, b as int));
                assert(s@.subrange(a as int, b - 1) =~= s@.subrange(b as int, b as int));
            }
        }
        b = b - 1;
    }
    assert(strip =~= (|c: char| is_white_space(c)));
    let r = s.substring_char(a, b);
    r.to_string()
}

/// `str::trim_matches` with one character, giving an owned string.
pub fn trim_matches_owned(s: &str, m: char) -> (res: String)
    ensures
        res@ == spec_trim_matches(s@, m),
{
    let v = chars_of(s);
    let ghost strip = eq_char(m);
    let mut a: usize = 0;
    let mut b: usize = v.len();
    assert(s@.subrange(0, s@.len() as int) =~= s@);
    while a < b && v[a] == m
        invariant
            a <= b <= v@.len(),
            v@ == s@,
            b == v@.len(),
            spec_trim_by(s@.subrange(a as int, b as int), strip) == spec_trim_by(s@, strip),
            strip == eq_char(m),
        decreases b - a,
    {
        proof {
            lemma_trim_step_front(s@, a as int, b as int, strip);
        }
        a = a + 1;
    }
    while a < b && v[b - 1] == m
        invariant
            a <= b <= v@.len(),
            v@ == s@,
            a < b ==> v@[a as int] != m,
            spec_trim_by(s@.subrange(a as int, b as int), strip) == spec_trim_by(s@, strip),
            strip == eq_char(m),
        decreases b - a,
    {
        proof {
            if a < b - 1 {
                lemma_trim_step_back(s@, a as int, b as int, strip);
            } else {
                assert(s@.subrange(a as int, b as int).drop_first() =~= s@.subrange(b as int, b as int));
                assert(s@.subrange(a as int, b - 1) =~= s@.subrange(b as int, b as int));
            }
        }
        b = b - 1;
    }

    let r = s.substring_char(a, b);
    r.to_string()
}

/// `str::replace` of a non-empty pattern.
pub fn replace_owned(s: &str, from: &str, to: &str) -> (res: String)
    requires
        from@.len() > 0,
    ensures
        res@ == spec_replace(s@, from@, to@),
{
    let v = chars_of(s);
    let fv = chars_of(from);
    let n = v.len();
    let mut out = String::new();
    let mut i: usize = 0;
    let mut copied: usize = 0;
    assert(s@.skip(0) =~= s@);
    assert(s@.subrange(0, 0) =~= Seq::<char>::empty());
    assert(out@ + s@.subrange(0, 0) + spec_replace(s@.skip(0), from@, to@) =~= spec_replace(
        s@,
        from@,
        to@,
    ));
    while i < n
        invariant
            copied <= i <= n,
            n == s@.len(),
            v@ == s@,
            fv@ == from@,
            from@.len() > 0,
            out@ + s@.subrange(copied as int, i as int) + spec_replace(s@.skip(i as int), from@, to@)
                == spec_replace(s@, from@, to@),
        decreases n - i,
    {
        let ghost rest = s@.skip(i as int);
        let ghost before = out@;
        let ghost pending = s@.subrange(copied as int, i as int);
        if has_prefix_at(&v, i, &fv) {
            assert(rest.take(from@.len() as int) =~= v@.subrange(i as int, i + fv@.len()));
            assert(rest.skip(from@.len() as int) =~= s@.skip(i + fv@.len()));
            let piece = s.substring_char(copied, i);
            out.append(piece);
            out.append(to);
            assert(s@.subrange(i + fv@.len(), i + fv@.len()) =~= Seq::<char>::empty());
            assert(out@ + s@.subrange(i + fv@.len(), i + fv@.len()) + spec_replace(
                s@.skip(i + fv@.len()),
                from@,
                to@,
            ) =~= before + pending + (to@ + spec_replace(s@.skip(i + fv@.len()), from@, to@)));
            i = i + fv.len();
            copied = i;
        } else {
            proof {
                if rest.len() >= from@.len() {
                    assert(rest.take(from@.len() as int) =~= v@.subrange(i as int, i + fv@.len()));
                    assert(rest.drop_first() =~= s@.skip(i + 1));
                } else {
                    assert(rest.drop_first() =~= s@.skip(i + 1));
                    assert(spec_replace(rest.drop_first(), from@, to@) == rest.drop_first());
                    assert(rest =~= seq![rest[0]] + rest.drop_first());
                }
                assert(s@.subrange(copied as int, i + 1) =~= pending.push(s@[i as int]));
                assert(before + s@.subrange(copied as int, i + 1) + spec_replace(
                    s@.skip(i + 1),
                    from@,
                    to@,
                ) =~= before + pending + (seq![s@[i as int]] + spec_replace(
                    s@.skip(i + 1),
                    from@,
                    to@,
                )));
            }
            i = i + 1;
        }
    }
    let piece = s.substring_char(copied, n);
    let ghost before = out@;
    out.append(piece);
    assert(s@.skip(n as int) =~= Seq::<char>::empty());
    assert(before + piece@ + Seq::<char>::empty() =~= out@);
    out
}

// ---------------------------------------------------------------------------
// Sets of names kept as sequences without repetition
// ---------------------------------------------------------------------------

/// `acc` with `x` added at the end unless it is already there.
pub open spec fn spec_insert(acc: Seq<Seq<char>>, x: Seq<char>) -> Seq<Seq<char>> {
    if acc.contains(x) {
        acc
    } else {
        acc.push(x)
    }
}

/// `acc` with each element of `s` inserted in turn.
pub open spec fn spec_insert_all(acc: Seq<Seq<char>>, s: Seq<Seq<char>>) -> Seq<Seq<char>>
    decreases s.len(),
{
    if s.len() == 0 {
        acc
    } else {
        spec_insert(spec_insert_all(acc, s.drop_last()), s.last())
    }
}

/// The distinct elements of `s`, in the order of their first occurrence.
pub open spec fn spec_dedup(s: Seq<Seq<char>>) -> Seq<Seq<char>> {
    spec_insert_all(Seq::empty(), s)
}

pub proof fn lemma_insert_all_push(acc: Seq<Seq<char>>, s: Seq<Seq<char>>, x: Seq<char>)
    ensures
        spec_insert_all(acc, s.push(x)) == spec_insert(spec_insert_all(acc, s), x),
{
    assert(s.push(x).drop_last() =~= s);
}

pub proof fn lemma_insert_all_concat(acc: Seq<Seq<char>>, s: Seq<Seq<char>>, t: Seq<Seq<char>>)
    ensures
        spec_insert_all(acc, s + t) == spec_insert_all(spec_insert_all(acc, s), t),
    decreases t.len(),
{
    if t.len() == 0 {
        assert(s + t =~= s);
    } else {
        lemma_insert_all_concat(acc, s, t.drop_last());
        assert((s + t).drop_last() =~= s + t.drop_last());
    }
}

/// Inserting keeps a sequence free of repetition and adds exactly the
/// inserted elements.
pub proof fn lemma_insert_all_contents(acc: Seq<Seq<char>>, s: Seq<Seq<char>>)
    requires
        acc.no_duplicates(),
    ensures
        spec_insert_all(acc, s).no_duplicates(),
        forall|x: Seq<char>| #[trigger]
            spec_insert_all(acc, s).contains(x) <==> (acc.contains(x) || s.contains(x)),
    decreases s.len(),
{
    if s.len() > 0 {
        lemma_insert_all_contents(acc, s.drop_last());
        let prev = spec_insert_all(acc, s.drop_last());
        assert forall|x: Seq<char>| #[trigger]
            spec_insert_all(acc, s).contains(x) <==> (acc.contains(x) || s.contains(x)) by {
            if s.contains(x) && !s.drop_last().contains(x) {
                assert(x == s.last()) by {
                    let k = choose|k: int| 0 <= k < s.len() && s[k] == x;
                    if k < s.len() - 1 {
                        assert(s.drop_last()[k] == x);
                    }
                }
            }
            if s.drop_last().contains(x) {
                let k = choose|k: int| 0 <= k < s.drop_last().len() && s.drop_last()[k] == x;
                assert(s[k] == x);
            }
            if x == s.last() {
                assert(s[s.len() - 1] == x);
            }
            if !prev.contains(s.last()) {
                if prev.push(s.last()).contains(x) && x != s.last() {
                    let k = choose|k: int| 0 <= k < prev.push(s.last()).len() && prev.push(s.last())[k] == x;
                    assert(prev[k] == x);
                }
                if prev.contains(x) {
                    let k = choose|k: int| 0 <= k < prev.len() && prev[k] == x;
                    assert(prev.push(s.last())[k] == x);
                }
                if x == s.last() {
                    assert(prev.push(s.last())[prev.len() as int] == x);
                }
            }
        }
    }
}

/// Adds `x` to `v` unless a string with the same characters is there.
pub fn insert_unique(v: &mut Vec<String>, x: &String)
    ensures
        strings_view(final(v)@) == spec_insert(strings_view(old(v)@), x@),
{
    let mut i: usize = 0;
    while i < v.len()
        invariant
            i <= v@.len(),
            forall|j: int| 0 <= j < i ==> v@[j]@ != x@,
        decreases v@.len() - i,
    {
        if v[i] == *x {
            assert(strings_view(v@)[i as int] == x@);
            return;
        }
        i = i + 1;
    }
    assert(!strings_view(v@).contains(x@)) by {
        if strings_view(v@).contains(x@) {
            let k = choose|k: int| 0 <= k < strings_view(v@).len() && strings_view(v@)[k] == x@;
            assert(v@[k]@ == x@);
        }
    }
    let ghost old_v = v@;
    v.push(x.clone());
    assert(strings_view(v@) =~= strings_view(old_v).push(x@));
}

/// `str::contains` of a text: `sub` occurs somewhere in `s`.
pub open spec fn spec_contains(s: Seq<char>, sub: Seq<char>) -> bool {
    exists|i: int| 0 <= i && i + sub.len() <= s.len() && #[trigger] s.subrange(i, i + sub.len()) == sub
}

/// `str::contains` of a text.
pub fn str_contains(s: &str, sub: &str) -> (res: bool)
    ensures
        res == spec_contains(s@, sub@),
{
    let v = chars_of(s);
    let p = chars_of(sub);
    if p.len() > v.len() {
        return false;
    }
    if p.len() == 0 {
        assert(s@.subrange(0int, 0int + sub@.len()) =~= sub@);
        return true;
    }
    let mut i: usize = 0;
    while i <= v.len() - p.len()
        invariant
            v@ == s@,
            p@ == sub@,
            1 <= p@.len() <= v@.len(),
            i <= v@.len() - p@.len() + 1,
            forall|j: int| 0 <= j < i ==> #[trigger] s@.subrange(j, j + sub@.len()) != sub@,
        decreases v@.len() - p@.len() + 1 - i,
    {
        if has_prefix_at(&v, i, &p) {
            return true;
        }
        i = i + 1;
    }
    false
}

// ---------------------------------------------------------------------------
// Decimal numbers
// ---------------------------------------------------------------------------

/// The character of a decimal digit.
pub open spec fn spec_digit_char(d: int) -> char {
    if d == 0 {
        '0'
    } else if d == 1 {
        '1'
    } else if d == 2 {
        '2'
    } else if d == 3 {
        '3'
    } else if d == 4 {
        '4'
    } else if d == 5 {
        '5'
    } else if d == 6 {
        '6'
    } else if d == 7 {
        '7'
    } else if d == 8 {
        '8'
    } else {
        '9'
    }
}

/// The decimal digits of `n`, without leading zeros (`0` for zero), as
/// integers' `to_string` writes them.
pub open spec fn spec_decimal(n: nat) -> Seq<char>
    decreases n,
{
    if n < 10 {
        seq![spec_digit_char(n as int)]
    } else {
        spec_decimal(n / 10).push(spec_digit_char((n % 10) as int))
    }
}

/// The decimal text of an integer: a `-` before the digits of a negative one.
pub open spec fn spec_decimal_int(v: int) -> Seq<char> {
    if v < 0 {
        "-"@ + spec_decimal((-v) as nat)
    } else {
        spec_decimal(v as nat)
    }
}

fn digit_str(d: u64) -> (res: &'static str)
    requires
        d < 10,
    ensures
        res@ == seq![spec_digit_char(d as int)],
{
    proof {
        reveal_strlit("0");
        reveal_strlit("1");
        reveal_strlit("2");
        reveal_strlit("3");
        reveal_strlit("4");
        reveal_strlit("5");
        reveal_strlit("6");
        reveal_strlit("7");
        reveal_strlit("8");
        reveal_strlit("9");
    }
    let r = if d == 0 {
        "0"
    } else if d == 1 {
        "1"
    } else if d == 2 {
        "2"
    } else if d == 3 {
        "3"
    } else if d == 4 {
        "4"
    } else if d == 5 {
        "5"
    } else if d == 6 {
        "6"
    } else if d == 7 {
        "7"
    } else if d == 8 {
        "8"
    } else {
        "9"
    };
    assert(r@ =~= seq![spec_digit_char(d as int)]);
    r
}

/// `u64::to_string`: the decimal digits of `n`.
pub fn u64_to_decimal(n: u64) -> (res: String)
    ensures
        res@ == spec_decimal(n as nat),
    decreases n,
{
    if n < 10 {
        digit_str(n).to_string()
    } else {
        let mut s = u64_to_decimal(n / 10);
        s.append(digit_str(n % 10));
        s
    }
}

/// `i64::to_string`: the decimal text of `v`.
pub fn i64_to_decimal(v: i64) -> (res: String)
    ensures
        res@ == spec_decimal_int(v as int),
{
    if v < 0 {
        let magnitude: u64 = (-(v as i128)) as u64;
        let digits = u64_to_decimal(magnitude);
        concat("-", digits.as_str())
    } else {
        u64_to_decimal(v as u64)
    }
}

/// What `str::parse::<u32>` accepts and gives: an optional `+`, then one or
/// more decimal digits whose value fits a `u32`.
pub open spec fn spec_parse_u32(s: Seq<char>) -> Option<int> {
    let body = if s.len() > 0 && s[0] == '+' {
        s.drop_first()
    } else {
        s
    };
    if body.len() > 0 && all_digits(body) && digits_value(body) <= u32::MAX {
        Some(digits_value(body))
    } else {
        None
    }
}

/// Calls `str::parse::<u32>`: `Some` of the value exactly where the text is an
/// optional `+` followed by decimal digits whose value fits a `u32`.
#[verifier::external_body]
pub fn parse_u32(s: &str) -> (res: Option<u32>)
    ensures
        match spec_parse_u32(s@) {
            Some(v) => res == Some(v as u32),
            None => res is None,
        },
{
    s.parse::<u32>().ok()
}


/// What `str::parse::<u64>` accepts and gives: an optional `+`, then one or
/// more decimal digits whose value fits a `u64`.
pub open spec fn spec_parse_u64(s: Seq<char>) -> Option<int> {
    let body = if s.len() > 0 && s[0] == '+' {
        s.drop_first()
    } else {
        s
    };
    if body.len() > 0 && all_digits(body) && digits_value(body) <= u64::MAX {
        Some(digits_value(body))
    } else {
        None
    }
}

/// Calls `str::parse::<u64>`: `Some` of the value exactly where the text is an
/// optional `+` followed by decimal digits whose value fits a `u64`.
#[verifier::external_body]
pub fn parse_u64(s: &str) -> (res: Option<u64>)
    ensures
        match spec_parse_u64(s@) {
            Some(v) => res == Some(v as u64),
            None => res is None,
        },
{
    s.parse::<u64>().ok()
}


/// What `Debug` writes for a string: the text in double quotes, with
/// special characters escaped.
pub uninterp spec fn debug_quoted(s: Seq<char>) -> Seq<char>;

/// Calls `<str as Debug>::fmt` through `format!("{:?}", ..)`; the result is
/// `debug_quoted` of the argument.
#[verifier::external_body]
pub fn debug_str(s: &str) -> (res: String)
    ensures
        res@ == debug_quoted(s@),
{
    format!("{:?}", s)
}


/// The order in which `str` compares: code point by code point, a proper
/// prefix first.
pub open spec fn seq_lt(a: Seq<char>, b: Seq<char>) -> bool
    decreases a.len(),
{
    if a.len() == 0 {
        b.len() > 0
    } else if b.len() == 0 {
        false
    } else if a[0] != b[0] {
        (a[0] as int) < (b[0] as int)
    } else {
        seq_lt(a.drop_first(), b.drop_first())
    }
}

/// No string comes before itself.
pub proof fn lemma_seq_lt_irreflexive(a: Seq<char>)
    ensures
        !seq_lt(a, a),
    decreases a.len(),
{
    if a.len() > 0 {
        lemma_seq_lt_irreflexive(a.drop_first());
    }
}

/// The order is transitive.
pub proof fn lemma_seq_lt_transitive(a: Seq<char>, b: Seq<char>, c: Seq<char>)
    requires
        seq_lt(a, b),
        seq_lt(b, c),
    ensures
        seq_lt(a, c),
    decreases a.len(),
{
    if a.len() > 0 && b.len() > 0 && c.len() > 0 && a[0] == b[0] && b[0] == c[0] {
        lemma_seq_lt_transitive(a.drop_first(), b.drop_first(), c.drop_first());
    }
}

/// Of two different strings, one comes before the other.
pub proof fn lemma_seq_lt_total(a: Seq<char>, b: Seq<char>)
    requires
        a != b,
    ensures
        seq_lt(a, b) || seq_lt(b, a),
    decreases a.len(),
{
    if a.len() == 0 {
        assert(b.len() != 0) by {
            if b.len() == 0 {
                assert(a =~= b);
            }
        }
    } else if b.len() > 0 && a[0] == b[0] {
        if a.drop_first() == b.drop_first() {
            assert(a =~= seq![a[0]] + a.drop_first());
            assert(b =~= seq![b[0]] + b.drop_first());
        }
        lemma_seq_lt_total(a.drop_first(), b.drop_first());
    } else if b.len() > 0 {
        assert((a[0] as int) != (b[0] as int));
    }
}

/// Whether `a` comes before `b` in the order `str` compares by.
pub fn str_lt(a: &str, b: &str) -> (res: bool)
    ensures
        res == seq_lt(a@, b@),
{
    let ca = chars_of(a);
    let cb = chars_of(b);
    let mut i: usize = 0;
    proof {
        assert(a@.skip(0) =~= a@);
        assert(b@.skip(0) =~= b@);
    }
    while i < ca.len() && i < cb.len()
        invariant
            i <= ca@.len(),
            i <= cb@.len(),
            ca@ == a@,
            cb@ == b@,
            seq_lt(a@, b@) == seq_lt(a@.skip(i as int), b@.skip(i as int)),
        decreases ca@.len() - i,
    {
        let x = ca[i];
        let y = cb[i];
        if x != y {
            return x < y;
        }
        proof {
            assert(a@.skip(i as int).drop_first() =~= a@.skip(i + 1));
            assert(b@.skip(i as int).drop_first() =~= b@.skip(i + 1));
        }
        i = i + 1;
    }
    i < cb.len()
}

} // verus!
