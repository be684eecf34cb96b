//! Text operations on character sequences, with their meaning stated over `Seq<char>`.
use vstd::prelude::*;
use vstd::std_specs::iter::IteratorSpec;

verus! {

// ---------------------------------------------------------------------------
// Conversions between `str`/`String` and `Vec<char>`
// ---------------------------------------------------------------------------

/// The characters `v[start..end]` collected into a string.
#[verifier::external_body]
pub(crate) fn string_of_range(v: &[char], start: usize, end: usize) -> (r: String)
    requires
        start <= end <= v@.len(),
    ensures
        r@ == v@.subrange(start as int, end as int),
{
    v[start..end].iter().collect()
}

/// The characters of `s` in order, collected into a vector.
pub fn chars_of(s: &str) -> (r: Vec<char>)
    ensures
        r@ == s@,
{
    broadcast use {vstd::string::axiom_spec_iter, vstd::string::next_postcondition};
    let mut out: Vec<char> = Vec::new();
    let mut it = s.chars();
    assert(out@ + it.remaining() =~= s@);
    loop
        invariant
            out@ + it.remaining() == s@,
            it.decrease() is Some,
        ensures
            out@ == s@,
        decreases it.decrease()->0,
    {
        let ghost before = it.remaining();
        match it.next() {
            Some(c) => {
                out.push(c);
                assert(out@ + it.remaining() =~= s@) by {
                    assert(before =~= seq![c] + before.drop_first());
                }
            },
            None => {
                assert(before.len() == 0);
                assert(out@ =~= s@);
                break;
            },
        }
    }
    out
}

/// `String::from_iter` over characters: the string made of `v` in order.
#[verifier::external_body]
pub(crate) fn string_of(v: &[char]) -> (r: String)
    ensures
        r@ == v@,
{
    v.iter().collect()
}

/// Whether two string slices hold the same characters.
pub fn str_eq(a: &str, b: &str) -> (r: bool)
    ensures
        r == (a@ == b@),
{
    let x = a.to_owned();
    let y = b.to_owned();
    x == y
}

/// A new string holding `a` followed by `b`.
pub fn cat(a: &str, b: &str) -> (r: String)
    ensures
        r@ == a@ + b@,
{
    let mut s = a.to_owned();
    s.append(b);
    s
}

/// A new string holding `a`, `b` and `c` in order.
pub fn cat3(a: &str, b: &str, c: &str) -> (r: String)
    ensures
        r@ == a@ + b@ + c@,
{
    let mut s = a.to_owned();
    s.append(b);
    s.append(c);
    s
}

/// The characters with the Unicode `White_Space` property, which
/// `char::is_whitespace` tests.
pub open spec fn is_white_space(c: char) -> bool {
    let v = c as u32;
    (9 <= v <= 13) || v == 32 || v == 0x85 || v == 0xA0 || v == 0x1680 || (0x2000 <= v <= 0x200A)
        || v == 0x2028 || v == 0x2029 || v == 0x202F || v == 0x205F || v == 0x3000
}

/// `s` without its leading white space.
pub open spec fn trimmed_start(s: Seq<char>) -> Seq<char>
    decreases s.len(),
{
    if s.len() > 0 && is_white_space(s[0]) {
        trimmed_start(s.drop_first())
    } else {
        s
    }
}

/// `s` without its trailing white space.
pub open spec fn trimmed_end(s: Seq<char>) -> Seq<char>
    decreases s.len(),
{
    if s.len() > 0 && is_white_space(s.last()) {
        trimmed_end(s.drop_last())
    } else {
        s
    }
}

/// What `str::trim` leaves of `s`: `s` without its leading and trailing
/// white space.
#[verifier::opaque]
pub open spec fn trimmed(s: Seq<char>) -> Seq<char> {
    trimmed_end(trimmed_start(s))
}

/// `str::trim`, copied into a new string, stated by `trimmed`.
#[verifier::external_body]
pub(crate) fn trim(s: &str) -> (r: String)
    ensures
        r@ == trimmed(s@),
{
    s.trim().to_string()
}

// ---------------------------------------------------------------------------
// Searching
// ---------------------------------------------------------------------------

/// `p` occurs in `s` starting at index `i`.
pub open spec fn occurs_at(s: Seq<char>, p: Seq<char>, i: int) -> bool {
    0 <= i && i + p.len() <= s.len() && s.subrange(i, i + p.len()) == p
}

/// `str::contains` with a string pattern.
pub open spec fn contains(s: Seq<char>, p: Seq<char>) -> bool {
    exists|i: int| occurs_at(s, p, i)
}

/// The index of the first occurrence of `p` in `s`, as `str::find` gives it.
pub open spec fn first_occurrence(s: Seq<char>, p: Seq<char>) -> Option<int>
    decreases s.len(),
{
    if s.len() < p.len() {
        None
    } else if s.take(p.len() as int) == p {
        Some(0)
    } else if s.len() == 0 {
        None
    } else {
        match first_occurrence(s.drop_first(), p) {
            Some(i) => Some(i + 1),
            None => None,
        }
    }
}

pub proof fn lemma_first_occurrence(s: Seq<char>, p: Seq<char>)
    ensures
        match first_occurrence(s, p) {
            Some(i) => occurs_at(s, p, i) && forall|j: int| 0 <= j < i ==> !occurs_at(s, p, j),
            None => forall|j: int| !occurs_at(s, p, j),
        },
    decreases s.len(),
{
    if s.len() < p.len() {
    } else if s.take(p.len() as int) == p {
        assert(s.subrange(0, p.len() as int) == s.take(p.len() as int));
    } else if s.len() == 0 {
        assert(p.len() == 0);
        assert(s.take(0) =~= p);
    } else {
        lemma_first_occurrence(s.drop_first(), p);
        let t = s.drop_first();
        assert forall|j: int| 0 <= j && occurs_at(s, p, j + 1) implies occurs_at(t, p, j) by {
            assert(t.subrange(j, j + p.len()) =~= s.subrange(j + 1, j + 1 + p.len()));
        }
        assert forall|j: int| 0 <= j && occurs_at(t, p, j) implies occurs_at(s, p, j + 1) by {
            assert(t.subrange(j, j + p.len()) =~= s.subrange(j + 1, j + 1 + p.len()));
        }
        assert(!occurs_at(s, p, 0)) by {
            assert(s.subrange(0, p.len() as int) == s.take(p.len() as int));
        }
        match first_occurrence(t, p) {
            Some(i) => {
                assert forall|j: int| 0 <= j < i + 1 implies !occurs_at(s, p, j) by {
                    if j > 0 {
                        assert(!occurs_at(t, p, j - 1));
                    }
                }
            },
            None => {
                assert forall|j: int| !occurs_at(s, p, j) by {
                    if j > 0 {
                        assert(!occurs_at(t, p, j - 1));
                    }
                }
            },
        }
    }
}

pub proof fn lemma_contains_first(s: Seq<char>, p: Seq<char>)
    ensures
        contains(s, p) <==> first_occurrence(s, p) is Some,
{
    lemma_first_occurrence(s, p);
}

/// Whether `p` occurs in `s` at `i` (a bounds-checked test).
pub fn matches_at(s: &[char], p: &[char], i: usize) -> (r: bool)
    ensures
        r == occurs_at(s@, p@, i as int),
{
    if i > s.len() || p.len() > s.len() - i {
        return false;
    }
    let mut k: usize = 0;
    while k < p.len()
        invariant
            i + p@.len() <= s@.len(),
            s@.len() == s.len(),
            k <= p@.len(),
            forall|m: int| 0 <= m < k ==> s@[i + m] == p@[m],
        decreases p@.len() - k,
    {
        if s[i + k] != p[k] {
            assert(s@.subrange(i as int, i + p@.len())[k as int] != p@[k as int]);
            return false;
        }
        k = k + 1;
    }
    assert(s@.subrange(i as int, i + p@.len()) =~= p@);
    true
}

/// The index of the first occurrence of `p` in `s` at or after `from`.
pub fn find_from(s: &[char], p: &[char], from: usize) -> (r: Option<usize>)
    requires
        from <= s@.len(),
    ensures
        match r {
            Some(i) => from <= i && occurs_at(s@, p@, i as int) && forall|j: int|
                from <= j < i ==> !occurs_at(s@, p@, j),
            None => forall|j: int| from <= j ==> !occurs_at(s@, p@, j),
        },
{
    let mut i = from;
    loop
        invariant
            from <= i <= s@.len(),
            s@.len() == s.len(),
            forall|j: int| from <= j < i ==> !occurs_at(s@, p@, j),
        decreases s@.len() - i,
    {
        if matches_at(s, p, i) {
            return Some(i);
        }
        if i == s.len() {
            assert forall|j: int| from <= j implies !occurs_at(s@, p@, j) by {
                if j > i {
                    assert(!(j + p@.len() <= s@.len()));
                }
            }
            return None;
        }
        i = i + 1;
    }
}

/// The index of the first occurrence of `p` in `s`.
pub fn find(s: &[char], p: &[char]) -> (r: Option<usize>)
    ensures
        r matches Some(i) ==> first_occurrence(s@, p@) == Some(i as int),
        r is None ==> first_occurrence(s@, p@) is None,
{
    proof {
        lemma_first_occurrence(s@, p@);
    }
    let r = find_from(s, p, 0);
    proof {
        match first_occurrence(s@, p@) {
            Some(k) => {
                if let Some(i) = r {
                    assert(!(k < i)) by {
                        if k < i {
                            assert(!occurs_at(s@, p@, k));
                        }
                    }
                    assert(!(i < k)) by {
                        if i < k {
                            assert(!occurs_at(s@, p@, i as int));
                        }
                    }
                } else {
                    assert(!occurs_at(s@, p@, k));
                }
            },
            None => {
                if let Some(i) = r {
                    assert(!occurs_at(s@, p@, i as int));
                }
            },
        }
    }
    r
}

/// `str::contains` with a string pattern.
pub fn str_contains(s: &str, p: &str) -> (r: bool)
    ensures
        r == contains(s@, p@),
{
    let sv = chars_of(s);
    let pv = chars_of(p);
    proof {
        lemma_contains_first(s@, p@);
    }
    find(sv.as_slice(), pv.as_slice()).is_some()
}

// ---------------------------------------------------------------------------
// Replacing and splitting
// ---------------------------------------------------------------------------

/// `str::replace`: every non-overlapping occurrence of `p`, scanning from the
/// left, becomes `t`; an empty `p` occurs before each character and at the end.
pub open spec fn replace_all(s: Seq<char>, p: Seq<char>, t: Seq<char>) -> Seq<char>
    decreases s.len(),
{
    if p.len() == 0 {
        if s.len() == 0 {
            t
        } else {
            t + seq![s[0]] + replace_all(s.drop_first(), p, t)
        }
    } else if s.len() == 0 {
        s
    } else if s.len() >= p.len() && s.take(p.len() as int) == p {
        t + replace_all(s.skip(p.len() as int), p, t)
    } else {
        seq![s[0]] + replace_all(s.drop_first(), p, t)
    }
}

fn push_all(out: &mut Vec<char>, t: &Vec<char>)
    ensures
        final(out)@ == old(out)@ + t@,
{
    let ghost before = out@;
    let mut k: usize = 0;
    while k < t.len()
        invariant
            k <= t@.len(),
            out@ == before + t@.take(k as int),
        decreases t@.len() - k,
    {
        out.push(t[k]);
        assert(t@.take(k + 1) =~= t@.take(k as int).push(t@[k as int]));
        k = k + 1;
    }
    assert(t@.take(t@.len() as int) =~= t@);
}

fn replace_empty(s: &Vec<char>, t: &Vec<char>) -> (r: Vec<char>)
    ensures
        r@ == replace_all(s@, Seq::empty(), t@),
{
    let mut out: Vec<char> = Vec::new();
    let mut i: usize = 0;
    assert(s@.skip(0) =~= s@);
    while i < s.len()
        invariant
            i <= s@.len(),
            replace_all(s@, Seq::empty(), t@) == out@ + replace_all(s@.skip(i as int), Seq::empty(), t@),
        decreases s@.len() - i,
    {
        let ghost before = out@;
        assert(s@.skip(i as int).drop_first() =~= s@.skip(i + 1));
        assert(s@.skip(i as int)[0] == s@[i as int]);
        push_all(&mut out, t);
        out.push(s[i]);
        assert(before + (t@ + seq![s@[i as int]] + replace_all(s@.skip(i + 1), Seq::empty(), t@))
            =~= out@ + replace_all(s@.skip(i + 1), Seq::empty(), t@));
        i = i + 1;
    }
    assert(s@.skip(i as int) =~= Seq::<char>::empty());
    push_all(&mut out, t);
    out
}

/// `str::replace`.
pub fn replace(s: &str, p: &str, t: &str) -> (r: String)
    ensures
        r@ == replace_all(s@, p@, t@),
{
    let sv = chars_of(s);
    let pv = chars_of(p);
    let tv = chars_of(t);
    if pv.len() == 0 {
        assert(pv@ =~= Seq::<char>::empty());
        let out = replace_empty(&sv, &tv);
        return string_of(out.as_slice());
    }
    let mut out: Vec<char> = Vec::new();
    let mut i: usize = 0;
    assert(sv@.skip(0) =~= sv@);
    while i < sv.len()
        invariant
            i <= sv@.len(),
            pv@.len() > 0,
            replace_all(sv@, pv@, tv@) == out@ + replace_all(sv@.skip(i as int), pv@, tv@),
        decreases sv@.len() - i,
    {
        let ghost rest = sv@.skip(i as int);
        if matches_at(sv.as_slice(), pv.as_slice(), i) {
            assert(rest.take(pv@.len() as int) =~= sv@.subrange(i as int, i + pv@.len()));
            assert(rest.skip(pv@.len() as int) =~= sv@.skip(i + pv@.len()));
            let ghost before = out@;
            push_all(&mut out, &tv);
            assert(before + (tv@ + replace_all(sv@.skip(i + pv@.len()), pv@, tv@)) =~= out@
                + replace_all(sv@.skip(i + pv@.len()), pv@, tv@));
            i = i + pv.len();
        } else {
            proof {
                if rest.len() >= pv@.len() {
                    assert(rest.take(pv@.len() as int) =~= sv@.subrange(i as int, i + pv@.len()));
                }
            }
            assert(rest.drop_first() =~= sv@.skip(i + 1));
            let ghost before = out@;
            out.push(sv[i]);
            assert(before + (seq![sv@[i as int]] + replace_all(sv@.skip(i + 1), pv@, tv@))
                =~= out@ + replace_all(sv@.skip(i + 1), pv@, tv@));
            i = i + 1;
        }
    }
    assert(sv@.skip(i as int) =~= Seq::<char>::empty());
    assert(out@ + Seq::<char>::empty() =~= out@);
    string_of(out.as_slice())
}

/// `str::split` with a non-empty separator: the pieces between occurrences of `p`.
pub open spec fn split_all(s: Seq<char>, p: Seq<char>) -> Seq<Seq<char>>
    recommends
        p.len() > 0,
    decreases s.len(),
{
    if p.len() == 0 {
        seq![s]
    } else {
        match first_occurrence(s, p) {
            None => seq![s],
            Some(i) => if 0 <= i && i + p.len() <= s.len() {
                seq![s.take(i)] + split_all(s.skip(i + p.len()), p)
            } else {
                seq![s]
            },
        }
    }
}

/// Splitting gives at least one piece, and two where the separator occurs.
pub proof fn lemma_split_all_len(s: Seq<char>, p: Seq<char>)
    requires
        p.len() > 0,
    ensures
        split_all(s, p).len() >= 1,
        contains(s, p) ==> split_all(s, p).len() >= 2,
{
    lemma_first_occurrence(s, p);
    match first_occurrence(s, p) {
        Some(i) => {
            let rest = s.skip(i + p.len());
            lemma_first_occurrence(rest, p);
            assert(split_all(rest, p).len() >= 1);
        },
        None => {},
    }
}

/// The contents of each string in `v`.
pub open spec fn strings_view(v: Seq<String>) -> Seq<Seq<char>> {
    v.map_values(|x: String| x@)
}

/// `str::split` with a non-empty separator, collected into a vector.
pub fn split(s: &str, p: &str) -> (r: Vec<String>)
    requires
        p@.len() > 0,
    ensures
        strings_view(r@) == split_all(s@, p@),
{
    let sv = chars_of(s);
    let pv = chars_of(p);
    let mut out: Vec<String> = Vec::new();
    let mut start: usize = 0;
    assert(sv@.skip(0) =~= sv@);
    loop
        invariant
            start <= sv@.len(),
            pv@.len() > 0,
            sv@ == s@,
            pv@ == p@,
            split_all(sv@, pv@) == strings_view(out@) + split_all(
                sv@.skip(start as int),
                pv@,
            ),
        decreases sv@.len() - start,
    {
        let ghost rest = sv@.skip(start as int);
        proof {
            lemma_first_occurrence(rest, pv@);
        }
        match find_from(sv.as_slice(), pv.as_slice(), start) {
            None => {
                proof {
                    match first_occurrence(rest, pv@) {
                        Some(k) => {
                            assert(rest.subrange(k, k + pv@.len()) =~= sv@.subrange(
                                start + k,
                                start + k + pv@.len(),
                            ));
                            assert(!occurs_at(sv@, pv@, start + k));
                        },
                        None => {},
                    }
                }
                assert(split_all(rest, pv@) == seq![rest]);
                let piece = string_of_range(sv.as_slice(), start, sv.len());
                let ghost before = out@;
                assert(piece@ =~= rest);
                out.push(piece);
                assert(strings_view(out@) =~= strings_view(before)
                    + seq![rest]);
                return out;
            },
            Some(i) => {
                proof {
                    let k = i - start;
                    assert(rest.subrange(k, k + pv@.len()) =~= sv@.subrange(
                        i as int,
                        i + pv@.len(),
                    ));
                    assert(occurs_at(rest, pv@, k));
                    match first_occurrence(rest, pv@) {
                        Some(m) => {
                            assert(rest.subrange(m, m + pv@.len()) =~= sv@.subrange(
                                start + m,
                                start + m + pv@.len(),
                            ));
                            if m < k {
                                assert(!occurs_at(sv@, pv@, start + m));
                            }
                            if k < m {
                                assert(!occurs_at(rest, pv@, k));
                            }
                        },
                        None => {},
                    }
                    assert(rest.take(k) =~= sv@.subrange(start as int, i as int));
                    assert(rest.skip(k + pv@.len()) =~= sv@.skip(i + pv@.len()));
                }
                assert(i + pv@.len() <= sv.len());
                let piece = string_of_range(sv.as_slice(), start, i);
                let ghost before = out@;
                out.push(piece);
                assert(strings_view(out@) =~= strings_view(before)
                    + seq![sv@.subrange(start as int, i as int)]);
                start = i + pv.len();
            },
        }
    }
}

// ---------------------------------------------------------------------------
// Decimal numbers
// ---------------------------------------------------------------------------

pub open spec fn is_digit(c: char) -> bool {
    '0' <= c && c <= '9'
}

pub open spec fn digit_value(c: char) -> int {
    c as int - '0' as int
}

pub open spec fn all_digits(s: Seq<char>) -> bool {
    forall|i: int| 0 <= i < s.len() ==> is_digit(#[trigger] s[i])
}

/// The value of a string of decimal digits.
pub open spec fn digits_value(s: Seq<char>) -> nat
    decreases s.len(),
{
    if s.len() == 0 {
        0
    } else {
        (digits_value(s.drop_last()) * 10 + digit_value(s.last())) as nat
    }
}

/// The integer that `str::parse` reads from `s`: an optional `+` or `-`
/// followed by one or more decimal digits and nothing else.
pub open spec fn parse_int(s: Seq<char>) -> Option<int> {
    if s.len() > 0 && (s[0] == '+' || s[0] == '-') {
        let d = s.drop_first();
        if d.len() > 0 && all_digits(d) {
            Some(if s[0] == '-' { -digits_value(d) } else { digits_value(d) as int })
        } else {
            None
        }
    } else if s.len() > 0 && all_digits(s) {
        Some(digits_value(s) as int)
    } else {
        None
    }
}

/// `str::parse` into an integer type whose values are `lo..=hi`.
pub open spec fn parse_int_in(s: Seq<char>, lo: int, hi: int) -> Option<int> {
    match parse_int(s) {
        Some(v) => if lo <= v <= hi { Some(v) } else { None },
        None => None,
    }
}

proof fn lemma_digits_value_prefix(s: Seq<char>, k: int)
    requires
        0 <= k <= s.len(),
        all_digits(s),
    ensures
        digits_value(s.take(k)) <= digits_value(s),
    decreases s.len() - k,
{
    if k < s.len() {
        lemma_digits_value_prefix(s, k + 1);
        assert(s.take(k + 1).drop_last() =~= s.take(k));
        assert(is_digit(s[k]));
    } else {
        assert(s.take(k) =~= s);
    }
}

/// The value of the digits `s[from..]`, or `None` when one is not a digit or
/// the value exceeds `bound`.
fn digits_upto(s: &[char], from: usize, bound: u64) -> (r: Option<u64>)
    requires
        from <= s@.len(),
    ensures
        r matches Some(v) ==> all_digits(s@.skip(from as int)) && v == digits_value(
            s@.skip(from as int),
        ) && v <= bound,
        r is None ==> !all_digits(s@.skip(from as int)) || digits_value(s@.skip(from as int))
            > bound,
{
    let ghost d = s@.skip(from as int);
    let mut i = from;
    while i < s.len()
        invariant
            from <= i <= s@.len(),
            d == s@.skip(from as int),
            all_digits(s@.subrange(from as int, i as int)),
        decreases s@.len() - i,
    {
        if !('0' <= s[i] && s[i] <= '9') {
            assert(d[i - from] == s@[i as int]);
            return None;
        }
        i = i + 1;
    }
    assert(s@.subrange(from as int, i as int) =~= d);
    let mut acc: u64 = 0;
    let mut j = from;
    while j < s.len()
        invariant
            from <= j <= s@.len(),
            d == s@.skip(from as int),
            all_digits(d),
            acc == digits_value(d.take(j - from)),
            acc <= bound,
        decreases s@.len() - j,
    {
        let c = s[j];
        assert(c == d[j - from]);
        assert(is_digit(c));
        let dv = (c as u32 - '0' as u32) as u64;
        assert(d.take(j - from + 1).drop_last() =~= d.take(j - from));
        if dv > bound || acc > (bound - dv) / 10 {
            proof {
                assert(digits_value(d.take(j - from + 1)) == acc * 10 + dv);
                if dv <= bound {
                    assert(acc * 10 + dv > bound) by (nonlinear_arith)
                        requires
                            acc > (bound - dv) / 10,
                            dv <= 9,
                            dv <= bound,
                    ;
                }
                lemma_digits_value_prefix(d, j - from + 1);
            }
            return None;
        }
        proof {
            assert(acc * 10 + dv <= bound) by (nonlinear_arith)
                requires
                    acc <= (bound - dv) / 10,
                    dv <= bound,
            ;
        }
        acc = acc * 10 + dv;
        j = j + 1;
    }
    assert(d.take(j - from) =~= d);
    Some(acc)
}

/// `str::parse::<i64>`, read as an integer between `lo` and `hi`.
pub fn parse_int_between(s: &str, lo: i64, hi: i64) -> (r: Option<i64>)
    requires
        lo <= 0 <= hi,
    ensures
        r matches Some(v) ==> parse_int_in(s@, lo as int, hi as int) == Some(v as int),
        r is None ==> parse_int_in(s@, lo as int, hi as int) is None,
{
    let v = chars_of(s);
    if v.len() == 0 {
        return None;
    }
    let neg = v[0] == '-';
    let signed = v[0] == '+' || neg;
    let from: usize = if signed { 1 } else { 0 };
    if signed && v.len() == 1 {
        return None;
    }
    assert(from == 1 ==> v@.skip(1) =~= v@.drop_first());
    assert(v@.skip(0) =~= v@);
    let bound: u64 = if neg { (0i128 - lo as i128) as u64 } else { hi as u64 };
    match digits_upto(v.as_slice(), from, bound) {
        Some(m) => {
            if neg {
                Some((0i128 - m as i128) as i64)
            } else {
                Some(m as i64)
            }
        },
        None => None,
    }
}

/// `str::parse::<i32>`.
pub fn parse_i32(s: &str) -> (r: Option<i32>)
    ensures
        r matches Some(v) ==> parse_int_in(s@, i32::MIN as int, i32::MAX as int) == Some(
            v as int,
        ),
        r is None ==> parse_int_in(s@, i32::MIN as int, i32::MAX as int) is None,
{
    match parse_int_between(s, i32::MIN as i64, i32::MAX as i64) {
        Some(v) => Some(v as i32),
        None => None,
    }
}

/// `str::parse::<i64>`.
pub fn parse_i64(s: &str) -> (r: Option<i64>)
    ensures
        r matches Some(v) ==> parse_int_in(s@, i64::MIN as int, i64::MAX as int) == Some(
            v as int,
        ),
        r is None ==> parse_int_in(s@, i64::MIN as int, i64::MAX as int) is None,
{
    parse_int_between(s, i64::MIN, i64::MAX)
}

#[verifier::external_type_specification]
#[verifier::external_body]
pub struct ExParseIntError(std::num::ParseIntError);

/// `i32::from_str`, with std's own error. As its documentation says, it
/// accepts an optional sign followed by decimal digits, within the range of `i32`.
#[verifier::external_body]
pub(crate) fn i32_from_str(s: &str) -> (r: Result<i32, std::num::ParseIntError>)
    ensures
        r matches Ok(v) ==> parse_int_in(s@, i32::MIN as int, i32::MAX as int) == Some(v as int),
        r is Err ==> parse_int_in(s@, i32::MIN as int, i32::MAX as int) is None,
{
    s.parse::<i32>()
}

/// The decimal digits of `n`, without leading zeros.
pub open spec fn nat_decimal(n: nat) -> Seq<char>
    decreases n,
{
    if n < 10 {
        seq![('0' as int + n) as char]
    } else {
        nat_decimal(n / 10).push(('0' as int + n % 10) as char)
    }
}

/// How `Display` writes an integer: its decimal digits, after a `-` when negative.
pub open spec fn decimal(n: int) -> Seq<char> {
    if n < 0 {
        seq!['-'] + nat_decimal((-n) as nat)
    } else {
        nat_decimal(n as nat)
    }
}

fn nat_digits(n: u64) -> (r: Vec<char>)
    ensures
        r@ == nat_decimal(n as nat),
    decreases n,
{
    let d = (n % 10) as u8;
    let c = ('0' as u8 + d) as char;
    if n < 10 {
        let mut v: Vec<char> = Vec::new();
        v.push(c);
        v
    } else {
        let mut v = nat_digits(n / 10);
        v.push(c);
        v
    }
}

/// The decimal text of `n`, as `format!("{}", n)` writes it.
pub fn int_to_string(n: i64) -> (r: String)
    ensures
        r@ == decimal(n as int),
{
    if n < 0 {
        let m: u64 = (0i128 - n as i128) as u64;
        let mut v: Vec<char> = Vec::new();
        v.push('-');
        let d = nat_digits(m);
        let mut k: usize = 0;
        while k < d.len()
            invariant
                k <= d@.len(),
                v@ == seq!['-'] + d@.take(k as int),
            decreases d@.len() - k,
        {
            v.push(d[k]);
            assert(d@.take(k + 1) =~= d@.take(k as int).push(d@[k as int]));
            k = k + 1;
        }
        assert(d@.take(d@.len() as int) =~= d@);
        string_of(v.as_slice())
    } else {
        let d = nat_digits(n as u64);
        string_of(d.as_slice())
    }
}

/// The decimal text of an index or count.
pub fn usize_to_string(n: usize) -> (r: String)
    ensures
        r@ == decimal(n as int),
{
    let d = nat_digits(n as u64);
    string_of(d.as_slice())
}

} // verus!
