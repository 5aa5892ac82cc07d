//! Character-level string helpers with specifications over `Seq<char>`.

use vstd::prelude::*;

verus! {

broadcast use vstd::string::group_string_axioms;

/// Appends one character to a `String` (std's `String::push`).
#[verifier::external_body]
pub(crate) fn push_char(s: &mut String, c: char)
    ensures
        final(s)@ == old(s)@.push(c),
{
    s.push(c);
}

/// The characters of `s`, in order.
pub fn chars_of(s: &str) -> (v: Vec<char>)
    ensures
        v@ == s@,
{
    let mut v: Vec<char> = Vec::new();
    for c in it: s.chars()
        invariant
            v@ == it.seq().take(it.index()),
    {
        v.push(c);
    }
    v
}


/// The string made of the characters of `v`, in order.
pub fn string_of(v: &[char]) -> (s: String)
    ensures
        s@ == v@,
{
    let mut s = String::new();
    let mut i: usize = 0;
    while i < v.len()
        invariant
            i <= v.len(),
            s@ == v@.take(i as int),
        decreases v.len() - i,
    {
        push_char(&mut s, v[i]);
        assert(v@.take(i as int).push(v@[i as int]) =~= v@.take(i + 1));
        i = i + 1;
    }
    assert(v@.take(v.len() as int) =~= v@);
    s
}

/// Unicode `White_Space`, the set `char::is_whitespace` tests.
pub open spec fn is_ws(c: char) -> bool {
    let u = c as u32;
    (0x9 <= u && u <= 0xd) || u == 0x20 || u == 0x85 || u == 0xa0 || u == 0x1680 || (0x2000
        <= u && u <= 0x200a) || u == 0x2028 || u == 0x2029 || u == 0x202f || u == 0x205f || u
        == 0x3000
}

/// Executable `is_ws`.
pub fn char_is_ws(c: char) -> (b: bool)
    ensures
        b == is_ws(c),
{
    let u = c as u32;
    (0x9 <= u && u <= 0xd) || u == 0x20 || u == 0x85 || u == 0xa0 || u == 0x1680 || (0x2000
        <= u && u <= 0x200a) || u == 0x2028 || u == 0x2029 || u == 0x202f || u == 0x205f || u
        == 0x3000
}

/// Number of leading whitespace characters.
pub open spec fn ws_prefix_len(s: Seq<char>) -> nat
    decreases s.len(),
{
    if s.len() > 0 && is_ws(s[0]) {
        1 + ws_prefix_len(s.drop_first())
    } else {
        0
    }
}

/// Number of trailing whitespace characters.
pub open spec fn ws_suffix_len(s: Seq<char>) -> nat
    decreases s.len(),
{
    if s.len() > 0 && is_ws(s.last()) {
        1 + ws_suffix_len(s.drop_last())
    } else {
        0
    }
}

/// `s` without leading whitespace (`str::trim_start`).
pub open spec fn trim_start(s: Seq<char>) -> Seq<char> {
    s.subrange(ws_prefix_len(s) as int, s.len() as int)
}

/// `s` without trailing whitespace (`str::trim_end`).
pub open spec fn trim_end(s: Seq<char>) -> Seq<char> {
    s.subrange(0, s.len() - ws_suffix_len(s))
}

/// `s` without leading and trailing whitespace (`str::trim`).
pub open spec fn trim(s: Seq<char>) -> Seq<char> {
    trim_end(trim_start(s))
}

pub proof fn lemma_ws_prefix_len_bound(s: Seq<char>)
    ensures
        ws_prefix_len(s) <= s.len(),
        forall|j: int| 0 <= j < ws_prefix_len(s) ==> is_ws(#[trigger] s[j]),
        ws_prefix_len(s) < s.len() ==> !is_ws(s[ws_prefix_len(s) as int]),
    decreases s.len(),
{
    if s.len() > 0 && is_ws(s[0]) {
        lemma_ws_prefix_len_bound(s.drop_first());
        assert forall|j: int| 0 <= j < ws_prefix_len(s) implies is_ws(#[trigger] s[j]) by {
            if j > 0 {
                assert(s[j] == s.drop_first()[j - 1]);
            }
        }
    }
}

pub proof fn lemma_ws_suffix_len_bound(s: Seq<char>)
    ensures
        ws_suffix_len(s) <= s.len(),
        forall|j: int| s.len() - ws_suffix_len(s) <= j < s.len() ==> is_ws(#[trigger] s[j]),
        ws_suffix_len(s) < s.len() ==> !is_ws(s[s.len() - ws_suffix_len(s) - 1]),
    decreases s.len(),
{
    if s.len() > 0 && is_ws(s.last()) {
        lemma_ws_suffix_len_bound(s.drop_last());
        assert forall|j: int| s.len() - ws_suffix_len(s) <= j < s.len() implies is_ws(
            #[trigger] s[j],
        ) by {
            if j < s.len() - 1 {
                assert(s[j] == s.drop_last()[j]);
            }
        }
    }
}

/// A prefix of whitespace followed by a non-whitespace character (or the end)
/// determines `ws_prefix_len`.
pub proof fn lemma_ws_prefix_len_is(s: Seq<char>, k: int)
    requires
        0 <= k <= s.len(),
        forall|j: int| 0 <= j < k ==> is_ws(#[trigger] s[j]),
        k < s.len() ==> !is_ws(s[k]),
    ensures
        ws_prefix_len(s) == k,
    decreases k,
{
    if k > 0 {
        let t = s.drop_first();
        assert forall|j: int| 0 <= j < k - 1 implies is_ws(#[trigger] t[j]) by {
            assert(t[j] == s[j + 1]);
        }
        if k - 1 < t.len() {
            assert(t[k - 1] == s[k]);
        }
        lemma_ws_prefix_len_is(t, k - 1);
    }
}

/// A suffix of whitespace preceded by a non-whitespace character (or the
/// start) determines `ws_suffix_len`.
pub proof fn lemma_ws_suffix_len_is(s: Seq<char>, k: int)
    requires
        0 <= k <= s.len(),
        forall|j: int| s.len() - k <= j < s.len() ==> is_ws(#[trigger] s[j]),
        k < s.len() ==> !is_ws(s[s.len() - k - 1]),
    ensures
        ws_suffix_len(s) == k,
    decreases k,
{
    if k > 0 {
        let t = s.drop_last();
        assert forall|j: int| t.len() - (k - 1) <= j < t.len() implies is_ws(#[trigger] t[j]) by {
            assert(t[j] == s[j]);
        }
        if k - 1 < t.len() {
            assert(t[t.len() - (k - 1) - 1] == s[s.len() - k - 1]);
        }
        lemma_ws_suffix_len_is(t, k - 1);
    }
}

/// Bounds `(a, b)` with `trim(v) == v[a..b]`.
pub fn trim_bounds(v: &[char]) -> (r: (usize, usize))
    ensures
        r.0 <= r.1 <= v@.len(),
        trim(v@) == v@.subrange(r.0 as int, r.1 as int),
{
    let mut a: usize = 0;
    while a < v.len() && char_is_ws(v[a])
        invariant
            a <= v.len(),
            forall|j: int| 0 <= j < a ==> is_ws(#[trigger] v@[j]),
        decreases v.len() - a,
    {
        a = a + 1;
    }
    proof {
        lemma_ws_prefix_len_is(v@, a as int);
    }
    let mut b: usize = v.len();
    while b > a && char_is_ws(v[b - 1])
        invariant
            a <= b <= v.len(),
            forall|j: int| b <= j < v.len() ==> is_ws(#[trigger] v@[j]),
        decreases b,
    {
        b = b - 1;
    }
    proof {
        let t = v@.subrange(a as int, v.len() as int);
        assert(trim_start(v@) == t);
        let k = (v.len() - b) as int;
        assert forall|j: int| t.len() - k <= j < t.len() implies is_ws(#[trigger] t[j]) by {
            assert(t[j] == v@[a + j]);
        }
        if k < t.len() {
            assert(t[t.len() - k - 1] == v@[b - 1]);
        }
        lemma_ws_suffix_len_is(t, k);
        assert(t.subrange(0, t.len() - k) =~= v@.subrange(a as int, b as int));
    }
    (a, b)
}

/// A copy of `v[a..b]`.
pub fn sub_chars(v: &[char], a: usize, b: usize) -> (r: Vec<char>)
    requires
        a <= b <= v@.len(),
    ensures
        r@ == v@.subrange(a as int, b as int),
{
    let mut r: Vec<char> = Vec::new();
    let mut i = a;
    while i < b
        invariant
            a <= i <= b,
            b <= v@.len(),
            r@ == v@.subrange(a as int, i as int),
        decreases b - i,
    {
        r.push(v[i]);
        assert(v@.subrange(a as int, i as int).push(v@[i as int]) =~= v@.subrange(
            a as int,
            i + 1,
        ));
        i = i + 1;
    }
    r
}

/// `trim` on a character vector.
pub fn trim_chars(v: &[char]) -> (r: Vec<char>)
    ensures
        r@ == trim(v@),
{
    let (a, b) = trim_bounds(v);
    sub_chars(v, a, b)
}

/// `str::trim` into an owned `String`.
pub fn trim_str(s: &str) -> (r: String)
    ensures
        r@ == trim(s@),
{
    let v = chars_of(s);
    let t = trim_chars(v.as_slice());
    string_of(t.as_slice())
}


/// Whether `p` occurs in `s` at position `i`.
pub open spec fn matches_at(s: Seq<char>, p: Seq<char>, i: int) -> bool {
    0 <= i && i + p.len() <= s.len() && s.subrange(i, i + p.len()) == p
}

/// The first position `>= i` where `p` occurs in `s`, or `-1`.
pub open spec fn find_from(s: Seq<char>, p: Seq<char>, i: int) -> int
    decreases s.len() - i,
{
    if i < 0 || i + p.len() > s.len() {
        -1
    } else if matches_at(s, p, i) {
        i
    } else if i >= s.len() {
        -1
    } else {
        find_from(s, p, i + 1)
    }
}

/// Whether `p` occurs anywhere in `s` (`str::contains`).
pub open spec fn contains(s: Seq<char>, p: Seq<char>) -> bool {
    find_from(s, p, 0) >= 0
}

pub open spec fn starts_with(s: Seq<char>, p: Seq<char>) -> bool {
    p.len() <= s.len() && s.subrange(0, p.len() as int) == p
}

pub open spec fn ends_with(s: Seq<char>, p: Seq<char>) -> bool {
    p.len() <= s.len() && s.subrange(s.len() - p.len(), s.len() as int) == p
}

pub proof fn lemma_find_from(s: Seq<char>, p: Seq<char>, i: int)
    requires
        0 <= i,
    ensures
        find_from(s, p, i) == -1 || (i <= find_from(s, p, i) && matches_at(
            s,
            p,
            find_from(s, p, i),
        )),
        forall|j: int|
            i <= j && (find_from(s, p, i) == -1 || j < find_from(s, p, i)) ==> !#[trigger] matches_at(
                s,
                p,
                j,
            ),
    decreases s.len() - i,
{
    if i + p.len() > s.len() {
    } else if matches_at(s, p, i) {
    } else if i >= s.len() {
    } else {
        lemma_find_from(s, p, i + 1);
    }
}

/// Whether `p` occurs in `v` at `i`, executable.
pub fn chars_match_at(v: &[char], p: &[char], i: usize) -> (b: bool)
    ensures
        b == matches_at(v@, p@, i as int),
{
    if i > v.len() || p.len() > v.len() - i {
        return false;
    }
    let mut k: usize = 0;
    while k < p.len()
        invariant
            k <= p.len(),
            i + p.len() <= v.len(),
            forall|j: int| 0 <= j < k ==> v@[i + j] == p@[j],
        decreases p.len() - k,
    {
        if v[i + k] != p[k] {
            assert(v@.subrange(i as int, i + p@.len())[k as int] != p@[k as int]);
            return false;
        }
        k = k + 1;
    }
    assert(v@.subrange(i as int, i + p@.len()) =~= p@);
    true
}

/// The first position `>= start` where `p` occurs in `v`.
pub fn find_chars_from(v: &[char], p: &[char], start: usize) -> (r: Option<usize>)
    ensures
        match r {
            Some(j) => j as int == find_from(v@, p@, start as int),
            None => find_from(v@, p@, start as int) == -1,
        },
{
    let mut i = start;
    if i > v.len() || p.len() > v.len() - i {
        return None;
    }
    if p.len() == 0 {
        assert(v@.subrange(i as int, i as int) =~= p@);
        return Some(i);
    }
    while i <= v.len() - p.len()
        invariant
            start <= i <= v.len(),
            p@.len() >= 1,
            p@.len() <= v@.len(),
            find_from(v@, p@, start as int) == find_from(v@, p@, i as int),
        decreases v.len() - i,
    {
        if chars_match_at(v, p, i) {
            return Some(i);
        }
        i = i + 1;
    }
    None
}

/// Whether two character vectors are equal.
pub fn chars_eq(a: &[char], b: &[char]) -> (r: bool)
    ensures
        r == (a@ == b@),
{
    if a.len() != b.len() {
        return false;
    }
    let r = chars_match_at(a, b, 0);
    proof {
        if r {
            assert(a@.subrange(0, b@.len() as int) =~= a@);
        } else {
            assert(a@.subrange(0, b@.len() as int) =~= a@);
        }
    }
    r
}

/// Whether two strings are equal.
pub fn str_eq(a: &str, b: &str) -> (r: bool)
    ensures
        r == (a@ == b@),
{
    let x = chars_of(a);
    let y = chars_of(b);
    chars_eq(x.as_slice(), y.as_slice())
}

/// `str::starts_with` on character vectors.
pub fn chars_starts_with(v: &[char], p: &[char]) -> (r: bool)
    ensures
        r == starts_with(v@, p@),
{
    chars_match_at(v, p, 0)
}

/// `str::ends_with` on character vectors.
pub fn chars_ends_with(v: &[char], p: &[char]) -> (r: bool)
    ensures
        r == ends_with(v@, p@),
{
    if p.len() > v.len() {
        return false;
    }
    chars_match_at(v, p, v.len() - p.len())
}

/// `str::contains` on character vectors.
pub fn chars_contains(v: &[char], p: &[char]) -> (r: bool)
    ensures
        r == contains(v@, p@),
{
    find_chars_from(v, p, 0).is_some()
}

/// The pieces of `s` between occurrences of `sep`, starting at `pos`
/// (`str::split` with a non-empty pattern).
pub open spec fn split_from(s: Seq<char>, sep: Seq<char>, pos: int) -> Seq<Seq<char>>
    decreases s.len() - pos,
{
    let i = find_from(s, sep, pos);
    if sep.len() == 0 || pos < 0 || pos > s.len() || i < pos || i + sep.len() > s.len() {
        seq![s.subrange(pos, s.len() as int)]
    } else {
        seq![s.subrange(pos, i)] + split_from(s, sep, i + sep.len())
    }
}

/// `str::split` with a string pattern. An empty pattern splits between every
/// character, with an empty piece at each end.
pub open spec fn split(s: Seq<char>, sep: Seq<char>) -> Seq<Seq<char>> {
    if sep.len() == 0 {
        seq![Seq::<char>::empty()] + Seq::new(s.len(), |i: int| seq![s[i]]) + seq![
            Seq::<char>::empty(),
        ]
    } else {
        split_from(s, sep, 0)
    }
}

/// Views of a vector of character vectors.
pub open spec fn views(v: Seq<Vec<char>>) -> Seq<Seq<char>> {
    v.map_values(|x: Vec<char>| x@)
}

/// `str::split` on character vectors.
pub fn split_chars(v: &[char], sep: &[char]) -> (r: Vec<Vec<char>>)
    ensures
        views(r@) == split(v@, sep@),
{
    let mut r: Vec<Vec<char>> = Vec::new();
    if sep.len() == 0 {
        r.push(Vec::new());
        let mut i: usize = 0;
        while i < v.len()
            invariant
                i <= v.len(),
                views(r@) == seq![Seq::<char>::empty()] + Seq::new(i as nat, |k: int| seq![v@[k]]),
            decreases v.len() - i,
        {
            let mut one: Vec<char> = Vec::new();
            one.push(v[i]);
            assert(one@ =~= seq![v@[i as int]]);
            let ghost old_r = r@;
            r.push(one);
            assert(views(r@) =~= views(old_r).push(seq![v@[i as int]]));
            assert(views(r@) =~= seq![Seq::<char>::empty()] + Seq::new(
                (i + 1) as nat,
                |k: int| seq![v@[k]],
            ));
            i = i + 1;
        }
        r.push(Vec::new());
        assert(views(r@) =~= split(v@, sep@));
        return r;
    }
    let mut pos: usize = 0;
    loop
        invariant
            sep@.len() > 0,
            pos <= v.len(),
            split(v@, sep@) == views(r@) + split_from(v@, sep@, pos as int),
        decreases v.len() - pos,
    {
        let found = find_chars_from(v, sep, pos);
        proof {
            lemma_find_from(v@, sep@, pos as int);
        }
        match found {
            Some(i) => {
                let piece = sub_chars(v, pos, i);
                let ghost old_r = r@;
                r.push(piece);
                assert(views(r@) =~= views(old_r) + seq![v@.subrange(pos as int, i as int)]);
                assert(views(r@) + split_from(v@, sep@, (i + sep.len()) as int) =~= views(old_r)
                    + split_from(v@, sep@, pos as int));
                pos = i + sep.len();
            },
            None => {
                let piece = sub_chars(v, pos, v.len());
                let ghost old_r = r@;
                r.push(piece);
                assert(views(r@) =~= views(old_r) + split_from(v@, sep@, pos as int));
                return r;
            },
        }
    }
}

/// `s` with every non-overlapping occurrence of `from` (searched left to
/// right from `pos`) replaced by `to`.
pub open spec fn replace_from(s: Seq<char>, from: Seq<char>, to: Seq<char>, pos: int) -> Seq<
    char,
>
    decreases s.len() - pos,
{
    let i = find_from(s, from, pos);
    if from.len() == 0 || pos < 0 || pos > s.len() || i < pos || i + from.len() > s.len() {
        s.subrange(pos, s.len() as int)
    } else {
        s.subrange(pos, i) + to + replace_from(s, from, to, i + from.len())
    }
}

/// `str::replace` with a non-empty pattern.
pub open spec fn replace(s: Seq<char>, from: Seq<char>, to: Seq<char>) -> Seq<char> {
    replace_from(s, from, to, 0)
}

/// Replacing a pattern whose first character does not occur leaves the text
/// as it is.
pub proof fn lemma_replace_absent(s: Seq<char>, from: Seq<char>, to: Seq<char>)
    requires
        from.len() > 0,
        forall|j: int| 0 <= j < s.len() ==> s[j] != from[0],
    ensures
        replace(s, from, to) == s,
{
    lemma_find_from(s, from, 0);
    let i = find_from(s, from, 0);
    if i != -1 {
        assert(s.subrange(i, i + from.len())[0] == s[i]);
    }
    assert(s.subrange(0, s.len() as int) =~= s);
}

/// `str::replace` on character vectors.
pub fn replace_chars(v: &[char], from: &[char], to: &[char]) -> (r: Vec<char>)
    requires
        from@.len() > 0,
    ensures
        r@ == replace(v@, from@, to@),
{
    let mut r: Vec<char> = Vec::new();
    let mut pos: usize = 0;
    loop
        invariant
            from@.len() > 0,
            pos <= v.len(),
            replace(v@, from@, to@) == r@ + replace_from(v@, from@, to@, pos as int),
        decreases v.len() - pos,
    {
        let found = find_chars_from(v, from, pos);
        proof {
            lemma_find_from(v@, from@, pos as int);
        }
        match found {
            Some(i) => {
                let ghost old_r = r@;
                let mut k = pos;
                while k < i
                    invariant
                        pos <= k <= i,
                        i <= v.len(),
                        r@ == old_r + v@.subrange(pos as int, k as int),
                    decreases i - k,
                {
                    r.push(v[k]);
                    assert(v@.subrange(pos as int, k as int).push(v@[k as int]) =~= v@.subrange(
                        pos as int,
                        k + 1,
                    ));
                    k = k + 1;
                }
                let mut t: usize = 0;
                while t < to.len()
                    invariant
                        t <= to.len(),
                        r@ == old_r + v@.subrange(pos as int, i as int) + to@.take(t as int),
                    decreases to.len() - t,
                {
                    r.push(to[t]);
                    assert(to@.take(t as int).push(to@[t as int]) =~= to@.take(t + 1));
                    t = t + 1;
                }
                assert(to@.take(to.len() as int) =~= to@);
                assert(r@ + replace_from(v@, from@, to@, (i + from.len()) as int) =~= old_r
                    + replace_from(v@, from@, to@, pos as int));
                pos = i + from.len();
            },
            None => {
                let ghost old_r = r@;
                let mut k = pos;
                while k < v.len()
                    invariant
                        pos <= k <= v.len(),
                        r@ == old_r + v@.subrange(pos as int, k as int),
                    decreases v.len() - k,
                {
                    r.push(v[k]);
                    assert(v@.subrange(pos as int, k as int).push(v@[k as int]) =~= v@.subrange(
                        pos as int,
                        k + 1,
                    ));
                    k = k + 1;
                }
                return r;
            },
        }
    }
}


/// The decimal digit character for `d < 10`.
pub open spec fn digit_char(d: nat) -> char {
    ((d + 48) as u8) as char
}

/// The decimal representation of `n` (what `to_string` gives for an unsigned
/// integer).
pub open spec fn decimal(n: nat) -> Seq<char>
    decreases n,
{
    if n < 10 {
        seq![digit_char(n)]
    } else {
        decimal(n / 10).push(digit_char(n % 10))
    }
}

/// The decimal representation of a signed integer (`i64::to_string`).
pub open spec fn decimal_int(n: int) -> Seq<char> {
    if n < 0 {
        seq!['-'] + decimal((-n) as nat)
    } else {
        decimal(n as nat)
    }
}

fn push_decimal(n: u64, out: &mut Vec<char>)
    ensures
        final(out)@ == old(out)@ + decimal(n as nat),
    decreases n,
{
    if n >= 10 {
        push_decimal(n / 10, out);
    }
    let d = (n % 10) as u8;
    let c = (d + 48) as char;
    proof {
        assert(c == digit_char((n % 10) as nat));
    }
    out.push(c);
    proof {
        if n >= 10 {
            assert(decimal(n as nat) == decimal((n / 10) as nat).push(digit_char((n % 10) as nat)));
        }
    }
}

/// `u64::to_string` as characters.
pub fn u64_decimal(n: u64) -> (r: Vec<char>)
    ensures
        r@ == decimal(n as nat),
{
    let mut r: Vec<char> = Vec::new();
    push_decimal(n, &mut r);
    assert(r@ =~= decimal(n as nat));
    r
}

/// `i64::to_string` as characters.
pub fn i64_decimal(n: i64) -> (r: Vec<char>)
    ensures
        r@ == decimal_int(n as int),
{
    let mut r: Vec<char> = Vec::new();
    if n < 0 {
        r.push('-');
        let m: u64 = if n == i64::MIN {
            9223372036854775808u64
        } else {
            (-n) as u64
        };
        push_decimal(m, &mut r);
    } else {
        push_decimal(n as u64, &mut r);
    }
    assert(r@ =~= decimal_int(n as int));
    r
}

/// Whether `c` is an ASCII decimal digit.
pub open spec fn is_digit(c: char) -> bool {
    '0' <= c && c <= '9'
}

/// The value of a string of decimal digits.
pub open spec fn digits_value(s: Seq<char>) -> nat
    decreases s.len(),
{
    if s.len() == 0 {
        0
    } else {
        digits_value(s.drop_last()) * 10 + ((s.last() as u32) - 48) as nat
    }
}

pub open spec fn all_digits(s: Seq<char>) -> bool {
    forall|i: int| 0 <= i < s.len() ==> is_digit(#[trigger] s[i])
}

/// What `str::parse::<u64>` accepts and yields: an optional `+`, then one or
/// more decimal digits whose value fits in a `u64`.
pub open spec fn parse_u64(s: Seq<char>) -> Option<u64> {
    let t = if s.len() > 0 && s[0] == '+' {
        s.drop_first()
    } else {
        s
    };
    if t.len() > 0 && all_digits(t) && digits_value(t) <= u64::MAX {
        Some(digits_value(t) as u64)
    } else {
        None
    }
}

proof fn lemma_digits_value_monotone(s: Seq<char>, i: int)
    requires
        0 <= i <= s.len(),
        all_digits(s),
    ensures
        digits_value(s.take(i)) <= digits_value(s),
    decreases s.len() - i,
{
    if i < s.len() {
        lemma_digits_value_monotone(s, i + 1);
        assert(s.take(i + 1).drop_last() =~= s.take(i));
        assert(digits_value(s.take(i + 1)) == digits_value(s.take(i)) * 10 + ((s.take(i + 1).last() as u32) - 48) as nat);
    } else {
        assert(s.take(i) =~= s);
    }
}

/// `str::parse::<u64>` on characters.
pub fn chars_parse_u64(v: &[char]) -> (r: Option<u64>)
    ensures
        r == parse_u64(v@),
{
    let start: usize = if v.len() > 0 && v[0] == '+' {
        1
    } else {
        0
    };
    let ghost t = if v@.len() > 0 && v@[0] == '+' {
        v@.drop_first()
    } else {
        v@
    };
    assert(t =~= v@.subrange(start as int, v@.len() as int));
    if start >= v.len() {
        return None;
    }
    let mut acc: u64 = 0;
    let mut i = start;
    while i < v.len()
        invariant
            start <= i <= v.len(),
            t == v@.subrange(start as int, v@.len() as int),
            t == (if v@.len() > 0 && v@[0] == '+' {
                v@.drop_first()
            } else {
                v@
            }),
            all_digits(v@.subrange(start as int, i as int)),
            acc as nat == digits_value(v@.subrange(start as int, i as int)),
        decreases v.len() - i,
    {
        let c = v[i];
        let ghost pre = v@.subrange(start as int, i as int);
        let ghost next = v@.subrange(start as int, i + 1);
        assert(next.drop_last() =~= pre);
        if !('0' <= c && c <= '9') {
            assert(t[i - start] == c);
            assert(!is_digit(t[i - start]));
            assert(!all_digits(t));
            return None;
        }
        assert(next.last() == c);
        let d = (c as u32 - 48) as u64;
        if acc > (u64::MAX - d) / 10 {
            proof {
                assert(digits_value(next) == acc * 10 + d);
                assert(acc * 10 + d > u64::MAX) by (nonlinear_arith)
                    requires
                        acc > (u64::MAX - d) / 10,
                        d <= 9,
                ;
            }
            proof {
                if all_digits(t) {
                    assert(next =~= t.take((i + 1 - start) as int));
                    lemma_digits_value_monotone(t, (i + 1 - start) as int);
                }
                if all_digits(t) {
                    assert(digits_value(t) > u64::MAX);
                }
                assert(parse_u64(v@) is None);
            }
            return None;
        }
        proof {
            assert(acc * 10 + d <= u64::MAX) by (nonlinear_arith)
                requires
                    acc <= (u64::MAX - d) / 10,
                    d <= 9,
            ;
        }
        acc = acc * 10 + d;
        i = i + 1;
    }
    Some(acc)
}

/// ASCII lowercase of one character (`char::to_ascii_lowercase`).
pub open spec fn lower_char(c: char) -> char {
    if 'A' <= c && c <= 'Z' {
        ((c as u32) + 32) as char
    } else {
        c
    }
}

/// ASCII lowercase of a string (`str::to_ascii_lowercase`).
pub open spec fn lower(s: Seq<char>) -> Seq<char> {
    s.map_values(|c: char| lower_char(c))
}

/// `str::to_ascii_lowercase` on characters.
pub fn chars_lower(v: &[char]) -> (r: Vec<char>)
    ensures
        r@ == lower(v@),
{
    let mut r: Vec<char> = Vec::new();
    let mut i: usize = 0;
    while i < v.len()
        invariant
            i <= v.len(),
            r@ == lower(v@.take(i as int)),
        decreases v.len() - i,
    {
        let c = v[i];
        let l = if 'A' <= c && c <= 'Z' {
            ((c as u32) + 32) as u8 as char
        } else {
            c
        };
        proof {
            if 'A' <= c && c <= 'Z' {
                assert(((c as u32) + 32) as u8 as char == ((c as u32) + 32) as char);
            }
        }
        r.push(l);
        assert(lower(v@.take(i + 1)) =~= lower(v@.take(i as int)).push(lower_char(c)));
        i = i + 1;
    }
    assert(v@.take(v.len() as int) =~= v@);
    r
}

/// Pieces joined with `sep` between them (`[T]::join`).
pub open spec fn join(parts: Seq<Seq<char>>, sep: Seq<char>) -> Seq<char>
    decreases parts.len(),
{
    if parts.len() == 0 {
        Seq::empty()
    } else if parts.len() == 1 {
        parts[0]
    } else {
        join(parts.drop_last(), sep) + sep + parts.last()
    }
}

/// `join` on character vectors.
pub fn join_chars(parts: &Vec<Vec<char>>, sep: &[char]) -> (r: Vec<char>)
    ensures
        r@ == join(views(parts@), sep@),
{
    let mut r: Vec<char> = Vec::new();
    let mut i: usize = 0;
    while i < parts.len()
        invariant
            i <= parts.len(),
            r@ == join(views(parts@).take(i as int), sep@),
        decreases parts.len() - i,
    {
        let ghost before = r@;
        if i > 0 {
            append_chars(&mut r, sep);
        }
        append_chars(&mut r, parts[i].as_slice());
        proof {
            let vs = views(parts@);
            assert(vs.take(i + 1).drop_last() =~= vs.take(i as int));
            assert(vs.take(i + 1).last() == parts@[i as int]@);
            if i == 0 {
                assert(vs.take(1) =~= seq![parts@[0]@]);
            }
        }
        i = i + 1;
    }
    assert(views(parts@).take(parts.len() as int) =~= views(parts@));
    r
}

/// Appends the characters of `w` to `r`.
pub fn append_chars(r: &mut Vec<char>, w: &[char])
    ensures
        final(r)@ == old(r)@ + w@,
{
    let ghost start = r@;
    let mut k: usize = 0;
    while k < w.len()
        invariant
            k <= w.len(),
            r@ == start + w@.take(k as int),
        decreases w.len() - k,
    {
        r.push(w[k]);
        assert(w@.take(k as int).push(w@[k as int]) =~= w@.take(k + 1));
        k = k + 1;
    }
    assert(w@.take(w.len() as int) =~= w@);
}

/// `s` with every trailing copy of `p` removed (`str::trim_end_matches`).
pub open spec fn strip_suffixes(s: Seq<char>, p: Seq<char>) -> Seq<char>
    decreases s.len(),
{
    if p.len() > 0 && ends_with(s, p) {
        strip_suffixes(s.take(s.len() - p.len()), p)
    } else {
        s
    }
}

/// `s.trim_end_matches(suffix)` with a non-empty suffix.
pub fn strip_all(s: &str, suffix: &str) -> (r: String)
    requires
        suffix@.len() > 0,
    ensures
        r@ == strip_suffixes(s@, suffix@),
{
    let mut v = chars_of(s);
    let p = chars_of(suffix);
    while chars_ends_with(v.as_slice(), p.as_slice())
        invariant
            p@ == suffix@,
            p@.len() > 0,
            strip_suffixes(s@, p@) == strip_suffixes(v@, p@),
        decreases v.len(),
    {
        let n = v.len() - p.len();
        let head = sub_chars(v.as_slice(), 0, n);
        assert(head@ =~= v@.take(v@.len() - p@.len()));
        v = head;
    }
    string_of(v.as_slice())
}

/// `a` followed by `b`.
pub fn cat(a: &str, b: &str) -> (r: String)
    ensures
        r@ == a@ + b@,
{
    let mut v = chars_of(a);
    append_str(&mut v, b);
    string_of(v.as_slice())
}

/// `s.replace(from, to)` with a non-empty pattern.
pub fn replace_str(s: &str, from: &str, to: &str) -> (r: String)
    requires
        from@.len() > 0,
    ensures
        r@ == replace(s@, from@, to@),
{
    let v = chars_of(s);
    let f = chars_of(from);
    let t = chars_of(to);
    let out = replace_chars(v.as_slice(), f.as_slice(), t.as_slice());
    string_of(out.as_slice())
}

/// Appends the characters of `s` to `r`.
pub fn append_str(r: &mut Vec<char>, s: &str)
    ensures
        final(r)@ == old(r)@ + s@,
{
    let w = chars_of(s);
    append_chars(r, w.as_slice());
}


/// What `str::parse::<i64>` accepts and yields: an optional sign, then one or
/// more decimal digits whose signed value fits in an `i64`.
pub open spec fn parse_i64_spec(s: Seq<char>) -> Option<i64> {
    let neg = s.len() > 0 && s[0] == '-';
    let t = if s.len() > 0 && (s[0] == '+' || s[0] == '-') {
        s.drop_first()
    } else {
        s
    };
    if t.len() > 0 && all_digits(t) {
        if neg && digits_value(t) <= 9223372036854775808 {
            Some((0 - digits_value(t)) as i64)
        } else if !neg && digits_value(t) <= 9223372036854775807 {
            Some(digits_value(t) as i64)
        } else {
            None
        }
    } else {
        None
    }
}

/// `str::parse::<i64>` on characters.
pub fn parse_i64(v: &[char]) -> (r: Option<i64>)
    ensures
        r == parse_i64_spec(v@),
{
    let neg = v.len() > 0 && v[0] == '-';
    let signed = v.len() > 0 && (v[0] == '+' || v[0] == '-');
    let start: usize = if signed {
        1
    } else {
        0
    };
    let ghost t = if v@.len() > 0 && (v@[0] == '+' || v@[0] == '-') {
        v@.drop_first()
    } else {
        v@
    };
    assert(t =~= v@.subrange(start as int, v@.len() as int));
    if start >= v.len() {
        return None;
    }
    let limit: u64 = if neg {
        9223372036854775808u64
    } else {
        9223372036854775807u64
    };
    let mut acc: u64 = 0;
    let mut i = start;
    while i < v.len()
        invariant
            start <= i <= v.len(),
            t == v@.subrange(start as int, v@.len() as int),
            t == (if v@.len() > 0 && (v@[0] == '+' || v@[0] == '-') {
                v@.drop_first()
            } else {
                v@
            }),
            neg == (v@.len() > 0 && v@[0] == '-'),
            limit == (if neg {
                9223372036854775808u64
            } else {
                9223372036854775807u64
            }),
            all_digits(v@.subrange(start as int, i as int)),
            acc as nat == digits_value(v@.subrange(start as int, i as int)),
            acc <= limit,
        decreases v.len() - i,
    {
        let c = v[i];
        let ghost pre = v@.subrange(start as int, i as int);
        let ghost next = v@.subrange(start as int, i + 1);
        assert(next.drop_last() =~= pre);
        if !('0' <= c && c <= '9') {
            assert(t[i - start] == c);
            assert(!is_digit(t[i - start]));
            assert(!all_digits(t));
            return None;
        }
        assert(next.last() == c);
        let d = (c as u32 - 48) as u64;
        if acc > (limit - d) / 10 {
            proof {
                assert(digits_value(next) == acc * 10 + d);
                assert(acc * 10 + d > limit) by (nonlinear_arith)
                    requires
                        acc > (limit - d) / 10,
                        d <= 9,
                        d <= limit,
                ;
                if all_digits(t) {
                    assert(next =~= t.take((i + 1 - start) as int));
                    lemma_digits_value_monotone(t, (i + 1 - start) as int);
                    assert(digits_value(t) > limit);
                }
            }
            return None;
        }
        proof {
            assert(acc * 10 + d <= limit) by (nonlinear_arith)
                requires
                    acc <= (limit - d) / 10,
                    d <= 9,
                    d <= limit,
            ;
        }
        acc = acc * 10 + d;
        i = i + 1;
    }
    if neg {
        if acc == 9223372036854775808u64 {
            Some(i64::MIN)
        } else {
            Some(-(acc as i64))
        }
    } else {
        Some(acc as i64)
    }
}


/// Views of a sequence of strings.
pub open spec fn string_views(v: Seq<String>) -> Seq<Seq<char>> {
    v.map_values(|x: String| x@)
}

/// The pieces trimmed, with the empty ones dropped.
pub open spec fn nonempty_trimmed(parts: Seq<Seq<char>>) -> Seq<Seq<char>>
    decreases parts.len(),
{
    if parts.len() == 0 {
        Seq::empty()
    } else if trim(parts.last()).len() == 0 {
        nonempty_trimmed(parts.drop_last())
    } else {
        nonempty_trimmed(parts.drop_last()).push(trim(parts.last()))
    }
}

/// `value.split(sep).map(str::trim).filter(|s| !s.is_empty())`, collected.
pub fn split_trim_nonempty(value: &str, sep: &str) -> (r: Vec<String>)
    ensures
        string_views(r@) == nonempty_trimmed(split(value@, sep@)),
{
    let v = chars_of(value);
    let p = chars_of(sep);
    let parts = split_chars(v.as_slice(), p.as_slice());
    let ghost pv = views(parts@);
    let mut r: Vec<String> = Vec::new();
    let mut i: usize = 0;
    while i < parts.len()
        invariant
            i <= parts.len(),
            pv == views(parts@),
            string_views(r@) == nonempty_trimmed(pv.take(i as int)),
        decreases parts.len() - i,
    {
        let t = trim_chars(parts[i].as_slice());
        proof {
            assert(pv.take(i + 1).drop_last() =~= pv.take(i as int));
            assert(pv.take(i + 1).last() == parts@[i as int]@);
        }
        if t.len() > 0 {
            let ghost old_r = r@;
            r.push(string_of(t.as_slice()));
            assert(string_views(r@) =~= string_views(old_r).push(t@));
        }
        i = i + 1;
    }
    assert(pv.take(parts.len() as int) =~= pv);
    r
}

/// Each string trimmed, with the blank ones dropped.
pub fn trimmed_nonblank(items: &Vec<String>) -> (r: Vec<String>)
    ensures
        string_views(r@) == nonempty_trimmed(string_views(items@)),
{
    let ghost iv = string_views(items@);
    let mut r: Vec<String> = Vec::new();
    let mut i: usize = 0;
    while i < items.len()
        invariant
            i <= items.len(),
            iv == string_views(items@),
            string_views(r@) == nonempty_trimmed(iv.take(i as int)),
        decreases items.len() - i,
    {
        let c = chars_of(items[i].as_str());
        let t = trim_chars(c.as_slice());
        proof {
            assert(iv.take(i + 1).drop_last() =~= iv.take(i as int));
            assert(iv.take(i + 1).last() == items@[i as int]@);
        }
        if t.len() > 0 {
            let ghost old_r = r@;
            r.push(string_of(t.as_slice()));
            assert(string_views(r@) =~= string_views(old_r).push(t@));
        }
        i = i + 1;
    }
    assert(iv.take(items.len() as int) =~= iv);
    r
}

/// How many copies of `c` end `s`.
pub open spec fn trailing_count(s: Seq<char>, c: char) -> nat
    decreases s.len(),
{
    if s.len() > 0 && s.last() == c {
        1 + trailing_count(s.drop_last(), c)
    } else {
        0
    }
}

/// `str::trim_end_matches(c)`.
pub open spec fn trim_end_char(s: Seq<char>, c: char) -> Seq<char> {
    s.take(s.len() - trailing_count(s, c))
}

pub proof fn lemma_trailing_count(s: Seq<char>, c: char, k: int)
    requires
        0 <= k <= s.len(),
        forall|j: int| s.len() - k <= j < s.len() ==> #[trigger] s[j] == c,
        k < s.len() ==> s[s.len() - k - 1] != c,
    ensures
        trailing_count(s, c) == k,
    decreases k,
{
    if k > 0 {
        let t = s.drop_last();
        assert forall|j: int| t.len() - (k - 1) <= j < t.len() implies #[trigger] t[j] == c by {
            assert(t[j] == s[j]);
        }
        if k - 1 < t.len() {
            assert(t[t.len() - (k - 1) - 1] == s[s.len() - k - 1]);
        }
        lemma_trailing_count(t, c, k - 1);
    }
}

/// The copies of `c` that end `s` are exactly its last `trailing_count`
/// characters.
pub proof fn lemma_trailing_shape(s: Seq<char>, c: char)
    ensures
        trailing_count(s, c) <= s.len(),
        forall|j: int| s.len() - trailing_count(s, c) <= j < s.len() ==> #[trigger] s[j] == c,
        trailing_count(s, c) < s.len() ==> s[s.len() - trailing_count(s, c) - 1] != c,
    decreases s.len(),
{
    if s.len() > 0 && s.last() == c {
        let t = s.drop_last();
        lemma_trailing_shape(t, c);
        assert forall|j: int| s.len() - trailing_count(s, c) <= j < s.len() implies #[trigger] s[j]
            == c by {
            if j < s.len() - 1 {
                assert(s[j] == t[j]);
            }
        }
        if trailing_count(s, c) < s.len() {
            assert(s[s.len() - trailing_count(s, c) - 1] == t[t.len() - trailing_count(t, c) - 1]);
        }
    }
}

/// A string that neither starts nor ends with white space trims to itself.
pub proof fn lemma_trim_unchanged(s: Seq<char>)
    requires
        s.len() > 0,
        !is_ws(s[0]),
        !is_ws(s.last()),
    ensures
        trim(s) == s,
{
    assert(ws_prefix_len(s) == 0);
    assert(trim_start(s) =~= s);
    assert(ws_suffix_len(s) == 0);
    assert(trim_end(s) =~= s);
}

/// `trim_end_char` on characters.
pub fn chars_trim_end_char(v: &[char], c: char) -> (r: Vec<char>)
    ensures
        r@ == trim_end_char(v@, c),
{
    let mut b = v.len();
    while b > 0 && v[b - 1] == c
        invariant
            b <= v.len(),
            forall|j: int| b <= j < v.len() ==> #[trigger] v@[j] == c,
        decreases b,
    {
        b = b - 1;
    }
    proof {
        lemma_trailing_count(v@, c, (v.len() - b) as int);
    }
    sub_chars(v, 0, b)
}


pub proof fn lemma_trim_idempotent(s: Seq<char>)
    ensures
        trim(trim(s)) == trim(s),
{
    let t = trim(s);
    lemma_ws_prefix_len_bound(s);
    let a = trim_start(s);
    lemma_ws_suffix_len_bound(a);
    if t.len() > 0 {
        assert(t[0] == a[0]);
        assert(!is_ws(t[0])) by {
            if ws_suffix_len(a) < a.len() {
                lemma_ws_prefix_len_bound(s);
            }
        }
        lemma_ws_prefix_len_is(t, 0);
        assert(t[t.len() - 1] == a[a.len() - ws_suffix_len(a) - 1]);
        lemma_ws_suffix_len_is(t, 0);
        assert(t.subrange(0, t.len() as int) =~= t);
        assert(t.subrange(0, t.len() as int) =~= t);
    } else {
        assert(trim(t) =~= t);
    }
}

} // verus!
