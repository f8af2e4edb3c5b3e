//! Character classes and small string utilities shared by the parsers and
//! formatters: whitespace trimming, first-occurrence search, and decimal
//! rendering of integers.

use vstd::prelude::*;

verus! {

/// The whitespace characters this crate trims: the ASCII set.
pub open spec fn is_space(c: char) -> bool {
    c == ' ' || c == '\t' || c == '\r' || c == '\n' || c == '\u{b}' || c == '\u{c}'
}

/// Whether `c` may start an environment-variable name: a letter or `_`.
pub open spec fn is_key_start(c: char) -> bool {
    ('A' <= c && c <= 'Z') || ('a' <= c && c <= 'z') || c == '_'
}

/// Whether `c` may continue an environment-variable name.
pub open spec fn is_key_continue(c: char) -> bool {
    is_key_start(c) || ('0' <= c && c <= '9')
}

pub fn char_is_space(c: char) -> (r: bool)
    ensures
        r == is_space(c),
{
    c == ' ' || c == '\t' || c == '\r' || c == '\n' || c == '\u{b}' || c == '\u{c}'
}

pub fn char_is_key_start(c: char) -> (r: bool)
    ensures
        r == is_key_start(c),
{
    ('A' <= c && c <= 'Z') || ('a' <= c && c <= 'z') || c == '_'
}

pub fn char_is_key_continue(c: char) -> (r: bool)
    ensures
        r == is_key_continue(c),
{
    char_is_key_start(c) || ('0' <= c && c <= '9')
}

/// What is left of `s` after dropping leading whitespace.
pub open spec fn trim_start(s: Seq<char>) -> Seq<char>
    decreases s.len(),
{
    if s.len() > 0 && is_space(s[0]) {
        trim_start(s.drop_first())
    } else {
        s
    }
}

/// What is left of `s` after dropping trailing whitespace.
pub open spec fn trim_end(s: Seq<char>) -> Seq<char>
    decreases s.len(),
{
    if s.len() > 0 && is_space(s.last()) {
        trim_end(s.drop_last())
    } else {
        s
    }
}

/// `s` with whitespace dropped from both ends.
pub open spec fn trimmed(s: Seq<char>) -> Seq<char> {
    trim_end(trim_start(s))
}

proof fn lemma_trim_start_step(s: Seq<char>, from: int, to: int)
    requires
        0 <= from < to <= s.len(),
        is_space(s[from]),
    ensures
        trim_start(s.subrange(from, to)) == trim_start(s.subrange(from + 1, to)),
{
    assert(s.subrange(from, to).drop_first() =~= s.subrange(from + 1, to));
}

proof fn lemma_trim_end_step(s: Seq<char>, from: int, to: int)
    requires
        0 <= from < to <= s.len(),
        is_space(s[to - 1]),
    ensures
        trim_end(s.subrange(from, to)) == trim_end(s.subrange(from, to - 1)),
{
    assert(s.subrange(from, to).drop_last() =~= s.subrange(from, to - 1));
}

/// Bounds of the trimmed core of `s[from..to]`: trimming that range yields
/// exactly the range between the returned bounds.
pub fn trim_bounds(s: &str, from: usize, to: usize) -> (r: (usize, usize))
    requires
        from <= to <= s@.len(),
    ensures
        from <= r.0 <= r.1 <= to,
        trimmed(s@.subrange(from as int, to as int)) == s@.subrange(r.0 as int, r.1 as int),
{
    let mut a = from;
    while a < to && char_is_space(s.get_char(a))
        invariant
            from <= a <= to <= s@.len(),
            trim_start(s@.subrange(from as int, to as int)) == trim_start(
                s@.subrange(a as int, to as int),
            ),
        decreases to - a,
    {
        proof {
            lemma_trim_start_step(s@, a as int, to as int);
        }
        a = a + 1;
    }
    proof {
        if a < to {
            assert(s@.subrange(a as int, to as int)[0] == s@[a as int]);
        }
        assert(trim_start(s@.subrange(a as int, to as int)) == s@.subrange(a as int, to as int));
    }
    let mut b = to;
    while b > a && char_is_space(s.get_char(b - 1))
        invariant
            from <= a <= b <= to <= s@.len(),
            trim_start(s@.subrange(from as int, to as int)) == s@.subrange(a as int, to as int),
            trim_end(s@.subrange(a as int, to as int)) == trim_end(s@.subrange(a as int, b as int)),
        decreases b,
    {
        proof {
            lemma_trim_end_step(s@, a as int, b as int);
        }
        b = b - 1;
    }
    proof {
        if b > a {
            assert(s@.subrange(a as int, b as int).last() == s@[b - 1]);
        }
        assert(trim_end(s@.subrange(a as int, b as int)) == s@.subrange(a as int, b as int));
    }
    (a, b)
}

/// Index of the first occurrence of `c` in `s`, or `-1` when absent.
pub open spec fn find_first(s: Seq<char>, c: char) -> int
    decreases s.len(),
{
    if s.len() == 0 {
        -1
    } else if s[0] == c {
        0
    } else {
        let r = find_first(s.drop_first(), c);
        if r < 0 {
            -1
        } else {
            r + 1
        }
    }
}

pub proof fn lemma_find_first_characterization(s: Seq<char>, c: char)
    ensures
        find_first(s, c) == -1 ==> forall|i: int| 0 <= i < s.len() ==> s[i] != c,
        find_first(s, c) != -1 ==> {
            let f = find_first(s, c);
            &&& 0 <= f < s.len()
            &&& s[f] == c
            &&& forall|i: int| 0 <= i < f ==> s[i] != c
        },
    decreases s.len(),
{
    if s.len() > 0 && s[0] != c {
        lemma_find_first_characterization(s.drop_first(), c);
        assert forall|i: int| 1 <= i < s.len() implies s[i] == s.drop_first()[i - 1] by {}
    }
}

/// Converse: a first occurrence at `f` pins down `find_first`.
pub proof fn lemma_find_first_from_witness(s: Seq<char>, c: char, f: int)
    requires
        0 <= f < s.len(),
        s[f] == c,
        forall|i: int| 0 <= i < f ==> s[i] != c,
    ensures
        find_first(s, c) == f,
{
    lemma_find_first_characterization(s, c);
}

pub proof fn lemma_find_first_none(s: Seq<char>, c: char)
    requires
        forall|i: int| 0 <= i < s.len() ==> s[i] != c,
    ensures
        find_first(s, c) == -1,
{
    lemma_find_first_characterization(s, c);
}

/// First occurrence of `c` in `s[from..to]`, as an absolute index.
pub fn find_char(s: &str, from: usize, to: usize, c: char) -> (r: Option<usize>)
    requires
        from <= to <= s@.len(),
    ensures
        match r {
            Some(i) => {
                &&& from <= i < to
                &&& s@[i as int] == c
                &&& forall|j: int| from <= j < i ==> s@[j] != c
            },
            None => forall|j: int| from <= j < to ==> s@[j] != c,
        },
{
    let mut i = from;
    while i < to
        invariant
            from <= i <= to <= s@.len(),
            forall|j: int| from <= j < i ==> s@[j] != c,
        decreases to - i,
    {
        if s.get_char(i) == c {
            return Some(i);
        }
        i = i + 1;
    }
    None
}

/// Whether two strings hold the same characters.
pub fn str_eq(a: &str, b: &str) -> (r: bool)
    ensures
        r == (a@ == b@),
{
    let na = a.unicode_len();
    let nb = b.unicode_len();
    if na != nb {
        return false;
    }
    let mut i: usize = 0;
    while i < na
        invariant
            na == a@.len(),
            na == b@.len(),
            i <= na,
            forall|j: int| 0 <= j < i ==> a@[j] == b@[j],
        decreases na - i,
    {
        if a.get_char(i) != b.get_char(i) {
            return false;
        }
        i = i + 1;
    }
    proof {
        assert(a@ =~= b@);
    }
    true
}

/// The decimal digit character for `d` below ten.
pub open spec fn digit_char(d: nat) -> char {
    if d == 0 {
        '0'
    } else if d == 1 {
        '1'
    } else if d == 2 {
        '2'
    } else if d == 3 {
        '3'
    } else if d == 4 {
        '4'
    } else if d == 5 {
        '5'
    } else if d == 6 {
        '6'
    } else if d == 7 {
        '7'
    } else if d == 8 {
        '8'
    } else {
        '9'
    }
}

/// The decimal rendering of `n`, most significant digit first.
pub open spec fn dec_str(n: nat) -> Seq<char>
    decreases n,
{
    if n < 10 {
        seq![digit_char(n)]
    } else {
        dec_str(n / 10) + seq![digit_char(n % 10)]
    }
}

fn digit_str(d: u64) -> (r: &'static str)
    requires
        d < 10,
    ensures
        r@ =~= seq![digit_char(d as nat)],
{
    proof {
        reveal_strlit("0");
        reveal_strlit("1");
        reveal_strlit("2");
        reveal_strlit("3");
        reveal_strlit("4");
        reveal_strlit("5");
        reveal_strlit("6");
        reveal_strlit("7");
        reveal_strlit("8");
        reveal_strlit("9");
    }
    if d == 0 {
        "0"
    } else if d == 1 {
        "1"
    } else if d == 2 {
        "2"
    } else if d == 3 {
        "3"
    } else if d == 4 {
        "4"
    } else if d == 5 {
        "5"
    } else if d == 6 {
        "6"
    } else if d == 7 {
        "7"
    } else if d == 8 {
        "8"
    } else {
        "9"
    }
}

spec fn digit_chars(ds: Seq<u64>) -> Seq<char> {
    ds.map_values(|d: u64| digit_char(d as nat))
}

/// Renders `n` in decimal.
pub fn u64_to_string(n: u64) -> (s: String)
    ensures
        s@ == dec_str(n as nat),
{
    let mut m: u64 = n;
    // Least significant digit first.
    let mut digits: Vec<u64> = Vec::new();
    while m >= 10
        invariant
            dec_str(n as nat) == dec_str(m as nat) + digit_chars(digits@).reverse(),
            forall|i: int| 0 <= i < digits@.len() ==> digits@[i] < 10,
        decreases m,
    {
        let ghost old_digits = digits@;
        let ghost old_m = m as nat;
        digits.push(m % 10);
        m = m / 10;
        proof {
            assert(digit_chars(digits@) =~= digit_chars(old_digits).push(
                digit_char(old_m % 10),
            ));
            assert(digit_chars(digits@).reverse() =~= seq![digit_char(old_m % 10)] + digit_chars(
                old_digits,
            ).reverse());
            assert(dec_str(old_m) == dec_str(old_m / 10) + seq![digit_char(old_m % 10)]);
            assert(dec_str(old_m / 10) + seq![digit_char(old_m % 10)] + digit_chars(
                old_digits,
            ).reverse() =~= dec_str(old_m / 10) + digit_chars(digits@).reverse());
        }
    }
    let ghost final_digits = digits@.push(m);
    digits.push(m);
    proof {
        assert(dec_str(m as nat) == seq![digit_char(m as nat)]);
        assert(digit_chars(final_digits) =~= digit_chars(final_digits.drop_last()).push(
            digit_char(m as nat),
        ));
        assert(digit_chars(final_digits).reverse() =~= seq![digit_char(m as nat)] + digit_chars(
            final_digits.drop_last(),
        ).reverse());
        assert(dec_str(n as nat) =~= digit_chars(digits@).reverse());
    }
    let mut s = String::new();
    let mut i = digits.len();
    while i > 0
        invariant
            i <= digits@.len(),
            forall|j: int| 0 <= j < digits@.len() ==> digits@[j] < 10,
            dec_str(n as nat) == digit_chars(digits@).reverse(),
            s@ == digit_chars(digits@).reverse().subrange(0, digits@.len() - i),
        decreases i,
    {
        i = i - 1;
        let d = digits[i];
        s.append(digit_str(d));
        proof {
            let rev = digit_chars(digits@).reverse();
            assert(rev[digits@.len() - 1 - i] == digit_chars(digits@)[i as int]);
            assert(s@ =~= rev.subrange(0, digits@.len() - i));
        }
    }
    proof {
        assert(s@ =~= digit_chars(digits@).reverse());
    }
    s
}

/// Index of the first whitespace character in `s`, or `-1`.
pub open spec fn find_space(s: Seq<char>) -> int
    decreases s.len(),
{
    if s.len() == 0 {
        -1
    } else if is_space(s[0]) {
        0
    } else {
        let r = find_space(s.drop_first());
        if r < 0 {
            -1
        } else {
            r + 1
        }
    }
}

pub proof fn lemma_find_space_characterization(s: Seq<char>)
    ensures
        find_space(s) == -1 ==> forall|i: int| 0 <= i < s.len() ==> !is_space(#[trigger] s[i]),
        find_space(s) != -1 ==> {
            let f = find_space(s);
            &&& 0 <= f < s.len()
            &&& is_space(s[f])
            &&& forall|i: int| 0 <= i < f ==> !is_space(#[trigger] s[i])
        },
    decreases s.len(),
{
    if s.len() > 0 && !is_space(s[0]) {
        lemma_find_space_characterization(s.drop_first());
        assert forall|i: int| 1 <= i < s.len() implies s[i] == s.drop_first()[i - 1] by {}
    }
}

/// Where the token starting at `pos` ends: the first whitespace character at
/// or after `pos`, or the end.
pub open spec fn token_end(s: Seq<char>, pos: int) -> int {
    let f = find_space(s.subrange(pos, s.len() as int));
    if f < 0 {
        s.len() as int
    } else {
        pos + f
    }
}

/// The whitespace-separated tokens of `s` from `pos` on, appended to `acc`.
pub open spec fn tokens_from(s: Seq<char>, pos: int, acc: Seq<Seq<char>>) -> Seq<Seq<char>>
    decreases s.len() - pos when 0 <= pos <= s.len() via tokens_from_decreases
{
    if pos >= s.len() {
        acc
    } else if is_space(s[pos]) {
        tokens_from(s, pos + 1, acc)
    } else {
        let e = token_end(s, pos);
        tokens_from(s, e, acc.push(s.subrange(pos, e)))
    }
}

#[via_fn]
proof fn tokens_from_decreases(s: Seq<char>, pos: int, acc: Seq<Seq<char>>) {
    if 0 <= pos < s.len() && !is_space(s[pos]) {
        lemma_token_end_bounds(s, pos);
    }
}

/// The whitespace-separated tokens of `s`, in order.
pub open spec fn split_ws_spec(s: Seq<char>) -> Seq<Seq<char>> {
    tokens_from(s, 0, Seq::empty())
}

/// The views of a list of strings.
pub open spec fn string_views(ts: Seq<String>) -> Seq<Seq<char>> {
    ts.map_values(|t: String| t@)
}

proof fn lemma_token_end_bounds(s: Seq<char>, pos: int)
    requires
        0 <= pos < s.len(),
        !is_space(s[pos]),
    ensures
        pos < token_end(s, pos) <= s.len(),
        token_end(s, pos) < s.len() ==> is_space(s[token_end(s, pos)]),
        forall|j: int| pos <= j < token_end(s, pos) ==> !is_space(#[trigger] s[j]),
{
    let sub = s.subrange(pos, s.len() as int);
    lemma_find_space_characterization(sub);
    let f = find_space(sub);
    assert(sub[0] == s[pos]);
    if f >= 0 {
        assert(forall|j: int| pos <= j < pos + f ==> s[j] == sub[j - pos]);
        assert(s[pos + f] == sub[f]);
    } else {
        assert(forall|j: int| pos <= j < s.len() ==> s[j] == sub[j - pos]);
    }
}

/// Split `s` at whitespace into its tokens, longest runs of non-whitespace
/// characters, in order.
pub fn split_whitespace(s: &str) -> (r: Vec<String>)
    ensures
        string_views(r@) == split_ws_spec(s@),
{
    let n = s.unicode_len();
    let mut out: Vec<String> = Vec::new();
    let mut pos: usize = 0;
    proof {
        assert(string_views(out@) =~= Seq::<Seq<char>>::empty());
    }
    while pos < n
        invariant
            n == s@.len(),
            pos <= n,
            split_ws_spec(s@) == tokens_from(s@, pos as int, string_views(out@)),
        decreases n - pos,
    {
        if char_is_space(s.get_char(pos)) {
            pos = pos + 1;
        } else {
            proof {
                lemma_token_end_bounds(s@, pos as int);
            }
            let e = match find_space_char(s, pos, n) {
                Some(i) => i,
                None => n,
            };
            proof {
                let sub = s@.subrange(pos as int, n as int);
                if e < n {
                    assert(forall|j: int| 0 <= j < e - pos ==> sub[j] == s@[j + pos]);
                    assert(sub[e - pos] == s@[e as int]);
                    lemma_find_space_from_witness(sub, e - pos);
                } else {
                    assert(forall|j: int| 0 <= j < sub.len() ==> sub[j] == s@[j + pos]);
                    lemma_find_space_none(sub);
                }
                assert(token_end(s@, pos as int) == e as int);
            }
            let ghost old_out = out@;
            let token = String::from_str(s.substring_char(pos, e));
            out.push(token);
            proof {
                assert(string_views(out@) =~= string_views(old_out).push(
                    s@.subrange(pos as int, e as int),
                ));
            }
            pos = e;
        }
    }
    out
}

/// Converse: a first whitespace character at `f` pins down `find_space`.
pub proof fn lemma_find_space_from_witness(s: Seq<char>, f: int)
    requires
        0 <= f < s.len(),
        is_space(s[f]),
        forall|i: int| 0 <= i < f ==> !is_space(#[trigger] s[i]),
    ensures
        find_space(s) == f,
{
    lemma_find_space_characterization(s);
}

pub proof fn lemma_find_space_none(s: Seq<char>)
    requires
        forall|i: int| 0 <= i < s.len() ==> !is_space(#[trigger] s[i]),
    ensures
        find_space(s) == -1,
{
    lemma_find_space_characterization(s);
}

/// First whitespace character of `s[from..to]`, as an absolute index.
pub fn find_space_char(s: &str, from: usize, to: usize) -> (r: Option<usize>)
    requires
        from <= to <= s@.len(),
    ensures
        match r {
            Some(i) => {
                &&& from <= i < to
                &&& is_space(s@[i as int])
                &&& forall|j: int| from <= j < i ==> !is_space(#[trigger] s@[j])
            },
            None => forall|j: int| from <= j < to ==> !is_space(#[trigger] s@[j]),
        },
{
    let mut i: usize = from;
    while i < to
        invariant
            from <= i <= to <= s@.len(),
            forall|j: int| from <= j < i ==> !is_space(#[trigger] s@[j]),
        decreases to - i,
    {
        if char_is_space(s.get_char(i)) {
            return Some(i);
        }
        i = i + 1;
    }
    None
}

} // verus!
