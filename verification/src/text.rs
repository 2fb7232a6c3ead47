//! Character-level utilities shared by the parser and the renderer: the
//! whitespace-tolerant tokenizer, decimal number conversions, and small
//! scanning helpers over `&str`.

use vstd::prelude::*;

verus! {

use crate::is_sep;

/// Number of leading characters of `s` that belong to its first token:
/// the length of the longest prefix free of separators.
pub open spec fn token_len(s: Seq<char>) -> nat
    decreases s.len(),
{
    if s.len() == 0 {
        0
    } else if is_sep(s[0]) {
        0
    } else {
        (token_len(s.drop_first()) + 1) as nat
    }
}

pub proof fn lemma_token_len_bounds(s: Seq<char>)
    ensures
        token_len(s) <= s.len(),
        forall|k: int| 0 <= k < token_len(s) ==> !is_sep(s[k]),
        token_len(s) < s.len() ==> is_sep(s[token_len(s) as int]),
    decreases s.len(),
{
    if s.len() == 0 {
    } else if is_sep(s[0]) {
    } else {
        lemma_token_len_bounds(s.drop_first());
        assert forall|k: int| 0 <= k < token_len(s) implies !is_sep(s[k]) by {
            if k > 0 {
                assert(s.drop_first()[k - 1] == s[k]);
            }
        }
        if token_len(s) < s.len() {
            assert(s.drop_first()[token_len(s) - 1] == s[token_len(s) as int]);
        }
    }
}

/// The ordered tokens of one header line: maximal runs of space and tab
/// separate fields, and leading or trailing runs produce no empty token.
pub open spec fn tokenize(s: Seq<char>) -> Seq<Seq<char>>
    decreases s.len(),
    via tokenize_decreases
{
    if s.len() == 0 {
        seq![]
    } else if is_sep(s[0]) {
        tokenize(s.drop_first())
    } else {
        seq![s.take(token_len(s) as int)] + tokenize(s.skip(token_len(s) as int))
    }
}

#[via_fn]
proof fn tokenize_decreases(s: Seq<char>) {
    lemma_token_len_bounds(s);
}

/// Skipping one leading separator does not change the tokens.
pub proof fn lemma_tokenize_skip_sep(s: Seq<char>, i: int)
    requires
        0 <= i < s.len(),
        is_sep(s[i]),
    ensures
        tokenize(s.skip(i)) == tokenize(s.skip(i + 1)),
{
    let u = s.skip(i);
    assert(u[0] == s[i]);
    assert(u.drop_first() =~= s.skip(i + 1));
}

/// If exactly `m` leading characters of `s` are not separators, the first
/// token has length `m`.
pub proof fn lemma_token_len_exact(s: Seq<char>, m: int)
    requires
        0 <= m <= s.len(),
        forall|k: int| 0 <= k < m ==> !is_sep(s[k]),
        m == s.len() || is_sep(s[m]),
    ensures
        token_len(s) == m,
    decreases m,
{
    if m == 0 {
    } else {
        assert(!is_sep(s[0]));
        let t = s.drop_first();
        assert forall|k: int| 0 <= k < m - 1 implies !is_sep(t[k]) by {
            assert(t[k] == s[k + 1]);
        }
        if m - 1 < t.len() {
            assert(t[m - 1] == s[m]);
        }
        lemma_token_len_exact(t, m - 1);
    }
}

/// A complete token occupies `s[i..j]`: the tokens of the suffix from `i`
/// are that token followed by the tokens of the suffix from `j`.
pub proof fn lemma_tokenize_take_token(s: Seq<char>, i: int, j: int)
    requires
        0 <= i < j <= s.len(),
        forall|k: int| i <= k < j ==> !is_sep(s[k]),
        j == s.len() || is_sep(s[j]),
    ensures
        tokenize(s.skip(i)) == seq![s.subrange(i, j)] + tokenize(s.skip(j)),
{
    let u = s.skip(i);
    assert(u[0] == s[i]);
    assert forall|k: int| 0 <= k < j - i implies !is_sep(u[k]) by {
        assert(u[k] == s[k + i]);
    }
    if j - i < u.len() {
        assert(u[j - i] == s[j]);
    }
    lemma_token_len_exact(u, j - i);
    assert(u.take(j - i) =~= s.subrange(i, j));
    assert(u.skip(j - i) =~= s.skip(j));
}

/// What a field of a header line may be: at least one character, none of
/// which is a separator.
pub open spec fn token_wf(t: Seq<char>) -> bool {
    t.len() > 0 && forall|k: int| 0 <= k < t.len() ==> !is_sep(t[k])
}

pub open spec fn tokens_wf(ts: Seq<Seq<char>>) -> bool {
    forall|i: int| 0 <= i < ts.len() ==> token_wf(#[trigger] ts[i])
}

/// Every token the tokenizer yields is non-empty and free of separators.
pub proof fn lemma_tokenize_tokens_wf(s: Seq<char>)
    ensures
        tokens_wf(tokenize(s)),
    decreases s.len(),
{
    if s.len() == 0 {
    } else if is_sep(s[0]) {
        lemma_tokenize_tokens_wf(s.drop_first());
    } else {
        lemma_token_len_bounds(s);
        let rest = tokenize(s.skip(token_len(s) as int));
        lemma_tokenize_tokens_wf(s.skip(token_len(s) as int));
        let head = s.take(token_len(s) as int);
        assert forall|k: int| 0 <= k < head.len() implies !is_sep(head[k]) by {
            assert(head[k] == s[k]);
        }
        assert(token_wf(head));
        assert forall|i: int| 0 <= i < tokenize(s).len() implies token_wf(
            #[trigger] tokenize(s)[i],
        ) by {
            if i == 0 {
                assert(tokenize(s)[i] == head);
            } else {
                assert(tokenize(s)[i] == rest[i - 1]);
            }
        }
    }
}

/// Joining tokens with single spaces is the canonical form of a header
/// line; tokenizing it yields the tokens back (`lemma_tokenize_join`).
pub open spec fn join_tokens(ts: Seq<Seq<char>>) -> Seq<char>
    decreases ts.len(),
{
    if ts.len() == 0 {
        seq![]
    } else if ts.len() == 1 {
        ts[0]
    } else {
        ts[0] + seq![' '] + join_tokens(ts.drop_first())
    }
}

/// Tokenizing the single-space join of well-formed tokens recovers them.
pub proof fn lemma_tokenize_join(ts: Seq<Seq<char>>)
    requires
        tokens_wf(ts),
    ensures
        tokenize(join_tokens(ts)) == ts,
    decreases ts.len(),
{
    if ts.len() == 0 {
        assert(tokenize(join_tokens(ts)) =~= ts);
    } else if ts.len() == 1 {
        let t = ts[0];
        assert(token_wf(t));
        assert(!is_sep(t[0]));
        lemma_token_len_exact(t, t.len() as int);
        assert(token_len(t) == t.len());
        assert(tokenize(t) == seq![t.take(token_len(t) as int)] + tokenize(
            t.skip(token_len(t) as int),
        ));
        assert(t.take(t.len() as int) =~= t);
        assert(t.skip(t.len() as int) =~= Seq::<char>::empty());
        assert(tokenize(t.skip(t.len() as int)) == Seq::<Seq<char>>::empty());
        assert(join_tokens(ts) == t);
        assert(tokenize(join_tokens(ts)) =~= ts);
    } else {
        let t = ts[0];
        let rest = join_tokens(ts.drop_first());
        let s = t + seq![' '] + rest;
        assert(token_wf(t));
        let l = t.len() as int;
        assert forall|k: int| 0 <= k < l implies !is_sep(s[k]) by {
            assert(s[k] == t[k]);
        }
        assert(s[l] == ' ');
        assert(s.skip(0) =~= s);
        lemma_tokenize_take_token(s, 0, l);
        assert(s.subrange(0, l) =~= t);
        lemma_tokenize_skip_sep(s, l);
        assert(s.skip(l + 1) =~= rest);
        assert(tokens_wf(ts.drop_first())) by {
            assert(forall|i: int|
                0 <= i < ts.drop_first().len() ==> ts.drop_first()[i] == ts[i + 1]);
        }
        lemma_tokenize_join(ts.drop_first());
        assert(tokenize(s) =~= seq![t] + ts.drop_first());
        assert(seq![t] + ts.drop_first() =~= ts);
    }
}

/// Split `s` into its tokens, in order.
pub fn tokenize_line(s: &str) -> (r: Vec<String>)
    ensures
        r.deep_view() == tokenize(s@),
{
    let n = s.unicode_len();
    let mut r: Vec<String> = Vec::new();
    let mut i: usize = 0;
    proof {
        assert(r.deep_view() =~= Seq::<Seq<char>>::empty());
        assert(s@.skip(0) =~= s@);
        assert(tokenize(s@) =~= r.deep_view() + tokenize(s@.skip(0)));
    }
    while i < n
        invariant
            n == s@.len(),
            i <= n,
            tokenize(s@) == r.deep_view() + tokenize(s@.skip(i as int)),
        decreases n - i,
    {
        let c = s.get_char(i);
        if c == ' ' || c == '\t' {
            proof {
                lemma_tokenize_skip_sep(s@, i as int);
            }
            i = i + 1;
        } else {
            let mut j: usize = i + 1;
            loop
                invariant_except_break
                    n == s@.len(),
                    i < j <= n,
                    forall|k: int| i <= k < j ==> !is_sep(s@[k]),
                ensures
                    i < j <= n,
                    forall|k: int| i <= k < j ==> !is_sep(s@[k]),
                    j == n || is_sep(s@[j as int]),
                decreases n - j,
            {
                if j == n {
                    break ;
                }
                let c2 = s.get_char(j);
                if c2 == ' ' || c2 == '\t' {
                    break ;
                }
                j = j + 1;
            }
            let tok = s.substring_char(i, j).to_owned();
            proof {
                lemma_tokenize_take_token(s@, i as int, j as int);
            }
            let ghost old_r = r.deep_view();
            r.push(tok);
            proof {
                assert(r.deep_view() =~= old_r.push(tok@));
                assert(tokenize(s@) =~= r.deep_view() + tokenize(s@.skip(j as int)));
            }
            i = j;
        }
    }
    proof {
        assert(s@.skip(n as int) =~= Seq::<char>::empty());
        assert(tokenize(s@) =~= r.deep_view());
    }
    r
}

} // verus!

verus! {

/// Decimal digit classes and values for the numeric fields of headers.
pub open spec fn is_digit_char(c: char) -> bool {
    '0' <= c && c <= '9'
}

pub open spec fn digit_val(c: char) -> nat
    recommends
        is_digit_char(c),
{
    (c as u32 - '0' as u32) as nat
}

pub open spec fn all_digits(s: Seq<char>) -> bool {
    forall|i: int| 0 <= i < s.len() ==> is_digit_char(s[i])
}

/// The non-negative integer written in base ten by `s`.
pub open spec fn dec_val(s: Seq<char>) -> nat
    recommends
        all_digits(s),
    decreases s.len(),
{
    if s.len() == 0 {
        0
    } else {
        dec_val(s.drop_last()) * 10 + digit_val(s.last())
    }
}

pub open spec fn digit_char(d: nat) -> char
    recommends
        d < 10,
{
    if d == 0 {
        '0'
    } else if d == 1 {
        '1'
    } else if d == 2 {
        '2'
    } else if d == 3 {
        '3'
    } else if d == 4 {
        '4'
    } else if d == 5 {
        '5'
    } else if d == 6 {
        '6'
    } else if d == 7 {
        '7'
    } else if d == 8 {
        '8'
    } else {
        '9'
    }
}

/// The canonical base-ten rendering of `n`: no sign, no leading zero
/// except for zero itself.
pub open spec fn dec_str(n: nat) -> Seq<char>
    decreases n,
{
    if n < 10 {
        seq![digit_char(n)]
    } else {
        dec_str(n / 10).push(digit_char(n % 10))
    }
}

/// `dec_str` writes only digits and reads back as the number it rendered.
pub proof fn lemma_dec_str(n: nat)
    ensures
        dec_str(n).len() >= 1,
        all_digits(dec_str(n)),
        dec_val(dec_str(n)) == n,
    decreases n,
{
    if n < 10 {
        let s = dec_str(n);
        assert(s == seq![digit_char(n)]);
        assert(s.len() == 1);
        assert(s.drop_last() =~= Seq::<char>::empty());
        assert(s.last() == digit_char(n));
        assert(dec_val(s) == dec_val(s.drop_last()) * 10 + digit_val(s.last()));
        assert(dec_val(s.drop_last()) == 0);
        assert(digit_val(digit_char(n)) == n);
        assert(dec_val(s) == n);
    } else {
        lemma_dec_str(n / 10);
        let s = dec_str(n);
        let p = dec_str(n / 10);
        assert(s.drop_last() =~= p);
        assert(s.last() == digit_char(n % 10));
        assert(digit_val(digit_char(n % 10)) == n % 10);
        assert(dec_val(s) == (n / 10) * 10 + n % 10);
        assert forall|i: int| 0 <= i < s.len() implies is_digit_char(s[i]) by {
            if i < p.len() {
                assert(s[i] == p[i]);
            }
        }
    }
}

/// A token made of digits is never mistaken for anything else: `dec_str`
/// output never contains a separator.
pub proof fn lemma_dec_str_token_wf(n: nat)
    ensures
        token_wf(dec_str(n)),
{
    lemma_dec_str(n);
    assert forall|k: int| 0 <= k < dec_str(n).len() implies !is_sep(dec_str(n)[k]) by {
        assert(is_digit_char(dec_str(n)[k]));
    }
}

/// Reading one more digit multiplies the value by ten and adds it.
pub proof fn lemma_dec_val_step(s: Seq<char>, k: int)
    requires
        0 <= k < s.len(),
    ensures
        dec_val(s.take(k + 1)) == dec_val(s.take(k)) * 10 + digit_val(s[k]),
{
    assert(s.take(k + 1).drop_last() =~= s.take(k));
    assert(s.take(k + 1).last() == s[k]);
}

/// The value of a prefix never exceeds the value of the whole string.
pub proof fn lemma_dec_val_prefix_le(s: Seq<char>, i: int)
    requires
        0 <= i <= s.len(),
    ensures
        dec_val(s.take(i)) <= dec_val(s),
    decreases s.len() - i,
{
    if i == s.len() {
        assert(s.take(i) =~= s);
    } else {
        lemma_dec_val_step(s, i);
        lemma_dec_val_prefix_le(s, i + 1);
    }
}

/// Render `n` in base ten.
pub fn u64_to_string(n: u64) -> (r: String)
    ensures
        r@ == dec_str(n as nat),
    decreases n,
{
    let d = n % 10;
    let ds = digit_to_str(d);
    if n < 10 {
        ds.to_owned()
    } else {
        let mut s = u64_to_string(n / 10);
        s.append(ds);
        proof {
            assert(s@ =~= dec_str((n / 10) as nat).push(digit_char((n % 10) as nat)));
        }
        s
    }
}

fn digit_to_str(d: u64) -> (r: &'static str)
    requires
        d < 10,
    ensures
        r@ == seq![digit_char(d as nat)],
{
    proof {
        reveal_strlit("0");
        reveal_strlit("1");
        reveal_strlit("2");
        reveal_strlit("3");
        reveal_strlit("4");
        reveal_strlit("5");
        reveal_strlit("6");
        reveal_strlit("7");
        reveal_strlit("8");
        reveal_strlit("9");
    }
    let r = if d == 0 {
        "0"
    } else if d == 1 {
        "1"
    } else if d == 2 {
        "2"
    } else if d == 3 {
        "3"
    } else if d == 4 {
        "4"
    } else if d == 5 {
        "5"
    } else if d == 6 {
        "6"
    } else if d == 7 {
        "7"
    } else if d == 8 {
        "8"
    } else {
        "9"
    };
    proof {
        assert(r@ =~= seq![digit_char(d as nat)]);
    }
    r
}

/// Read a base-ten `u64` from a whole token. `None` when the token is
/// empty, contains a non-digit, or encodes a value above `u64::MAX`.
pub fn parse_u64_token(t: &str) -> (r: Option<u64>)
    ensures
        r is Some <==> (t@.len() > 0 && all_digits(t@) && dec_val(t@) <= u64::MAX),
        r is Some ==> r->0 as nat == dec_val(t@),
{
    let n = t.unicode_len();
    if n == 0 {
        return None;
    }
    let mut acc: u64 = 0;
    let mut i: usize = 0;
    proof {
        assert(t@.take(0) =~= Seq::<char>::empty());
    }
    while i < n
        invariant
            n == t@.len(),
            0 <= i <= n,
            all_digits(t@.take(i as int)),
            acc as nat == dec_val(t@.take(i as int)),
        decreases n - i,
    {
        let c = t.get_char(i);
        if !crate::is_digit(c) {
            return None;
        }
        let d: u64 = (c as u32 - 48) as u64;
        proof {
            assert(d as nat == digit_val(c));
            lemma_dec_val_step(t@, i as int);
        }
        if acc > (u64::MAX - d) / 10 {
            proof {
                assert(u64::MAX - d == 10 * ((u64::MAX - d) / 10) + (u64::MAX - d) % 10);
                assert(acc as nat * 10 + d as nat > u64::MAX);
                lemma_dec_val_prefix_le(t@, i + 1);
                assert(t@.take(i + 1).take(i as int) =~= t@.take(i as int));
            }
            return None;
        }
        proof {
            assert(acc as nat * 10 + d as nat <= u64::MAX) by {
                assert(u64::MAX - d == 10 * ((u64::MAX - d) / 10) + (u64::MAX - d) % 10);
            }
        }
        acc = acc * 10 + d;
        proof {
            assert forall|k: int| 0 <= k < i + 1 implies is_digit_char(#[trigger] t@.take(
                i + 1,
            )[k]) by {
                if k < i {
                    assert(t@.take(i + 1)[k] == t@.take(i as int)[k]);
                }
            }
        }
        i = i + 1;
    }
    proof {
        assert(t@.take(n as int) =~= t@);
    }
    Some(acc)
}

} // verus!

verus! {

/// `p` is a prefix of `s`.
pub open spec fn starts_with(s: Seq<char>, p: Seq<char>) -> bool {
    p.len() <= s.len() && forall|i: int| 0 <= i < p.len() ==> s[i] == p[i]
}

pub fn str_starts_with(s: &str, p: &str) -> (b: bool)
    ensures
        b == starts_with(s@, p@),
{
    let n = s.unicode_len();
    let m = p.unicode_len();
    if m > n {
        return false;
    }
    let mut i: usize = 0;
    while i < m
        invariant
            n == s@.len(),
            m == p@.len(),
            m <= n,
            0 <= i <= m,
            forall|k: int| 0 <= k < i ==> s@[k] == p@[k],
        decreases m - i,
    {
        if s.get_char(i) != p.get_char(i) {
            return false;
        }
        i = i + 1;
    }
    true
}

/// One trailing CRLF, if present, is not part of a header line.
pub open spec fn strip_crlf(s: Seq<char>) -> Seq<char> {
    if s.len() >= 2 && s[s.len() - 2] == '\r' && s[s.len() - 1] == '\n' {
        s.take(s.len() - 2)
    } else {
        s
    }
}

pub fn strip_crlf_line<'a>(s: &'a str) -> (r: &'a str)
    ensures
        r@ == strip_crlf(s@),
{
    let n = s.unicode_len();
    if n >= 2 && s.get_char(n - 2) == '\r' && s.get_char(n - 1) == '\n' {
        let r = s.substring_char(0, n - 2);
        proof {
            assert(r@ =~= strip_crlf(s@));
        }
        r
    } else {
        s
    }
}

/// A line proper: no carriage return and no line feed anywhere.
pub open spec fn no_cr_lf(s: Seq<char>) -> bool {
    forall|i: int| 0 <= i < s.len() ==> s[i] != '\r' && s[i] != '\n'
}

pub fn contains_cr_or_lf(s: &str) -> (b: bool)
    ensures
        b == !no_cr_lf(s@),
{
    let n = s.unicode_len();
    let mut i: usize = 0;
    while i < n
        invariant
            n == s@.len(),
            0 <= i <= n,
            forall|k: int| 0 <= k < i ==> s@[k] != '\r' && s@[k] != '\n',
        decreases n - i,
    {
        let c = s.get_char(i);
        if c == '\r' || c == '\n' {
            return true;
        }
        i = i + 1;
    }
    false
}

/// Index of the first CRLF pair at or after `i`, or `s.len()` when there
/// is none.
pub open spec fn find_crlf_from(s: Seq<char>, i: int) -> int
    recommends
        0 <= i <= s.len(),
    decreases s.len() - i,
{
    if i < 0 || i + 1 >= s.len() {
        s.len() as int
    } else if s[i] == '\r' && s[i + 1] == '\n' {
        i
    } else {
        find_crlf_from(s, i + 1)
    }
}

pub proof fn lemma_find_crlf_from(s: Seq<char>, i: int)
    requires
        0 <= i <= s.len(),
    ensures
        i <= find_crlf_from(s, i) <= s.len(),
        find_crlf_from(s, i) < s.len() ==> find_crlf_from(s, i) + 1 < s.len() && s[find_crlf_from(
            s,
            i,
        )] == '\r' && s[find_crlf_from(s, i) + 1] == '\n',
        forall|k: int|
            i <= k < find_crlf_from(s, i) && k + 1 < s.len() ==> !(#[trigger] s[k] == '\r' && s[k
                + 1] == '\n'),
    decreases s.len() - i,
{
    if i + 1 >= s.len() {
    } else if s[i] == '\r' && s[i + 1] == '\n' {
    } else {
        lemma_find_crlf_from(s, i + 1);
    }
}

/// Find the first CRLF pair; `None` when the text has none.
pub fn find_crlf(s: &str) -> (r: Option<usize>)
    ensures
        r is Some ==> r->0 == find_crlf_from(s@, 0) && find_crlf_from(s@, 0) < s@.len(),
        r is None ==> find_crlf_from(s@, 0) == s@.len(),
{
    let n = s.unicode_len();
    if n < 2 {
        proof {
            lemma_find_crlf_from(s@, 0);
        }
        return None;
    }
    let mut i: usize = 0;
    while i < n - 1
        invariant
            n == s@.len(),
            n >= 2,
            0 <= i <= n,
            find_crlf_from(s@, 0) == find_crlf_from(s@, i as int),
        decreases n - i,
    {
        let c = s.get_char(i);
        if c == '\r' {
            if s.get_char(i + 1) == '\n' {
                return Some(i);
            }
        }
        i = i + 1;
    }
    proof {
        lemma_find_crlf_from(s@, i as int);
    }
    None
}

/// Surrounding whitespace, as trimmed from the JSON body of an INFO or
/// CONNECT message: spaces, tabs, carriage returns and line feeds.
pub open spec fn is_ws(c: char) -> bool {
    c == ' ' || c == '\t' || c == '\r' || c == '\n'
}

pub open spec fn trim_start_idx(s: Seq<char>, i: int) -> int
    recommends
        0 <= i <= s.len(),
    decreases s.len() - i,
{
    if i < 0 || i >= s.len() {
        s.len() as int
    } else if is_ws(s[i]) {
        trim_start_idx(s, i + 1)
    } else {
        i
    }
}

pub open spec fn trim_end_idx(s: Seq<char>, j: int) -> int
    recommends
        0 <= j <= s.len(),
    decreases j,
{
    if j <= 0 {
        0
    } else if is_ws(s[j - 1]) {
        trim_end_idx(s, j - 1)
    } else {
        j
    }
}

/// `s` without leading and trailing whitespace.
pub open spec fn trim_spec(s: Seq<char>) -> Seq<char> {
    let a = trim_start_idx(s, 0);
    let b = trim_end_idx(s, s.len() as int);
    if a >= b {
        Seq::empty()
    } else {
        s.subrange(a, b)
    }
}

pub proof fn lemma_trim_start_idx(s: Seq<char>, i: int)
    requires
        0 <= i <= s.len(),
    ensures
        i <= trim_start_idx(s, i) <= s.len(),
        trim_start_idx(s, i) < s.len() ==> !is_ws(s[trim_start_idx(s, i)]),
        forall|k: int| i <= k < trim_start_idx(s, i) ==> is_ws(s[k]),
    decreases s.len() - i,
{
    if i >= s.len() {
    } else if is_ws(s[i]) {
        lemma_trim_start_idx(s, i + 1);
    }
}

pub proof fn lemma_trim_end_idx(s: Seq<char>, j: int)
    requires
        0 <= j <= s.len(),
    ensures
        0 <= trim_end_idx(s, j) <= j,
        trim_end_idx(s, j) > 0 ==> !is_ws(s[trim_end_idx(s, j) - 1]),
        forall|k: int| trim_end_idx(s, j) <= k < j ==> is_ws(s[k]),
    decreases j,
{
    if j <= 0 {
    } else if is_ws(s[j - 1]) {
        lemma_trim_end_idx(s, j - 1);
    }
}

/// Drop leading and trailing whitespace.
pub fn trim_str<'a>(s: &'a str) -> (r: &'a str)
    ensures
        r@ == trim_spec(s@),
{
    let n = s.unicode_len();
    let mut a: usize = 0;
    loop
        invariant_except_break
            n == s@.len(),
            0 <= a <= n,
            trim_start_idx(s@, 0) == trim_start_idx(s@, a as int),
        ensures
            n == s@.len(),
            0 <= a <= n,
            trim_start_idx(s@, 0) == a,
        decreases n - a,
    {
        if a == n {
            break ;
        }
        let c = s.get_char(a);
        if !(c == ' ' || c == '\t' || c == '\r' || c == '\n') {
            break ;
        }
        a = a + 1;
    }
    let mut b: usize = n;
    loop
        invariant_except_break
            n == s@.len(),
            0 <= b <= n,
            trim_end_idx(s@, n as int) == trim_end_idx(s@, b as int),
        ensures
            n == s@.len(),
            0 <= b <= n,
            trim_end_idx(s@, n as int) == b,
        decreases b,
    {
        if b == 0 {
            break ;
        }
        let c = s.get_char(b - 1);
        if !(c == ' ' || c == '\t' || c == '\r' || c == '\n') {
            break ;
        }
        b = b - 1;
    }
    if a >= b {
        let r = "";
        proof {
            reveal_strlit("");
            lemma_trim_start_idx(s@, 0);
            lemma_trim_end_idx(s@, n as int);
            assert(r@ =~= trim_spec(s@));
        }
        r
    } else {
        let r = s.substring_char(a, b);
        proof {
            assert(r@ =~= trim_spec(s@));
        }
        r
    }
}

} // verus!

verus! {

/// Character-by-character string equality.
pub fn str_eq(a: &str, b: &str) -> (r: bool)
    ensures
        r == (a@ == b@),
{
    let n = a.unicode_len();
    let m = b.unicode_len();
    if n != m {
        return false;
    }
    let mut i: usize = 0;
    while i < n
        invariant
            n == a@.len(),
            n == b@.len(),
            0 <= i <= n,
            forall|k: int| 0 <= k < i ==> a@[k] == b@[k],
        decreases n - i,
    {
        if a.get_char(i) != b.get_char(i) {
            return false;
        }
        i = i + 1;
    }
    proof {
        assert(a@ =~= b@);
    }
    true
}

/// Index of the first occurrence of `c` at or after `i`, or `s.len()`
/// when there is none.
pub open spec fn find_char_from(s: Seq<char>, i: int, c: char) -> int
    recommends
        0 <= i <= s.len(),
    decreases s.len() - i,
{
    if i < 0 || i >= s.len() {
        s.len() as int
    } else if s[i] == c {
        i
    } else {
        find_char_from(s, i + 1, c)
    }
}

pub proof fn lemma_find_char_from(s: Seq<char>, i: int, c: char)
    requires
        0 <= i <= s.len(),
    ensures
        i <= find_char_from(s, i, c) <= s.len(),
        find_char_from(s, i, c) < s.len() ==> s[find_char_from(s, i, c)] == c,
        forall|k: int| i <= k < find_char_from(s, i, c) ==> s[k] != c,
    decreases s.len() - i,
{
    if i >= s.len() {
    } else if s[i] == c {
    } else {
        lemma_find_char_from(s, i + 1, c);
    }
}

} // verus!
