//! Verified text utilities shared by the parsers and the supervisor:
//! line splitting, whitespace tokenization, trimming, ASCII lowering and
//! substring search, each specified over `Seq<char>`.
use vstd::prelude::*;
use vstd::string::StrSliceExecFns;
use vstd::string::StringExecFns;

verus! {

/// The whitespace characters the tokenizer splits on.
pub open spec fn is_space(c: char) -> bool {
    c == ' ' || c == '\t' || c == '\r' || c == '\n'
}

/// Exec mirror of [`is_space`].
pub fn is_space_char(c: char) -> (b: bool)
    ensures
        b == is_space(c),
{
    c == ' ' || c == '\t' || c == '\r' || c == '\n'
}

/// A line's text with one trailing carriage return removed, as a
/// carriage-return/line-feed ending leaves one behind.
pub open spec fn strip_cr(s: Seq<char>) -> Seq<char> {
    if s.len() > 0 && s[s.len() - 1] == '\r' {
        s.drop_last()
    } else {
        s
    }
}

/// The lines of `s` still to be produced, given that the text of the current
/// unfinished line so far is `cur`. A line-feed ends a line; the final line
/// needs no terminator; an empty final piece is not a line.
pub open spec fn lines_go(s: Seq<char>, cur: Seq<char>) -> Seq<Seq<char>>
    decreases s.len(),
{
    if s.len() == 0 {
        if cur.len() == 0 {
            Seq::empty()
        } else {
            seq![strip_cr(cur)]
        }
    } else if s[0] == '\n' {
        seq![strip_cr(cur)] + lines_go(s.drop_first(), Seq::empty())
    } else {
        lines_go(s.drop_first(), cur.push(s[0]))
    }
}

/// The lines of `s`.
pub open spec fn line_split(s: Seq<char>) -> Seq<Seq<char>> {
    lines_go(s, Seq::empty())
}

/// The whitespace-separated tokens of `s` still to be produced, given that
/// the token being accumulated so far is `cur`.
pub open spec fn tokens_go(s: Seq<char>, cur: Seq<char>) -> Seq<Seq<char>>
    decreases s.len(),
{
    if s.len() == 0 {
        if cur.len() == 0 {
            Seq::empty()
        } else {
            seq![cur]
        }
    } else if is_space(s[0]) {
        if cur.len() == 0 {
            tokens_go(s.drop_first(), Seq::empty())
        } else {
            seq![cur] + tokens_go(s.drop_first(), Seq::empty())
        }
    } else {
        tokens_go(s.drop_first(), cur.push(s[0]))
    }
}

/// The maximal runs of non-whitespace characters of `s`, in order.
pub open spec fn ws_tokens(s: Seq<char>) -> Seq<Seq<char>> {
    tokens_go(s, Seq::empty())
}

/// `s` without its leading whitespace.
pub open spec fn trim_front(s: Seq<char>) -> Seq<char>
    decreases s.len(),
{
    if s.len() > 0 && is_space(s[0]) {
        trim_front(s.drop_first())
    } else {
        s
    }
}

/// `s` without its trailing whitespace.
pub open spec fn trim_back(s: Seq<char>) -> Seq<char>
    decreases s.len(),
{
    if s.len() > 0 && is_space(s[s.len() - 1]) {
        trim_back(s.drop_last())
    } else {
        s
    }
}

/// `s` without leading and trailing whitespace.
pub open spec fn trimmed(s: Seq<char>) -> Seq<char> {
    trim_back(trim_front(s))
}

/// Whether `s` consists of whitespace alone.
pub open spec fn is_blank(s: Seq<char>) -> bool {
    forall|j: int| 0 <= j < s.len() ==> is_space(s[j])
}

/// An ASCII capital letter lowered; any other character unchanged.
pub open spec fn lower_char(c: char) -> char {
    match c {
        'A' => 'a',
        'B' => 'b',
        'C' => 'c',
        'D' => 'd',
        'E' => 'e',
        'F' => 'f',
        'G' => 'g',
        'H' => 'h',
        'I' => 'i',
        'J' => 'j',
        'K' => 'k',
        'L' => 'l',
        'M' => 'm',
        'N' => 'n',
        'O' => 'o',
        'P' => 'p',
        'Q' => 'q',
        'R' => 'r',
        'S' => 's',
        'T' => 't',
        'U' => 'u',
        'V' => 'v',
        'W' => 'w',
        'X' => 'x',
        'Y' => 'y',
        'Z' => 'z',
        _ => c,
    }
}

/// Exec mirror of [`lower_char`].
pub fn lower_char_ex(c: char) -> (r: char)
    ensures
        r == lower_char(c),
{
    match c {
        'A' => 'a',
        'B' => 'b',
        'C' => 'c',
        'D' => 'd',
        'E' => 'e',
        'F' => 'f',
        'G' => 'g',
        'H' => 'h',
        'I' => 'i',
        'J' => 'j',
        'K' => 'k',
        'L' => 'l',
        'M' => 'm',
        'N' => 'n',
        'O' => 'o',
        'P' => 'p',
        'Q' => 'q',
        'R' => 'r',
        'S' => 's',
        'T' => 't',
        'U' => 'u',
        'V' => 'v',
        'W' => 'w',
        'X' => 'x',
        'Y' => 'y',
        'Z' => 'z',
        _ => c,
    }
}

/// `s` with every ASCII capital letter lowered.
pub open spec fn lower(s: Seq<char>) -> Seq<char> {
    Seq::new(s.len(), |j: int| lower_char(s[j]))
}

/// The part of `s` before the first occurrence of `c`, or all of `s`.
pub open spec fn prefix_to(s: Seq<char>, c: char) -> Seq<char>
    decreases s.len(),
{
    if s.len() == 0 {
        s
    } else if s[0] == c {
        Seq::empty()
    } else {
        seq![s[0]] + prefix_to(s.drop_first(), c)
    }
}

/// Append one character to a string.
///
/// Relies on `String::push`, which appends the given character to the end.
#[verifier::external_body]
pub fn push_char(s: &mut String, c: char)
    ensures
        final(s)@ == old(s)@.push(c),
{
    s.push(c)
}

/// Append a string to a vector, tracking the deep view.
pub fn push_string(v: &mut Vec<String>, s: String)
    ensures
        final(v).deep_view() == old(v).deep_view().push(s@),
{
    let ghost pre = v.deep_view();
    let ghost sv = s@;
    v.push(s);
    proof {
        assert(v.deep_view() =~= pre.push(sv));
    }
}

/// Whether two string slices hold the same characters.
pub fn str_eq(a: &str, b: &str) -> (r: bool)
    ensures
        r == (a@ == b@),
{
    let an = a.unicode_len();
    let bn = b.unicode_len();
    if an != bn {
        proof {
            assert(a@.len() != b@.len());
        }
        return false;
    }
    let mut i: usize = 0;
    while i < an
        invariant
            i <= an,
            an as nat == a@.len(),
            an as nat == b@.len(),
            forall|j: int| 0 <= j < i ==> a@[j] == b@[j],
        decreases an - i,
    {
        if a.get_char(i) != b.get_char(i) {
            return false;
        }
        i = i + 1;
    }
    proof {
        assert(a@ =~= b@);
    }
    true
}

/// A copy of a line with one trailing carriage return removed.
pub fn strip_cr_string(s: String) -> (r: String)
    ensures
        r@ == strip_cr(s@),
{
    let n = s.as_str().unicode_len();
    if n > 0 && s.as_str().get_char(n - 1) == '\r' {
        let r = s.as_str().substring_char(0, n - 1).to_owned();
        proof {
            assert(r@ =~= strip_cr(s@));
        }
        r
    } else {
        s
    }
}

/// Split text into its lines, as [`line_split`] describes.
pub fn split_lines(s: &str) -> (r: Vec<String>)
    ensures
        r.deep_view() == line_split(s@),
{
    let n = s.unicode_len();
    let mut acc: Vec<String> = Vec::new();
    let mut cur: String = String::new();
    let mut i: usize = 0;
    proof {
        assert(s@.skip(0) =~= s@);
        assert(acc.deep_view() + lines_go(s@, cur@) =~= lines_go(s@, Seq::empty()));
    }
    while i < n
        invariant
            i <= n,
            n as nat == s@.len(),
            line_split(s@) == acc.deep_view() + lines_go(s@.skip(i as int), cur@),
        decreases n - i,
    {
        let c = s.get_char(i);
        proof {
            assert(s@.skip(i as int).drop_first() =~= s@.skip(i as int + 1));
            assert(s@.skip(i as int)[0] == s@[i as int]);
        }
        if c == '\n' {
            let ghost pre = acc.deep_view();
            let ghost curv = cur@;
            let finished = strip_cr_string(cur);
            push_string(&mut acc, finished);
            cur = String::new();
            proof {
                assert(acc.deep_view() + lines_go(s@.skip(i as int + 1), cur@) =~= pre + (seq![
                    strip_cr(curv),
                ] + lines_go(s@.skip(i as int + 1), Seq::empty())));
            }
        } else {
            push_char(&mut cur, c);
        }
        i = i + 1;
    }
    proof {
        assert(s@.skip(n as int) =~= Seq::<char>::empty());
    }
    if !cur.as_str().is_empty() {
        let finished = strip_cr_string(cur);
        push_string(&mut acc, finished);
    }
    proof {
        assert(acc.deep_view() =~= line_split(s@));
    }
    acc
}

/// Split text into whitespace-separated tokens, as [`ws_tokens`] describes.
pub fn split_ws(s: &str) -> (r: Vec<String>)
    ensures
        r.deep_view() == ws_tokens(s@),
{
    let n = s.unicode_len();
    let mut acc: Vec<String> = Vec::new();
    let mut cur: String = String::new();
    let mut i: usize = 0;
    proof {
        assert(s@.skip(0) =~= s@);
        assert(acc.deep_view() + tokens_go(s@, cur@) =~= tokens_go(s@, Seq::empty()));
    }
    while i < n
        invariant
            i <= n,
            n as nat == s@.len(),
            ws_tokens(s@) == acc.deep_view() + tokens_go(s@.skip(i as int), cur@),
        decreases n - i,
    {
        let c = s.get_char(i);
        proof {
            assert(s@.skip(i as int).drop_first() =~= s@.skip(i as int + 1));
            assert(s@.skip(i as int)[0] == s@[i as int]);
        }
        if is_space_char(c) {
            if !cur.as_str().is_empty() {
                let ghost pre = acc.deep_view();
                let ghost curv = cur@;
                push_string(&mut acc, cur);
                cur = String::new();
                proof {
                    assert(acc.deep_view() + tokens_go(s@.skip(i as int + 1), cur@) =~= pre + (seq![
                        curv,
                    ] + tokens_go(s@.skip(i as int + 1), Seq::empty())));
                }
            } else {
                proof {
                    assert(cur@ =~= Seq::<char>::empty());
                }
            }
        } else {
            push_char(&mut cur, c);
        }
        i = i + 1;
    }
    proof {
        assert(s@.skip(n as int) =~= Seq::<char>::empty());
    }
    if !cur.as_str().is_empty() {
        push_string(&mut acc, cur);
    }
    proof {
        assert(acc.deep_view() =~= ws_tokens(s@));
    }
    acc
}

/// Whether a string is whitespace alone.
pub fn is_blank_str(s: &str) -> (b: bool)
    ensures
        b == is_blank(s@),
{
    let n = s.unicode_len();
    let mut i: usize = 0;
    while i < n
        invariant
            i <= n,
            n as nat == s@.len(),
            forall|j: int| 0 <= j < i ==> is_space(s@[j]),
        decreases n - i,
    {
        if !is_space_char(s.get_char(i)) {
            return false;
        }
        i = i + 1;
    }
    true
}

/// Copy a string with leading and trailing whitespace removed.
pub fn trim_str(s: &str) -> (r: String)
    ensures
        r@ == trimmed(s@),
{
    let n = s.unicode_len();
    let mut a: usize = 0;
    proof {
        assert(s@.skip(0) =~= s@);
    }
    while a < n && is_space_char(s.get_char(a))
        invariant
            a <= n,
            n as nat == s@.len(),
            trim_front(s@) == trim_front(s@.skip(a as int)),
        decreases n - a,
    {
        proof {
            assert(s@.skip(a as int).drop_first() =~= s@.skip(a as int + 1));
            assert(s@.skip(a as int)[0] == s@[a as int]);
        }
        a = a + 1;
    }
    proof {
        assert(trim_front(s@) == s@.skip(a as int));
    }
    let mut b: usize = n;
    proof {
        assert(s@.skip(a as int).take(n - a) =~= s@.skip(a as int));
    }
    while b > a && is_space_char(s.get_char(b - 1))
        invariant
            a <= b <= n,
            n as nat == s@.len(),
            trim_back(s@.skip(a as int)) == trim_back(s@.skip(a as int).take(b - a)),
        decreases b,
    {
        proof {
            let t = s@.skip(a as int);
            assert(t.take(b - a).drop_last() =~= t.take(b - a - 1));
            assert(t.take(b - a)[b - a - 1] == s@[b - 1]);
        }
        b = b - 1;
    }
    proof {
        assert(trim_back(s@.skip(a as int)) == s@.skip(a as int).take(b - a));
        assert(s@.subrange(a as int, b as int) =~= s@.skip(a as int).take(b - a));
    }
    s.substring_char(a, b).to_owned()
}

/// Copy a string with every ASCII capital letter lowered.
pub fn lower_str(s: &str) -> (r: String)
    ensures
        r@ == lower(s@),
{
    let n = s.unicode_len();
    let mut r = String::new();
    let mut i: usize = 0;
    while i < n
        invariant
            i <= n,
            n as nat == s@.len(),
            r@.len() == i,
            forall|j: int| 0 <= j < i ==> r@[j] == lower_char(s@[j]),
        decreases n - i,
    {
        let lc = lower_char_ex(s.get_char(i));
        push_char(&mut r, lc);
        i = i + 1;
    }
    proof {
        assert(r@ =~= lower(s@));
    }
    r
}

/// Copy the part of a string before the first occurrence of `c`.
pub fn prefix_before(s: &str, c: char) -> (r: String)
    ensures
        r@ == prefix_to(s@, c),
{
    let n = s.unicode_len();
    let mut r = String::new();
    let mut i: usize = 0;
    proof {
        assert(s@.skip(0) =~= s@);
        assert(Seq::<char>::empty() + prefix_to(s@, c) =~= prefix_to(s@, c));
    }
    while i < n
        invariant
            i <= n,
            n as nat == s@.len(),
            prefix_to(s@, c) == r@ + prefix_to(s@.skip(i as int), c),
        decreases n - i,
    {
        let ch = s.get_char(i);
        proof {
            assert(s@.skip(i as int).drop_first() =~= s@.skip(i as int + 1));
            assert(s@.skip(i as int)[0] == s@[i as int]);
        }
        if ch == c {
            proof {
                assert(r@ + Seq::<char>::empty() =~= r@);
            }
            return r;
        }
        let ghost rv = r@;
        push_char(&mut r, ch);
        proof {
            assert(rv + (seq![s@[i as int]] + prefix_to(s@.skip(i as int + 1), c)) =~= r@
                + prefix_to(s@.skip(i as int + 1), c));
        }
        i = i + 1;
    }
    proof {
        assert(s@.skip(n as int) =~= Seq::<char>::empty());
        assert(r@ + Seq::<char>::empty() =~= r@);
    }
    r
}

/// The decimal digit character for a value below ten.
pub open spec fn digit_char(d: int) -> char {
    if d == 0 {
        '0'
    } else if d == 1 {
        '1'
    } else if d == 2 {
        '2'
    } else if d == 3 {
        '3'
    } else if d == 4 {
        '4'
    } else if d == 5 {
        '5'
    } else if d == 6 {
        '6'
    } else if d == 7 {
        '7'
    } else if d == 8 {
        '8'
    } else {
        '9'
    }
}

/// The decimal notation of a non-negative number.
pub open spec fn dec_str(n: int) -> Seq<char>
    decreases n,
{
    if n < 10 {
        seq![digit_char(n)]
    } else {
        dec_str(n / 10) + seq![digit_char(n % 10)]
    }
}

/// Exec mirror of [`digit_char`].
fn digit_char_ex(d: usize) -> (c: char)
    requires
        d < 10,
    ensures
        c == digit_char(d as int),
{
    if d == 0 {
        '0'
    } else if d == 1 {
        '1'
    } else if d == 2 {
        '2'
    } else if d == 3 {
        '3'
    } else if d == 4 {
        '4'
    } else if d == 5 {
        '5'
    } else if d == 6 {
        '6'
    } else if d == 7 {
        '7'
    } else if d == 8 {
        '8'
    } else {
        '9'
    }
}

/// Write a number in decimal notation, as [`dec_str`] describes.
pub fn usize_to_string(n: usize) -> (r: String)
    ensures
        r@ == dec_str(n as int),
    decreases n,
{
    if n < 10 {
        let mut r = String::new();
        push_char(&mut r, digit_char_ex(n));
        proof {
            assert(r@ =~= dec_str(n as int));
        }
        r
    } else {
        proof {
            assert(n / 10 < n) by (nonlinear_arith)
                requires
                    n >= 10,
            ;
        }
        let mut r = usize_to_string(n / 10);
        push_char(&mut r, digit_char_ex(n % 10));
        proof {
            assert(r@ =~= dec_str(n as int));
        }
        r
    }
}

/// The first position at or after `i` where the non-empty `pat` occurs in
/// `s`, if any.
pub open spec fn find_from(s: Seq<char>, pat: Seq<char>, i: int) -> Option<int>
    decreases s.len() - i,
{
    if i < 0 || pat.len() == 0 || i + pat.len() > s.len() {
        None
    } else if s.subrange(i, i + pat.len()) == pat {
        Some(i)
    } else {
        find_from(s, pat, i + 1)
    }
}

proof fn lemma_find_from_bounds(s: Seq<char>, pat: Seq<char>, i: int)
    ensures
        find_from(s, pat, i) matches Some(k) ==> i <= k && 0 <= k && k + pat.len() <= s.len(),
    decreases s.len() - i,
{
    if !(i < 0 || pat.len() == 0 || i + pat.len() > s.len()) && s.subrange(i, i + pat.len())
        != pat {
        lemma_find_from_bounds(s, pat, i + 1);
    }
}

/// `s` with every occurrence of `pat` replaced by `v`, scanning left to
/// right over non-overlapping occurrences. An empty pattern replaces nothing.
pub open spec fn replace_all(s: Seq<char>, pat: Seq<char>, v: Seq<char>) -> Seq<char>
    decreases s.len(),
    via replace_all_decreases
{
    if pat.len() == 0 {
        s
    } else {
        match find_from(s, pat, 0) {
            Option::None => s,
            Option::Some(i) => s.take(i) + v + replace_all(s.skip(i + pat.len()), pat, v),
        }
    }
}

#[via_fn]
proof fn replace_all_decreases(s: Seq<char>, pat: Seq<char>, v: Seq<char>) {
    lemma_find_from_bounds(s, pat, 0);
}

/// Whether `pat` occurs in `s` starting at position `i`.
fn matches_at(s: &str, i: usize, pat: &str) -> (r: bool)
    requires
        i + pat@.len() <= s@.len(),
    ensures
        r == (s@.subrange(i as int, i + pat@.len()) == pat@),
{
    let m = pat.unicode_len();
    let n = s.unicode_len();
    let mut j: usize = 0;
    while j < m
        invariant
            j <= m,
            m as nat == pat@.len(),
            n as nat == s@.len(),
            i + pat@.len() <= s@.len(),
            forall|k: int| 0 <= k < j ==> s@[i + k] == pat@[k],
        decreases m - j,
    {
        if s.get_char(i + j) != pat.get_char(j) {
            proof {
                assert(s@.subrange(i as int, i + pat@.len())[j as int] != pat@[j as int]);
            }
            return false;
        }
        j = j + 1;
    }
    proof {
        assert(s@.subrange(i as int, i + pat@.len()) =~= pat@);
    }
    true
}

/// Find the first occurrence of `pat` in `s`, as [`find_from`] describes.
pub fn find_sub(s: &str, pat: &str) -> (r: Option<usize>)
    ensures
        match r {
            Option::Some(i) => find_from(s@, pat@, 0) == Option::Some(i as int),
            Option::None => find_from(s@, pat@, 0) is None,
        },
{
    let n = s.unicode_len();
    let m = pat.unicode_len();
    if m == 0 || m > n {
        return None;
    }
    let mut i: usize = 0;
    while i <= n - m
        invariant
            1 <= m <= n,
            n as nat == s@.len(),
            m as nat == pat@.len(),
            i <= n,
            find_from(s@, pat@, 0) == find_from(s@, pat@, i as int),
        decreases n - i,
    {
        if matches_at(s, i, pat) {
            return Some(i);
        }
        i = i + 1;
    }
    None
}

/// Replace every occurrence of `pat` in `s` by `v`, as [`replace_all`]
/// describes.
pub fn replace_all_str(s: &str, pat: &str, v: &str) -> (r: String)
    ensures
        r@ == replace_all(s@, pat@, v@),
    decreases s@.len(),
{
    if pat.is_empty() {
        return s.to_owned();
    }
    match find_sub(s, pat) {
        Option::None => s.to_owned(),
        Option::Some(i) => {
            proof {
                lemma_find_from_bounds(s@, pat@, 0);
            }
            let n = s.unicode_len();
            let m = pat.unicode_len();
            let mut r = s.substring_char(0, i).to_owned();
            r.append(v);
            let rest = replace_all_str(s.substring_char(i + m, n), pat, v);
            r.append(rest.as_str());
            proof {
                assert(s@.subrange(0, i as int) =~= s@.take(i as int));
                assert(s@.subrange(i + m, n as int) =~= s@.skip(i + pat@.len()));
            }
            r
        },
    }
}

} // verus!
