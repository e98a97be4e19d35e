//! Interpreting the desktop settings tool's answer for the interface
//! theme.
//!
//! The tool prints the theme name wrapped in single quotes and a trailing
//! newline; asking for it is the surrounding program's business.
use vstd::prelude::*;
use crate::text::{trim_str, trimmed};
use vstd::string::StrSliceExecFns;
use vstd::string::StringExecFns;

verus! {

/// `s` without its leading single quotes.
pub open spec fn strip_quotes_front(s: Seq<char>) -> Seq<char>
    decreases s.len(),
{
    if s.len() > 0 && s[0] == '\'' {
        strip_quotes_front(s.drop_first())
    } else {
        s
    }
}

/// `s` without its trailing single quotes.
pub open spec fn strip_quotes_back(s: Seq<char>) -> Seq<char>
    decreases s.len(),
{
    if s.len() > 0 && s[s.len() - 1] == '\'' {
        strip_quotes_back(s.drop_last())
    } else {
        s
    }
}

/// The theme name in the settings tool's raw answer: whitespace trimmed,
/// surrounding single quotes removed; nothing when that leaves no text.
pub open spec fn theme_of(raw: Seq<char>) -> Option<Seq<char>> {
    let t = strip_quotes_back(strip_quotes_front(trimmed(raw)));
    if t.len() == 0 {
        None
    } else {
        Some(t)
    }
}

/// Extract the theme name from the settings tool's raw answer, as
/// [`theme_of`] describes.
pub fn parse_theme_output(raw: &str) -> (r: Option<String>)
    ensures
        match r {
            Some(s) => theme_of(raw@) == Some(s@),
            None => theme_of(raw@) is None,
        },
{
    let t = trim_str(raw);
    let s = t.as_str();
    let n = s.unicode_len();
    let mut a: usize = 0;
    proof {
        assert(s@.skip(0) =~= s@);
    }
    while a < n && s.get_char(a) == '\''
        invariant
            a <= n,
            n as nat == s@.len(),
            strip_quotes_front(s@) == strip_quotes_front(s@.skip(a as int)),
        decreases n - a,
    {
        proof {
            assert(s@.skip(a as int).drop_first() =~= s@.skip(a as int + 1));
            assert(s@.skip(a as int)[0] == s@[a as int]);
        }
        a = a + 1;
    }
    proof {
        assert(strip_quotes_front(s@) == s@.skip(a as int));
    }
    let mut b: usize = n;
    proof {
        assert(s@.skip(a as int).take(n - a) =~= s@.skip(a as int));
    }
    while b > a && s.get_char(b - 1) == '\''
        invariant
            a <= b <= n,
            n as nat == s@.len(),
            strip_quotes_back(s@.skip(a as int)) == strip_quotes_back(
                s@.skip(a as int).take(b - a),
            ),
        decreases b,
    {
        proof {
            let t2 = s@.skip(a as int);
            assert(t2.take(b - a).drop_last() =~= t2.take(b - a - 1));
            assert(t2.take(b - a)[b - a - 1] == s@[b - 1]);
        }
        b = b - 1;
    }
    proof {
        assert(strip_quotes_back(s@.skip(a as int)) == s@.skip(a as int).take(b - a));
        assert(s@.subrange(a as int, b as int) =~= s@.skip(a as int).take(b - a));
    }
    if a == b {
        return None;
    }
    Some(s.substring_char(a, b).to_owned())
}

} // verus!
