//! Parsing of the application bundler's tabular listings.
//!
//! `list` and `search` print a header line followed by one application per
//! line with whitespace-separated columns: identifier, name, origin, and
//! optionally a version.
use vstd::prelude::*;
use crate::text::{is_blank, is_blank_str, line_split, split_lines, split_ws, ws_tokens};

verus! {

/// One application row of a listing.
#[derive(Debug, Clone)]
pub struct FlatpakApp {
    pub appid: String,
    pub name: String,
    pub origin: String,
    pub version: Option<String>,
}

impl View for FlatpakApp {
    type V = (Seq<char>, Seq<char>, Seq<char>, Option<Seq<char>>);

    open spec fn view(&self) -> (Seq<char>, Seq<char>, Seq<char>, Option<Seq<char>>) {
        (self.appid@, self.name@, self.origin@, self.version.deep_view())
    }
}

impl DeepView for FlatpakApp {
    type V = (Seq<char>, Seq<char>, Seq<char>, Option<Seq<char>>);

    open spec fn deep_view(&self) -> (Seq<char>, Seq<char>, Seq<char>, Option<Seq<char>>) {
        self.view()
    }
}

/// A remote repository the bundler can install from.
#[derive(Debug, Clone)]
pub struct FlatpakRemote {
    pub name: String,
    pub url: String,
    pub is_default: bool,
}

/// The application a listing line describes, if it has at least the three
/// mandatory columns; a fourth column is the version.
pub open spec fn line_app(line: Seq<char>) -> Option<
    (Seq<char>, Seq<char>, Seq<char>, Option<Seq<char>>),
> {
    let toks = ws_tokens(line);
    if toks.len() >= 3 {
        Some(
            (
                toks[0],
                toks[1],
                toks[2],
                if toks.len() >= 4 {
                    Some(toks[3])
                } else {
                    None
                },
            ),
        )
    } else {
        None
    }
}

/// The applications described by a sequence of listing lines, in order.
pub open spec fn apps_go(ls: Seq<Seq<char>>) -> Seq<
    (Seq<char>, Seq<char>, Seq<char>, Option<Seq<char>>),
>
    decreases ls.len(),
{
    if ls.len() == 0 {
        Seq::empty()
    } else {
        let rest = apps_go(ls.drop_first());
        if is_blank(ls[0]) {
            rest
        } else {
            match line_app(ls[0]) {
                Some(a) => seq![a] + rest,
                None => rest,
            }
        }
    }
}

/// The applications described by a full listing: every line after the
/// header row.
pub open spec fn apps_of(out: Seq<char>) -> Seq<
    (Seq<char>, Seq<char>, Seq<char>, Option<Seq<char>>),
> {
    let ls = line_split(out);
    if ls.len() == 0 {
        Seq::empty()
    } else {
        apps_go(ls.drop_first())
    }
}

/// Parse a bundler listing into structured applications.
///
/// The first line is a header and is dropped; every later non-blank line
/// with at least three columns contributes one application, in output order.
pub fn parse_flatpak_list(output: &str) -> (r: Vec<FlatpakApp>)
    ensures
        r.deep_view() == apps_of(output@),
{
    let lines = split_lines(output);
    let ghost lv = line_split(output@);
    let mut acc: Vec<FlatpakApp> = Vec::new();
    if lines.len() == 0 {
        proof {
            assert(acc.deep_view() =~= apps_of(output@));
        }
        return acc;
    }
    let mut i: usize = 1;
    proof {
        assert(lv.skip(1) =~= lv.drop_first());
        assert(acc.deep_view() + apps_go(lv.drop_first()) =~= apps_go(lv.drop_first()));
    }
    while i < lines.len()
        invariant
            1 <= i <= lines.len(),
            lines.deep_view() == lv,
            lv.len() == lines@.len(),
            lv.len() >= 1,
            apps_of(output@) == acc.deep_view() + apps_go(lv.skip(i as int)),
        decreases lines.len() - i,
    {
        proof {
            assert(lv.skip(i as int).drop_first() =~= lv.skip(i as int + 1));
            assert(lv.skip(i as int)[0] == lv[i as int]);
            assert(lines@[i as int]@ == lines.deep_view()[i as int]);
        }
        let line = &lines[i];
        if !is_blank_str(line.as_str()) {
            let toks = split_ws(line.as_str());
            proof {
                assert(toks@.len() == toks.deep_view().len());
            }
            if toks.len() >= 3 {
                let ghost pre = acc.deep_view();
                let version: Option<String> = if toks.len() >= 4 {
                    Some(toks[3].clone())
                } else {
                    None
                };
                let a = FlatpakApp {
                    appid: toks[0].clone(),
                    name: toks[1].clone(),
                    origin: toks[2].clone(),
                    version,
                };
                proof {
                    assert(toks.deep_view()[0] == toks@[0]@);
                    assert(toks.deep_view()[1] == toks@[1]@);
                    assert(toks.deep_view()[2] == toks@[2]@);
                    assert(toks.deep_view().len() >= 4 ==> toks.deep_view()[3] == toks@[3]@);
                }
                acc.push(a);
                proof {
                    assert(acc.deep_view() =~= pre.push(a@));
                    assert(pre.push(a@) + apps_go(lv.skip(i as int + 1)) =~= pre + (seq![a@]
                        + apps_go(lv.skip(i as int + 1))));
                }
            } else {
                proof {
                    assert(line_app(lv[i as int]) is None);
                }
            }
        }
        i = i + 1;
    }
    proof {
        assert(lv.skip(lv.len() as int) =~= Seq::<Seq<char>>::empty());
        assert(acc.deep_view() + Seq::<(Seq<char>, Seq<char>, Seq<char>, Option<Seq<char>>)>::empty()
            =~= acc.deep_view());
    }
    acc
}

} // verus!
