//! Parsing of the system package manager's update listing.
//!
//! The update checker prints one candidate per line as
//! `name current -> new`; blank lines and `::` headers are noise.
use vstd::prelude::*;
use crate::text::{is_blank, is_blank_str, line_split, split_lines, split_ws, ws_tokens};

verus! {

/// One available package update.
#[derive(Debug, Clone)]
pub struct PackageUpdate {
    pub name: String,
    pub current_version: String,
    pub new_version: String,
}

impl View for PackageUpdate {
    type V = (Seq<char>, Seq<char>, Seq<char>);

    open spec fn view(&self) -> (Seq<char>, Seq<char>, Seq<char>) {
        (self.name@, self.current_version@, self.new_version@)
    }
}

impl DeepView for PackageUpdate {
    type V = (Seq<char>, Seq<char>, Seq<char>);

    open spec fn deep_view(&self) -> (Seq<char>, Seq<char>, Seq<char>) {
        self.view()
    }
}

/// Whether the update checker's line carries no update: blank, or a `::`
/// status header.
pub open spec fn is_noise_line(line: Seq<char>) -> bool {
    is_blank(line) || (line.len() >= 2 && line[0] == ':' && line[1] == ':')
}

/// The update a line describes, if it has the shape `name current -> new`
/// (at least four whitespace-separated tokens with `->` third).
pub open spec fn line_update(line: Seq<char>) -> Option<(Seq<char>, Seq<char>, Seq<char>)> {
    let toks = ws_tokens(line);
    if toks.len() >= 4 && toks[2] == "->"@ {
        Some((toks[0], toks[1], toks[3]))
    } else {
        None
    }
}

/// The updates described by a sequence of lines, in order.
pub open spec fn updates_go(ls: Seq<Seq<char>>) -> Seq<(Seq<char>, Seq<char>, Seq<char>)>
    decreases ls.len(),
{
    if ls.len() == 0 {
        Seq::empty()
    } else {
        let rest = updates_go(ls.drop_first());
        if is_noise_line(ls[0]) {
            rest
        } else {
            match line_update(ls[0]) {
                Some(u) => seq![u] + rest,
                None => rest,
            }
        }
    }
}

/// The updates described by the checker's full output.
pub open spec fn updates_of(out: Seq<char>) -> Seq<(Seq<char>, Seq<char>, Seq<char>)> {
    updates_go(line_split(out))
}

/// Whether the update checker would skip this line as noise.
fn is_noise_line_str(s: &str) -> (b: bool)
    ensures
        b == is_noise_line(s@),
{
    if is_blank_str(s) {
        return true;
    }
    let n = s.unicode_len();
    n >= 2 && s.get_char(0) == ':' && s.get_char(1) == ':'
}

/// Parse the update checker's output into structured updates.
///
/// Every line of the shape `name current -> new` contributes one update, in
/// output order; blank lines and `::` headers are dropped, as is any other
/// line that does not fit the shape.
pub fn parse_updates(output: &str) -> (r: Vec<PackageUpdate>)
    ensures
        r.deep_view() == updates_of(output@),
{
    let lines = split_lines(output);
    let ghost lv = line_split(output@);
    let mut acc: Vec<PackageUpdate> = Vec::new();
    let mut i: usize = 0;
    proof {
        assert(lv.skip(0) =~= lv);
        assert(acc.deep_view() + updates_go(lv) =~= updates_go(lv));
    }
    while i < lines.len()
        invariant
            i <= lines.len(),
            lines.deep_view() == lv,
            lv.len() == lines@.len(),
            updates_of(output@) == acc.deep_view() + updates_go(lv.skip(i as int)),
        decreases lines.len() - i,
    {
        proof {
            assert(lv.skip(i as int).drop_first() =~= lv.skip(i as int + 1));
            assert(lv.skip(i as int)[0] == lv[i as int]);
            assert(lines@[i as int]@ == lines.deep_view()[i as int]);
        }
        let line = &lines[i];
        if !is_noise_line_str(line.as_str()) {
            let toks = split_ws(line.as_str());
            proof {
                assert(toks@.len() == toks.deep_view().len());
            }
            if toks.len() >= 4 && crate::text::str_eq(toks[2].as_str(), "->") {
                let ghost pre = acc.deep_view();
                let u = PackageUpdate {
                    name: toks[0].clone(),
                    current_version: toks[1].clone(),
                    new_version: toks[3].clone(),
                };
                proof {
                    assert(toks.deep_view()[0] == toks@[0]@);
                    assert(toks.deep_view()[1] == toks@[1]@);
                    assert(toks.deep_view()[2] == toks@[2]@);
                    assert(toks.deep_view()[3] == toks@[3]@);
                }
                acc.push(u);
                proof {
                    assert(acc.deep_view() =~= pre.push(u@));
                    assert(pre.push(u@) + updates_go(lv.skip(i as int + 1)) =~= pre + (seq![u@]
                        + updates_go(lv.skip(i as int + 1))));
                }
            } else {
                proof {
                    assert(line_update(lv[i as int]) is None);
                }
            }
        }
        i = i + 1;
    }
    proof {
        assert(lv.skip(lv.len() as int) =~= Seq::<Seq<char>>::empty());
        assert(acc.deep_view() + Seq::<(Seq<char>, Seq<char>, Seq<char>)>::empty()
            =~= acc.deep_view());
    }
    acc
}

} // verus!
