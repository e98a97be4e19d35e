//! Localization: language-code normalization and translation lookup.
//!
//! A [`LocalizationContext`] owns the current language and a cache of
//! translation tables, one per language code, installed by whoever loads
//! them. Lookup falls back from the current language's table to the
//! default-language table and finally to the key itself; placeholder
//! arguments are substituted as `{name}`.
use vstd::prelude::*;
use crate::text::{
    lower, lower_str, prefix_before, prefix_to, replace_all, replace_all_str, str_eq, trim_str,
    trimmed,
};
use vstd::string::StrSliceExecFns;
use vstd::string::StringExecFns;

verus! {

/// A language tag reduced to its base: trimmed, lowered, cut before any
/// `.`, `@` or `_` qualifier, and collapsed to a supported code, the
/// default being `en`.
pub open spec fn normalized_lang(s: Seq<char>) -> Seq<char> {
    let l = lower(trimmed(s));
    if l.len() == 0 {
        "en"@
    } else {
        let base = prefix_to(prefix_to(prefix_to(l, '.'), '@'), '_');
        if base == "pl"@ || base == "en"@ {
            base
        } else {
            "en"@
        }
    }
}

/// Normalize a language tag, as [`normalized_lang`] describes.
pub fn normalize_lang(lang: &str) -> (r: String)
    ensures
        r@ == normalized_lang(lang@),
{
    let t = trim_str(lang);
    let l = lower_str(t.as_str());
    if l.as_str().is_empty() {
        return "en".to_owned();
    }
    let p1 = prefix_before(l.as_str(), '.');
    let p2 = prefix_before(p1.as_str(), '@');
    let base = prefix_before(p2.as_str(), '_');
    if str_eq(base.as_str(), "pl") || str_eq(base.as_str(), "en") {
        base
    } else {
        "en".to_owned()
    }
}

/// The value of the first entry with the given key, if any.
pub open spec fn entry_lookup(entries: Seq<(Seq<char>, Seq<char>)>, key: Seq<char>) -> Option<
    Seq<char>,
>
    decreases entries.len(),
{
    if entries.len() == 0 {
        None
    } else if entries[0].0 == key {
        Some(entries[0].1)
    } else {
        entry_lookup(entries.drop_first(), key)
    }
}

/// The first table installed for the given language, if any.
pub open spec fn table_lookup(
    tables: Seq<(Seq<char>, Seq<(Seq<char>, Seq<char>)>)>,
    lang: Seq<char>,
) -> Option<Seq<(Seq<char>, Seq<char>)>>
    decreases tables.len(),
{
    if tables.len() == 0 {
        None
    } else if tables[0].0 == lang {
        Some(tables[0].1)
    } else {
        table_lookup(tables.drop_first(), lang)
    }
}

/// The text a key translates to: the current language's entry, else the
/// default language's entry, else the key itself.
pub open spec fn translated(
    tables: Seq<(Seq<char>, Seq<(Seq<char>, Seq<char>)>)>,
    lang: Seq<char>,
    key: Seq<char>,
) -> Seq<char> {
    let primary = match table_lookup(tables, lang) {
        Some(t) => entry_lookup(t, key),
        None => None,
    };
    match primary {
        Some(v) => v,
        None => match table_lookup(tables, "en"@) {
            Some(t) => match entry_lookup(t, key) {
                Some(v) => v,
                None => key,
            },
            None => key,
        },
    }
}

/// The placeholder that an argument named `k` fills: `{k}`.
pub open spec fn pattern_of(k: Seq<char>) -> Seq<char> {
    seq!['{'] + k + seq!['}']
}

/// `text` with each argument's placeholder replaced by its value, applied
/// in argument order.
pub open spec fn substituted(text: Seq<char>, args: Seq<(Seq<char>, Seq<char>)>) -> Seq<char>
    decreases args.len(),
{
    if args.len() == 0 {
        text
    } else {
        substituted(replace_all(text, pattern_of(args[0].0), args[0].1), args.drop_first())
    }
}

/// The current language and the translation tables installed so far.
pub struct LocalizationContext {
    /// The normalized current language code.
    pub language: String,
    /// Installed tables: a language code and its key-to-text entries.
    pub tables: Vec<(String, Vec<(String, String)>)>,
}

impl LocalizationContext {
    /// The current language is one of the supported codes.
    pub open spec fn wf(&self) -> bool {
        self.language@ == "en"@ || self.language@ == "pl"@
    }

    /// A context in the default language with no tables installed.
    pub fn new() -> (c: Self)
        ensures
            c.wf(),
            c.language@ == "en"@,
            c.tables.deep_view() == Seq::<(Seq<char>, Seq<(Seq<char>, Seq<char>)>)>::empty(),
    {
        let c = LocalizationContext { language: "en".to_owned(), tables: Vec::new() };
        proof {
            assert(c.tables.deep_view() =~= Seq::<
                (Seq<char>, Seq<(Seq<char>, Seq<char>)>),
            >::empty());
        }
        c
    }

    /// Set the current language to the normalized form of `lang`.
    pub fn set_language(&mut self, lang: &str)
        ensures
            final(self).wf(),
            final(self).language@ == normalized_lang(lang@),
            final(self).tables == old(self).tables,
    {
        self.language = normalize_lang(lang);
    }

    /// The current language code.
    pub fn current_language(&self) -> (r: String)
        ensures
            r@ == self.language@,
    {
        self.language.clone()
    }

    /// Whether a table for `lang` is already installed, so that a caller
    /// populating the cache lazily knows when loading is owed.
    pub fn has_table(&self, lang: &str) -> (b: bool)
        ensures
            b == (table_lookup(self.tables.deep_view(), lang@) is Some),
    {
        let ghost tv = self.tables.deep_view();
        let mut i: usize = 0;
        proof {
            assert(tv.skip(0) =~= tv);
        }
        while i < self.tables.len()
            invariant
                i <= self.tables.len(),
                tv == self.tables.deep_view(),
                tv.len() == self.tables@.len(),
                table_lookup(tv, lang@) == table_lookup(tv.skip(i as int), lang@),
            decreases self.tables.len() - i,
        {
            proof {
                assert(tv.skip(i as int).drop_first() =~= tv.skip(i as int + 1));
                assert(tv.skip(i as int)[0] == tv[i as int]);
                let ghost row = self.tables@[i as int];
                assert(tv[i as int] == (row.0@, row.1.deep_view()));
            }
            if str_eq(self.tables[i].0.as_str(), lang) {
                return true;
            }
            i = i + 1;
        }
        proof {
            assert(tv.skip(self.tables@.len() as int) =~= Seq::<
                (Seq<char>, Seq<(Seq<char>, Seq<char>)>),
            >::empty());
        }
        false
    }

    /// Install a loaded table for `lang`. A caller keeping cache semantics
    /// installs a table only when [`Self::has_table`] says none is there.
    pub fn install_table(&mut self, lang: &str, entries: Vec<(String, String)>)
        ensures
            final(self).wf() == old(self).wf(),
            final(self).language == old(self).language,
            final(self).tables.deep_view() == old(self).tables.deep_view().push(
                (lang@, entries.deep_view()),
            ),
    {
        let ghost pre = self.tables.deep_view();
        let ghost ev = entries.deep_view();
        self.tables.push((lang.to_owned(), entries));
        proof {
            assert(self.tables.deep_view() =~= pre.push((lang@, ev)));
        }
    }

    /// Translate a key, as [`translated`] describes.
    pub fn t(&self, key: &str) -> (r: String)
        ensures
            r@ == translated(self.tables.deep_view(), self.language@, key@),
    {
        let primary = match self.find_table(self.language.as_str()) {
            Some(tab) => entries_get(tab, key),
            None => None,
        };
        match primary {
            Some(v) => v,
            None => {
                match self.find_table("en") {
                    Some(tab) => match entries_get(tab, key) {
                        Some(v) => v,
                        None => key.to_owned(),
                    },
                    None => key.to_owned(),
                }
            },
        }
    }

    /// Translate a key and substitute the given arguments, in order, as
    /// [`substituted`] describes.
    pub fn t_with_args(&self, key: &str, args: &Vec<(String, String)>) -> (r: String)
        ensures
            r@ == substituted(
                translated(self.tables.deep_view(), self.language@, key@),
                args.deep_view(),
            ),
    {
        let ghost av = args.deep_view();
        let mut text = self.t(key);
        let mut i: usize = 0;
        proof {
            assert(av.skip(0) =~= av);
        }
        while i < args.len()
            invariant
                i <= args.len(),
                av == args.deep_view(),
                av.len() == args@.len(),
                substituted(
                    translated(self.tables.deep_view(), self.language@, key@),
                    av,
                ) == substituted(text@, av.skip(i as int)),
            decreases args.len() - i,
        {
            proof {
                assert(av.skip(i as int).drop_first() =~= av.skip(i as int + 1));
                assert(av.skip(i as int)[0] == av[i as int]);
                assert(av[i as int] == (args@[i as int].0@, args@[i as int].1@));
                reveal_strlit("{");
                reveal_strlit("}");
            }
            let mut pat = "{".to_owned();
            pat.append(args[i].0.as_str());
            pat.append("}");
            proof {
                assert(pat@ =~= pattern_of(av[i as int].0));
            }
            text = replace_all_str(text.as_str(), pat.as_str(), args[i].1.as_str());
            i = i + 1;
        }
        proof {
            assert(av.skip(av.len() as int) =~= Seq::<(Seq<char>, Seq<char>)>::empty());
        }
        text
    }

    /// The installed table for `lang`, if any.
    fn find_table(&self, lang: &str) -> (r: Option<&Vec<(String, String)>>)
        ensures
            match r {
                Some(tab) => table_lookup(self.tables.deep_view(), lang@) == Some(tab.deep_view()),
                None => table_lookup(self.tables.deep_view(), lang@) is None,
            },
    {
        let ghost tv = self.tables.deep_view();
        let mut i: usize = 0;
        proof {
            assert(tv.skip(0) =~= tv);
        }
        while i < self.tables.len()
            invariant
                i <= self.tables.len(),
                tv == self.tables.deep_view(),
                tv.len() == self.tables@.len(),
                table_lookup(tv, lang@) == table_lookup(tv.skip(i as int), lang@),
            decreases self.tables.len() - i,
        {
            proof {
                assert(tv.skip(i as int).drop_first() =~= tv.skip(i as int + 1));
                assert(tv.skip(i as int)[0] == tv[i as int]);
                let ghost row = self.tables@[i as int];
                assert(tv[i as int] == (row.0@, row.1.deep_view()));
            }
            if str_eq(self.tables[i].0.as_str(), lang) {
                return Some(&self.tables[i].1);
            }
            i = i + 1;
        }
        proof {
            assert(tv.skip(self.tables@.len() as int) =~= Seq::<
                (Seq<char>, Seq<(Seq<char>, Seq<char>)>),
            >::empty());
        }
        None
    }
}

/// The value of the first entry with the given key, if any.
fn entries_get(entries: &Vec<(String, String)>, key: &str) -> (r: Option<String>)
    ensures
        match r {
            Some(v) => entry_lookup(entries.deep_view(), key@) == Some(v@),
            None => entry_lookup(entries.deep_view(), key@) is None,
        },
{
    let ghost ev = entries.deep_view();
    let mut i: usize = 0;
    proof {
        assert(ev.skip(0) =~= ev);
    }
    while i < entries.len()
        invariant
            i <= entries.len(),
            ev == entries.deep_view(),
            ev.len() == entries@.len(),
            entry_lookup(ev, key@) == entry_lookup(ev.skip(i as int), key@),
        decreases entries.len() - i,
    {
        proof {
            assert(ev.skip(i as int).drop_first() =~= ev.skip(i as int + 1));
            assert(ev.skip(i as int)[0] == ev[i as int]);
            assert(ev[i as int] == (entries@[i as int].0@, entries@[i as int].1@));
        }
        if str_eq(entries[i].0.as_str(), key) {
            return Some(entries[i].1.clone());
        }
        i = i + 1;
    }
    proof {
        assert(ev.skip(entries@.len() as int) =~= Seq::<(Seq<char>, Seq<char>)>::empty());
    }
    None
}

} // verus!
