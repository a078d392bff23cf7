//! Localised texts, keyed by locale.

use vstd::prelude::*;

verus! {

/// Whether no two entries share a key.
pub open spec fn keys_distinct(entries: Seq<(Seq<char>, Seq<char>)>) -> bool {
    forall|i: int, j: int|
        0 <= i < j < entries.len() ==> (#[trigger] entries[i]).0 != (#[trigger] entries[j]).0
}

/// Whether `key` is the key of some entry.
pub open spec fn has_key(entries: Seq<(Seq<char>, Seq<char>)>, key: Seq<char>) -> bool {
    exists|i: int| 0 <= i < entries.len() && (#[trigger] entries[i]).0 == key
}

/// What a list of pairs of strings holds.
pub open spec fn pair_views(pairs: Seq<(String, String)>) -> Seq<(Seq<char>, Seq<char>)> {
    Seq::new(pairs.len(), |i: int| (pairs[i].0@, pairs[i].1@))
}

/// A dictionary from locale codes to texts. Each locale occurs once; the
/// entries keep the order in which their locales first came in.
#[derive(Debug, PartialEq)]
pub struct LocalizationMap {
    entries: Vec<(String, String)>,
}

impl LocalizationMap {
    #[verifier::type_invariant]
    spec fn well_formed(self) -> bool {
        keys_distinct(self.spec_entries())
    }

    /// The entries, each a locale and its text, in order.
    pub closed spec fn spec_entries(self) -> Seq<(Seq<char>, Seq<char>)> {
        pair_views(self.entries@)
    }

    /// An empty dictionary.
    pub fn new() -> (r: Self)
        ensures
            r.spec_entries().len() == 0,
    {
        LocalizationMap { entries: Vec::new() }
    }

    /// The number of entries.
    pub fn len(&self) -> (n: usize)
        ensures
            n == self.spec_entries().len(),
            keys_distinct(self.spec_entries()),
    {
        proof {
            use_type_invariant(self);
        }
        self.entries.len()
    }

    /// The locale of the entry at `i`.
    pub fn locale(&self, i: usize) -> (r: &str)
        requires
            i < self.spec_entries().len(),
        ensures
            r@ == self.spec_entries()[i as int].0,
    {
        self.entries[i].0.as_str()
    }

    /// The text of the entry at `i`.
    pub fn text(&self, i: usize) -> (r: &str)
        requires
            i < self.spec_entries().len(),
        ensures
            r@ == self.spec_entries()[i as int].1,
    {
        self.entries[i].1.as_str()
    }

    /// The position of the entry for `locale`, if there is one.
    pub fn position(&self, locale: &String) -> (r: Option<usize>)
        ensures
            match r {
                Some(i) => i < self.spec_entries().len() && self.spec_entries()[i as int].0
                    == locale@,
                None => !has_key(self.spec_entries(), locale@),
            },
    {
        let mut i: usize = 0;
        while i < self.entries.len()
            invariant
                0 <= i <= self.entries.len(),
                self.spec_entries() == pair_views(self.entries@),
                forall|j: int| 0 <= j < i ==> (#[trigger] self.spec_entries()[j]).0 != locale@,
            decreases self.entries.len() - i,
        {
            if self.entries[i].0 == *locale {
                return Some(i);
            }
            i = i + 1;
        }
        None
    }

    /// Sets the text for `locale`. Where the locale had a text, the new one
    /// takes its place and the former one is returned; otherwise the entry
    /// goes to the end.
    pub fn insert(&mut self, locale: String, text: String) -> (former: Option<String>)
        ensures
            keys_distinct(final(self).spec_entries()),
            has_key(old(self).spec_entries(), locale@) ==> former is Some && exists|i: int|
                0 <= i < old(self).spec_entries().len()
                    && #[trigger] old(self).spec_entries()[i] == (locale@, former->0@)
                    && final(self).spec_entries()
                    == old(self).spec_entries().update(i, (locale@, text@)),
            !has_key(old(self).spec_entries(), locale@) ==> former is None
                && final(self).spec_entries()
                == old(self).spec_entries().push((locale@, text@)),
    {
        proof {
            use_type_invariant(&*self);
        }
        let ghost before = self.spec_entries();
        let found = self.position(&locale);
        let mut entries: Vec<(String, String)> = Vec::new();
        core::mem::swap(&mut self.entries, &mut entries);
        assert(before == pair_views(entries@));
        let former = match found {
            Some(i) => {
                let former = entries[i].1.clone();
                entries.set(i, (locale, text));
                proof {
                    assert(pair_views(entries@) =~= before.update(i as int, (locale@, text@)));
                    assert(before[i as int] == (locale@, former@));
                    assert forall|a: int, b: int| 0 <= a < b < entries@.len() implies (
                    #[trigger] pair_views(entries@)[a]).0 != (#[trigger] pair_views(
                        entries@,
                    )[b]).0 by {
                        assert(before[a].0 != before[b].0);
                    }
                }
                Some(former)
            },
            None => {
                entries.push((locale, text));
                proof {
                    assert(pair_views(entries@) =~= before.push((locale@, text@)));
                    assert forall|a: int, b: int| 0 <= a < b < entries@.len() implies (
                    #[trigger] pair_views(entries@)[a]).0 != (#[trigger] pair_views(
                        entries@,
                    )[b]).0 by {
                        if b == before.len() {
                            assert(before[a].0 != locale@);
                        } else {
                            assert(before[a].0 != before[b].0);
                        }
                    }
                }
                None
            },
        };
        self.entries = entries;
        former
    }
}

impl Clone for LocalizationMap {
    fn clone(&self) -> (r: Self)
        ensures
            r.spec_entries() == self.spec_entries(),
    {
        proof {
            use_type_invariant(self);
        }
        let mut entries: Vec<(String, String)> = Vec::new();
        let mut i: usize = 0;
        while i < self.entries.len()
            invariant
                0 <= i <= self.entries.len(),
                entries@.len() == i,
                forall|j: int|
                    0 <= j < i ==> (#[trigger] entries@[j]).0@ == self.entries@[j].0@
                        && entries@[j].1@ == self.entries@[j].1@,
            decreases self.entries.len() - i,
        {
            entries.push((self.entries[i].0.clone(), self.entries[i].1.clone()));
            i = i + 1;
        }
        proof {
            assert(pair_views(entries@) =~= self.spec_entries());
        }
        LocalizationMap { entries }
    }
}

} // verus!
