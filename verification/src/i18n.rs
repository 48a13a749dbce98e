//! Translation catalogs: one catalog of keyed values per language code, with
//! lookups that fall back to English and then to the key itself.
use vstd::prelude::*;

use crate::order::key_lt;
use crate::text::{owned, texts_of};
use crate::textmap::TextMap;

verus! {

/// A value of a catalog entry: a text, a flag, or anything else the catalog
/// file held.
pub enum CatValue {
    Text(String),
    Flag(bool),
    Other,
}

/// A language's catalog: its keys and values.
pub type Catalog = TextMap<CatValue>;

/// The translation catalogs, by language code.
pub struct I18n {
    catalogs: TextMap<Catalog>,
}

/// The text stored under `key` in the catalog of `code`, if there is a
/// catalog for `code` and its value there is a text.
pub open spec fn text_in(cats: Map<Seq<char>, Catalog>, code: Seq<char>, key: Seq<char>) -> Option<Seq<char>> {
    if cats.contains_key(code) && cats[code].view().contains_key(key) {
        match cats[code].view()[key] {
            CatValue::Text(t) => Some(t@),
            _ => None,
        }
    } else {
        None
    }
}

/// The translation of `key` for `code`: the language's own text, else the
/// English text, else the key itself.
pub open spec fn tr_spec(cats: Map<Seq<char>, Catalog>, code: Seq<char>, key: Seq<char>) -> Seq<char> {
    match text_in(cats, code, key) {
        Some(t) => t,
        None => match text_in(cats, "en"@, key) {
            Some(t) => t,
            None => key,
        },
    }
}

/// Whether the catalog of `code` marks the language as written right to left
/// (its `rtl` entry is the flag `true`).
pub open spec fn is_rtl_spec(cats: Map<Seq<char>, Catalog>, code: Seq<char>) -> bool {
    cats.contains_key(code) && cats[code].view().contains_key("rtl"@) && cats[code].view()["rtl"@] matches CatValue::Flag(true)
}

impl I18n {
    /// The catalogs, by language code.
    pub closed spec fn view(&self) -> Map<Seq<char>, Catalog> {
        self.catalogs.view()
    }

    /// Well-formedness: the codes and every catalog are kept in key order.
    pub closed spec fn wf(&self) -> bool {
        &&& self.catalogs.wf()
        &&& forall|k: Seq<char>| #[trigger] self.catalogs.view().contains_key(k) ==> self.catalogs.view()[k].wf()
    }

    /// No catalogs yet.
    pub fn new() -> (r: I18n)
        ensures
            r.wf(),
            r.view() == Map::<Seq<char>, Catalog>::empty(),
    {
        I18n { catalogs: TextMap::new() }
    }

    /// Adds the catalog of `code`; a later catalog of the same code replaces
    /// the earlier one.
    pub fn insert(&mut self, code: String, catalog: Catalog)
        requires
            old(self).wf(),
            catalog.wf(),
        ensures
            final(self).wf(),
            final(self).view() == old(self).view().insert(code@, catalog),
    {
        self.catalogs.insert(code, catalog);
    }

    /// The available language codes, sorted (for example `de`, `en`, `fa`).
    pub fn codes(&self) -> (r: Vec<String>)
        requires
            self.wf(),
        ensures
            texts_of(r@).to_set() == self.view().dom(),
            forall|i: int, j: int| 0 <= i < j < r@.len() ==> key_lt(#[trigger] r@[i]@, #[trigger] r@[j]@),
    {
        let r = self.catalogs.keys();
        proof {
            self.catalogs.lemma_view();
            assert(texts_of(r@) == self.catalogs.key_seq());
            assert forall|i: int, j: int| 0 <= i < j < r@.len() implies key_lt(#[trigger] r@[i]@, #[trigger] r@[j]@) by {
                assert(texts_of(r@)[i] == r@[i]@);
                assert(texts_of(r@)[j] == r@[j]@);
            }
            assert forall|k: Seq<char>| texts_of(r@).to_set().contains(k) <==> self.view().dom().contains(k) by {
                if texts_of(r@).to_set().contains(k) {
                    assert(texts_of(r@).contains(k));
                    let i = choose|i: int| 0 <= i < texts_of(r@).len() && texts_of(r@)[i] == k;
                    assert(self.catalogs.view().contains_key(self.catalogs.key_seq()[i]));
                }
                if self.view().dom().contains(k) {
                    let i = choose|i: int| 0 <= i < self.catalogs.key_seq().len() && self.catalogs.key_seq()[i] == k;
                    assert(texts_of(r@)[i] == k);
                    assert(texts_of(r@).contains(k));
                }
            }
            assert(texts_of(r@).to_set() =~= self.view().dom());
        }
        r
    }

    fn text_of(&self, code: &str, key: &str) -> (r: Option<&String>)
        requires
            self.wf(),
        ensures
            match r {
                Some(t) => text_in(self.view(), code@, key@) == Some(t@),
                None => text_in(self.view(), code@, key@) is None,
            },
    {
        match self.catalogs.get(code) {
            Some(cat) => {
                assert(cat.wf());
                match cat.get(key) {
                    Some(CatValue::Text(t)) => Some(t),
                    _ => None,
                }
            },
            None => None,
        }
    }

    /// Translates `key` for the language `code`, falling back to English and
    /// then to the key itself.
    pub fn tr(&self, code: &str, key: &str) -> (r: String)
        requires
            self.wf(),
        ensures
            r@ == tr_spec(self.view(), code@, key@),
    {
        match self.text_of(code, key) {
            Some(t) => owned(t.as_str()),
            None => match self.text_of("en", key) {
                Some(t) => owned(t.as_str()),
                None => owned(key),
            },
        }
    }

    /// The name of the language `code` in that language (its
    /// `language_name`, with the same fallbacks as `tr`).
    pub fn name_of(&self, code: &str) -> (r: String)
        requires
            self.wf(),
        ensures
            r@ == tr_spec(self.view(), code@, "language_name"@),
    {
        self.tr(code, "language_name")
    }

    /// Whether the language `code` is written right to left; `false` when
    /// there is no catalog for it or no `rtl` flag in it.
    pub fn is_rtl(&self, code: &str) -> (r: bool)
        requires
            self.wf(),
        ensures
            r == is_rtl_spec(self.view(), code@),
    {
        match self.catalogs.get(code) {
            Some(cat) => {
                assert(cat.wf());
                match cat.get("rtl") {
                    Some(CatValue::Flag(b)) => *b,
                    _ => false,
                }
            },
            None => false,
        }
    }
}

} // verus!
