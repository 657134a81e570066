//! Display languages and translation parameters.
//!
//! The translation catalogue itself (directory scanning, YAML flattening,
//! placeholder substitution) lives outside the verified core; these are
//! the plain value types the core and its callers exchange: the language
//! of a guild and the parameters a translation template is filled with.

use vstd::prelude::*;

verus! {

/// A display language the service can answer in.
#[derive(Clone, Copy, Debug, PartialEq, Eq, Structural, Hash)]
pub enum Language {
    English,
    Polish,
}

/// The two-letter code of each language.
pub open spec fn lang_code(l: Language) -> Seq<char> {
    match l {
        Language::English => "en"@,
        Language::Polish => "pl"@,
    }
}

/// The language a two-letter code stands for, if any.
pub open spec fn lang_of_code(s: Seq<char>) -> Option<Language> {
    if s == "en"@ {
        Some(Language::English)
    } else if s == "pl"@ {
        Some(Language::Polish)
    } else {
        None
    }
}

impl Language {
    /// The language's two-letter code.
    pub fn as_str(&self) -> (r: &'static str)
        ensures
            r@ == lang_code(*self),
    {
        match self {
            Language::English => "en",
            Language::Polish => "pl",
        }
    }

    /// Parses a two-letter code.
    pub fn from_str(s: &str) -> (r: Result<Self, ()>)
        ensures
            r matches Ok(l) ==> lang_of_code(s@) == Some(l),
            r is Err <==> lang_of_code(s@) is None,
    {
        if crate::strings::str_eq(s, "en") {
            Ok(Language::English)
        } else if crate::strings::str_eq(s, "pl") {
            Ok(Language::Polish)
        } else {
            Err(())
        }
    }
}

/// A reference to a translation template by key, with the plain values
/// that fill its placeholders.
pub struct TranslationRef {
    pub key: String,
    pub params: Vec<String>,
}

impl TranslationRef {
    /// A reference to the template under `key` with the given parameters.
    pub fn new(key: String, params: Vec<String>) -> (r: Self)
        ensures
            r.key == key,
            r.params == params,
    {
        TranslationRef { key, params }
    }

    /// The reference's parameters as plain translation parameters.
    pub fn to_translation_params(&self) -> (r: Vec<TranslationParam>)
        ensures
            r@.len() == self.params@.len(),
            forall|i: int|
                0 <= i < r@.len() ==> (#[trigger] r@[i] matches TranslationParam::Text(t) && t
                    == self.params@[i]),
    {
        let mut r: Vec<TranslationParam> = Vec::new();
        let mut i: usize = 0;
        while i < self.params.len()
            invariant
                i <= self.params@.len(),
                r@.len() == i,
                forall|k: int|
                    0 <= k < i ==> (#[trigger] r@[k] matches TranslationParam::Text(t) && t
                        == self.params@[k]),
            decreases self.params@.len() - i,
        {
            r.push(TranslationParam::Text(self.params[i].clone()));
            i = i + 1;
        }
        r
    }
}

impl Clone for TranslationRef {
    fn clone(&self) -> (r: Self)
        ensures
            r.key == self.key,
            r.params@ == self.params@,
    {
        let mut params: Vec<String> = Vec::new();
        let mut i: usize = 0;
        while i < self.params.len()
            invariant
                i <= self.params@.len(),
                params@ =~= self.params@.subrange(0, i as int),
            decreases self.params@.len() - i,
        {
            params.push(self.params[i].clone());
            proof {
                assert(params@ =~= self.params@.subrange(0, i as int + 1));
            }
            i = i + 1;
        }
        proof {
            assert(self.params@.subrange(0, self.params@.len() as int) =~= self.params@);
            assert(params@ == self.params@);
        }
        TranslationRef { key: self.key.clone(), params }
    }
}

/// One parameter of a translation template: literal text, a nested
/// translation reference, or nothing.
pub enum TranslationParam {
    Text(String),
    Ref(TranslationRef),
    Absent,
}

impl TranslationParam {
    /// Wraps an optional translation reference; an absent reference
    /// becomes the absent parameter.
    pub fn from_option(opt: Option<TranslationRef>) -> (r: Self)
        ensures
            r == match opt {
                Some(tr) => TranslationParam::Ref(tr),
                None => TranslationParam::Absent,
            },
    {
        match opt {
            Some(tr) => TranslationParam::Ref(tr),
            None => TranslationParam::Absent,
        }
    }
}

} // verus!
