use vstd::prelude::*;
use vstd::std_specs::cmp::PartialEqSpec;
use vstd::string::StringSliceAdditionalSpecFns;

verus! {

/// A language available on the backend.
#[derive(Clone, Debug)]
pub struct Language {
    /// The name the backend expects as the execution target.
    pub tio_name: String,
    /// The human-readable name of the language.
    pub name: String,
    /// Some tags for the programming language.
    pub categories: Vec<String>,
    /// The text encoding of the language, e.g. utf-8.
    pub encoding: String,
    /// The link to the home page of the language.
    pub link: String,
}

/// The catalog entry the backend publishes for one language, keyed elsewhere
/// by the protocol identifier.
#[derive(Clone, Debug)]
pub struct LanguageData {
    pub name: String,
    pub categories: Vec<String>,
    pub encoding: String,
    pub link: String,
}

impl Language {
    /// Builds a record from the catalog key and its entry.
    pub fn new(name: &str, data: LanguageData) -> (r: Language)
        ensures
            r.tio_name@ == name@,
            r.name == data.name,
            r.categories == data.categories,
            r.encoding == data.encoding,
            r.link == data.link,
    {
        Language {
            tio_name: name.to_owned(),
            name: data.name,
            categories: data.categories,
            encoding: data.encoding,
            link: data.link,
        }
    }
}

impl PartialEq for Language {
    /// Equality is decided by the protocol identifier alone: two records with
    /// the same identifier are interchangeable, whatever their other fields.
    fn eq(&self, other: &Language) -> bool {
        self.tio_name == other.tio_name
    }
}

impl vstd::std_specs::cmp::PartialEqSpecImpl for Language {
    open spec fn obeys_eq_spec() -> bool {
        true
    }

    open spec fn eq_spec(&self, other: &Language) -> bool {
        self.tio_name@ == other.tio_name@
    }
}

/// Whether two strings hold the same characters, decided over their bytes:
/// UTF-8 encoding is injective, so equal bytes mean equal characters.
fn str_eq(a: &str, b: &str) -> (r: bool)
    ensures
        r == (a@ == b@),
{
    let ab = a.as_bytes();
    let bb = b.as_bytes();
    let n = ab.len();
    if n != bb.len() {
        return false;
    }
    let mut i: usize = 0;
    while i < n
        invariant
            i <= n,
            n == ab@.len(),
            n == bb@.len(),
            ab@ == a.spec_bytes(),
            bb@ == b.spec_bytes(),
            forall|m: int| 0 <= m < i ==> ab@[m] == bb@[m],
        decreases n - i,
    {
        if ab[i] != bb[i] {
            return false;
        }
        i += 1;
    }
    proof {
        assert(a.spec_bytes() =~= b.spec_bytes());
        vstd::utf8::encode_utf8_decode_utf8(a@);
        vstd::utf8::encode_utf8_decode_utf8(b@);
    }
    true
}

impl PartialEq<str> for Language {
    /// A record also answers to either of its names: the protocol identifier
    /// or the display name.
    fn eq(&self, other: &str) -> bool {
        str_eq(self.tio_name.as_str(), other) || str_eq(self.name.as_str(), other)
    }
}

impl vstd::std_specs::cmp::PartialEqSpecImpl<str> for Language {
    open spec fn obeys_eq_spec() -> bool {
        true
    }

    open spec fn eq_spec(&self, other: &str) -> bool {
        self.tio_name@ == other@ || self.name@ == other@
    }
}

/// Records with identical protocol identifiers compare equal however their
/// display names, categories, encodings and links differ; records with
/// different identifiers compare unequal however alike they are otherwise.
pub proof fn lemma_language_equality_is_by_identifier(a: Language, b: Language)
    ensures
        a.eq_spec(&b) == (a.tio_name@ == b.tio_name@),
{
}

/// `l` is the record built from the catalog entry `(key, data)`.
pub open spec fn language_of_entry(key: String, data: LanguageData, l: Language) -> bool {
    &&& l.tio_name@ == key@
    &&& l.name == data.name
    &&& l.categories == data.categories
    &&& l.encoding == data.encoding
    &&& l.link == data.link
}

/// Turns the catalog's `(identifier, entry)` pairs into language records,
/// keeping their order and count.
pub fn languages_from_entries(entries: Vec<(String, LanguageData)>) -> (r: Vec<Language>)
    ensures
        r@.len() == entries@.len(),
        forall|i: int|
            0 <= i < entries@.len() ==> language_of_entry(
                entries@[i].0,
                entries@[i].1,
                #[trigger] r@[i],
            ),
{
    let mut rest = entries;
    let mut out: Vec<Language> = Vec::new();
    proof {
        assert(rest@ =~= entries@.skip(0));
    }
    while rest.len() > 0
        invariant
            out@.len() + rest@.len() == entries@.len(),
            rest@ == entries@.skip(out@.len() as int),
            forall|i: int|
                0 <= i < out@.len() ==> language_of_entry(
                    entries@[i].0,
                    entries@[i].1,
                    #[trigger] out@[i],
                ),
        decreases rest@.len(),
    {
        let (key, data) = rest.remove(0);
        let lang = Language::new(key.as_str(), data);
        out.push(lang);
        proof {
            assert(rest@ =~= entries@.skip(out@.len() as int));
        }
    }
    out
}

} // verus!
