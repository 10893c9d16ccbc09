//! Content cache: where fetched resources live on disk, and the per-domain
//! index of redirects.
//!
//! A fetched resource is stored under the cache root, in a directory named
//! after its host, in a file named by the hex SHA-256 of its path and query.
//! For each domain an index maps an original URL to the URL that actually
//! served it, for fetches that were redirected.
use vstd::prelude::*;
use vstd::string::*;
use vstd::utf8::encode_utf8;
use crate::specifier::{Specifier, opt_view, parses_as_url, url_parses};

verus! {

/// The SHA-256 digest of the bytes.
pub uninterp spec fn sha256_of(data: Seq<u8>) -> Seq<u8>;

/// Relies on sha2's `Digest::digest` for Sha256: the digest of the bytes,
/// 32 bytes long.
#[verifier::external_body]
fn sha256(data: &[u8]) -> (r: Vec<u8>)
    ensures
        r@ == sha256_of(data@),
        r@.len() == 32,
{
    <sha2::Sha256 as sha2::Digest>::digest(data).to_vec()
}

/// Lower-case hexadecimal digit of a value below 16.
pub open spec fn hex_digit(n: u8) -> char {
    seq!['0', '1', '2', '3', '4', '5', '6', '7', '8', '9', 'a', 'b', 'c', 'd', 'e', 'f'][n as int]
}

/// Two lower-case hexadecimal digits per byte, high nibble first.
pub open spec fn hex_of(data: Seq<u8>) -> Seq<char> {
    Seq::new(
        2 * data.len(),
        |i: int|
            if i % 2 == 0 {
                hex_digit(data[i / 2] / 16)
            } else {
                hex_digit(data[i / 2] % 16)
            },
    )
}

/// Relies on hex::encode: two lower-case digits per byte, high nibble first.
#[verifier::external_body]
fn to_hex(data: &[u8]) -> (r: String)
    ensures
        r@ == hex_of(data@),
{
    hex::encode(data)
}

/// Directory name used for a URL without a host.
pub open spec fn unknown_host() -> Seq<char> {
    "unknown-host"@
}

/// The directory of a URL's host under the cache root.
pub open spec fn domain_text(host: Option<Seq<char>>) -> Seq<char> {
    match host {
        Some(h) => h,
        None => unknown_host(),
    }
}

/// The bytes hashed to name a cached object: the path, then `?` and the
/// query when there is one.
pub open spec fn hash_input(path: Seq<char>, query: Option<Seq<char>>) -> Seq<u8> {
    match query {
        Some(q) => encode_utf8(path) + seq![63u8] + encode_utf8(q),
        None => encode_utf8(path),
    }
}

/// File name of a cached object.
pub open spec fn object_name(u: &Specifier) -> Seq<char> {
    hex_of(sha256_of(hash_input(u.path_view(), u.query_view())))
}

/// Path of a cached object.
pub open spec fn object_path(u: &Specifier) -> Seq<char> {
    "./cache/"@ + domain_text(u.host_view()) + "/"@ + object_name(u)
}

/// Path of a domain's redirect index.
pub open spec fn index_path(domain: Seq<char>) -> Seq<char> {
    "./cache/"@ + domain + "/_metadata"@
}

/// The directory that holds the cache.
pub fn cache_root() -> (r: String)
    ensures
        r@ == "./cache"@,
{
    String::from_str("./cache")
}

/// The directory name of a URL's host: the host, or `unknown-host`.
pub fn domain_of(u: &Specifier) -> (r: String)
    ensures
        r@ == domain_text(u.host_view()),
{
    match u.host() {
        Some(h) => h.clone(),
        None => String::from_str("unknown-host"),
    }
}

/// File name of a cached object: hex SHA-256 of the URL's path and query.
pub fn url_to_filename(u: &Specifier) -> (r: String)
    ensures
        r@ == object_name(u),
        r@.len() == 64,
{
    let mut input = u.path().as_bytes_vec();
    match u.query() {
        Some(q) => {
            input.push(63u8);
            let mut rest = q.as_str().as_bytes_vec();
            input.append(&mut rest);
        },
        None => {},
    }
    assert(input@ =~= hash_input(u.path_view(), u.query_view()));
    let digest = sha256(input.as_slice());
    to_hex(digest.as_slice())
}

/// Path of a cached object: cache root, host directory, hashed file name.
pub fn path_for(u: &Specifier) -> (r: String)
    ensures
        r@ == object_path(u),
{
    let mut p = String::from_str("./cache/");
    let domain = domain_of(u);
    p.append(domain.as_str());
    p.append("/");
    let name = url_to_filename(u);
    p.append(name.as_str());
    p
}

/// Path of a domain's redirect index.
pub fn metadata_path_for_domain(domain: &str) -> (r: String)
    ensures
        r@ == index_path(domain@),
{
    let mut p = String::from_str("./cache/");
    p.append(domain);
    p.append("/_metadata");
    p
}

/// A redirect observed for one fetch.
#[derive(Clone, Debug)]
pub struct CacheEntry {
    pub original_url: String,
    pub final_url: Option<String>,
}

/// Original URL to final URL, with the newest record of a URL in force.
pub open spec fn index_map(entries: Seq<CacheEntry>) -> Map<Seq<char>, Option<Seq<char>>>
    decreases entries.len(),
{
    if entries.len() == 0 {
        Map::empty()
    } else {
        let e = entries.last();
        index_map(entries.drop_last()).insert(
            e.original_url@,
            match e.final_url {
                Some(f) => Some(f@),
                None => None,
            },
        )
    }
}

/// One domain's redirect index.
#[derive(Clone, Debug)]
pub struct DomainIndex {
    entries: Vec<CacheEntry>,
}

/// The URL that a lookup of `original` yields: the recorded final URL when
/// there is one and it parses, else `original` itself.
pub open spec fn final_url_spec(index: Map<Seq<char>, Option<Seq<char>>>, original: Seq<char>) -> Seq<
    char,
> {
    if index.contains_key(original) && index[original] is Some && parses_as_url(
        index[original]->0,
    ) {
        index[original]->0
    } else {
        original
    }
}

/// The index after caching a fetch of `original` served from `served`: a
/// record is added only when the serving URL differs.
pub open spec fn after_caching(
    index: Map<Seq<char>, Option<Seq<char>>>,
    original: &Specifier,
    served: Option<&Specifier>,
) -> Map<Seq<char>, Option<Seq<char>>> {
    match served {
        Some(f) => if f.text_view() != original.text_view() {
            index.insert(original.text_view(), Some(f.text_view()))
        } else {
            index
        },
        None => index,
    }
}

/// The record to add to the index for a fetch of `original` that was served
/// from `served`: one exactly when the two differ.
pub fn redirect_entry(original: &Specifier, served: Option<&Specifier>) -> (r: Option<CacheEntry>)
    ensures
        r is Some <==> (served is Some && served->0.text_view() != original.text_view()),
        r is Some ==> r->0.original_url@ == original.text_view() && r->0.final_url is Some
            && r->0.final_url->0@ == served->0.text_view(),
{
    match served {
        Some(f) => {
            if f.same_as(original) {
                None
            } else {
                Some(CacheEntry { original_url: String::from_str(original.text()), final_url: Some(String::from_str(f.text())) })
            }
        },
        None => None,
    }
}

impl DomainIndex {
    pub closed spec fn view(&self) -> Map<Seq<char>, Option<Seq<char>>> {
        index_map(self.entries@)
    }

    /// An empty index.
    pub fn new() -> (r: DomainIndex)
        ensures
            r.view() == Map::<Seq<char>, Option<Seq<char>>>::empty(),
    {
        DomainIndex { entries: Vec::new() }
    }

    /// Adds a record, replacing any earlier one for the same original URL.
    pub fn insert(&mut self, entry: CacheEntry)
        ensures
            final(self).view() == old(self).view().insert(
                entry.original_url@,
                match entry.final_url {
                    Some(f) => Some(f@),
                    None => None,
                },
            ),
    {
        let ghost e = entry;
        self.entries.push(entry);
        assert(self.entries@.drop_last() =~= old(self).entries@);
        assert(self.entries@.last() == e);
    }

    /// The record for an original URL.
    pub fn get(&self, original: &str) -> (r: Option<Option<String>>)
        ensures
            r is Some <==> self.view().contains_key(original@),
            r is Some ==> match r->0 {
                Some(f) => self.view()[original@] == Some(f@),
                None => self.view()[original@] is None,
            },
    {
        let key = String::from_str(original);
        let mut i: usize = self.entries.len();
        assert(self.entries@.take(i as int) =~= self.entries@);
        while i > 0
            invariant
                i <= self.entries@.len(),
                key@ == original@,
                index_map(self.entries@.take(i as int)).contains_key(key@)
                    == self.view().contains_key(key@),
                index_map(self.entries@.take(i as int)).contains_key(key@)
                    ==> index_map(self.entries@.take(i as int))[key@] == self.view()[key@],
            decreases i,
        {
            let ghost pre = self.entries@.take(i as int);
            assert(pre.drop_last() =~= self.entries@.take(i - 1));
            assert(pre.last() == self.entries@[i - 1]);
            if self.entries[i - 1].original_url == key {
                return Some(self.entries[i - 1].final_url.clone());
            }
            i = i - 1;
        }
        assert(self.entries@.take(0) =~= Seq::<CacheEntry>::empty());
        None
    }

    /// The records, oldest first; a later record for a URL replaces an
    /// earlier one.
    pub fn into_entries(self) -> (r: Vec<CacheEntry>)
        ensures
            index_map(r@) == self.view(),
    {
        self.entries
    }

    /// Records a fetch of `original` served from `served`, as caching does;
    /// returns whether the index changed and must be written back.
    pub fn cache_redirect(&mut self, original: &Specifier, served: Option<&Specifier>) -> (r: bool)
        ensures
            final(self).view() == after_caching(old(self).view(), original, served),
            r == (served is Some && served->0.text_view() != original.text_view()),
    {
        match redirect_entry(original, served) {
            Some(e) => {
                self.insert(e);
                true
            },
            None => false,
        }
    }

    /// The final URL recorded for `original`, or `original` when none is
    /// recorded or the recorded text does not parse as a URL.
    pub fn final_url_for(&self, original: &str) -> (r: String)
        ensures
            r@ == final_url_spec(self.view(), original@),
    {
        match self.get(original) {
            Some(Some(f)) => {
                if url_parses(f.as_str()) {
                    f
                } else {
                    String::from_str(original)
                }
            },
            _ => String::from_str(original),
        }
    }
}

/// Caching a URL with a different serving URL, then looking the URL up,
/// yields the serving URL.
pub proof fn lemma_redirect_remembered(
    index: Map<Seq<char>, Option<Seq<char>>>,
    original: &Specifier,
    served: &Specifier,
)
    requires
        served.wf(),
        served.text_view() != original.text_view(),
    ensures
        final_url_spec(after_caching(index, original, Some(served)), original.text_view())
            == served.text_view(),
{
}

/// Caching a URL with no serving URL, or with itself as serving URL, then
/// looking it up, yields the URL unchanged when no redirect was recorded
/// for it before.
pub proof fn lemma_no_redirect_keeps_url(
    index: Map<Seq<char>, Option<Seq<char>>>,
    original: &Specifier,
    served: Option<&Specifier>,
)
    requires
        !index.contains_key(original.text_view()),
        served is None || served->0.text_view() == original.text_view(),
    ensures
        final_url_spec(after_caching(index, original, served), original.text_view()) == original.text_view(),
{
}

} // verus!
