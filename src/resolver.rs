//! Selection of a concrete version from a package's registry document.
use vstd::prelude::*;
use vstd::set_lib::{lemma_int_range, lemma_len_subset, set_int_range};
use vstd::string::*;

verus! {

/// Whether the text is a valid semantic version.
pub uninterp spec fn is_version(text: Seq<char>) -> bool;

/// Whether the text is a valid version range.
pub uninterp spec fn is_range(text: Seq<char>) -> bool;

/// Whether the version satisfies the range.
pub uninterp spec fn range_admits(range: Seq<char>, version: Seq<char>) -> bool;

/// Whether version `a` has higher precedence than version `b`.
pub uninterp spec fn version_above(a: Seq<char>, b: Seq<char>) -> bool;

/// Relies on semver::Version::parse: reports whether the text parses.
#[verifier::external_body]
fn version_parses(text: &str) -> (r: bool)
    ensures
        r == is_version(text@),
{
    semver::Version::parse(text).is_ok()
}

/// Relies on semver::VersionReq::parse: reports whether the text parses.
#[verifier::external_body]
fn range_parses(text: &str) -> (r: bool)
    ensures
        r == is_range(text@),
{
    semver::VersionReq::parse(text).is_ok()
}

/// Relies on semver::VersionReq::matches, on the parsed range and version.
#[verifier::external_body]
fn range_matches(range: &str, version: &str) -> (r: bool)
    requires
        is_range(range@),
        is_version(version@),
    ensures
        r == range_admits(range@, version@),
{
    match (semver::VersionReq::parse(range), semver::Version::parse(version)) {
        (Ok(req), Ok(v)) => req.matches(&v),
        _ => false,
    }
}

/// Relies on the `Ord` of semver::Version, on the two parsed versions.
#[verifier::external_body]
fn version_greater(a: &str, b: &str) -> (r: bool)
    requires
        is_version(a@),
        is_version(b@),
    ensures
        r == version_above(a@, b@),
{
    match (semver::Version::parse(a), semver::Version::parse(b)) {
        (Ok(x), Ok(y)) => x > y,
        _ => false,
    }
}

/// What the registry records for one version of a package.
#[derive(Clone, Debug)]
pub struct VersionMeta {
    /// Where the version's archive is fetched from.
    pub tarball: String,
    /// The version's dependencies, as (name, version spec) pairs.
    pub dependencies: Vec<(String, String)>,
}

/// A package's registry document: version string to version record.
#[derive(Clone, Debug)]
pub struct RegistryDoc {
    pub versions: Vec<(String, VersionMeta)>,
}

/// A (name, version spec) pair resolved against the registry.
#[derive(Clone, Debug)]
pub struct ResolvedVersion {
    pub name: String,
    pub version: String,
    pub tarball: String,
    pub dependencies: Vec<(String, String)>,
}

/// Why a version spec could not be resolved.
#[derive(Clone, Debug, PartialEq, Eq)]
pub enum ResolveError {
    /// The spec is neither a listed version nor a valid range.
    InvalidRange { range: String },
    /// No listed version satisfies the range.
    NoMatch { name: String, range: String },
}

/// The error reports `spec` as an invalid range.
pub open spec fn is_invalid_range(e: ResolveError, spec: Seq<char>) -> bool {
    match e {
        ResolveError::InvalidRange { range } => range@ == spec,
        _ => false,
    }
}

/// The error reports that no version of `name` satisfies `spec`.
pub open spec fn is_no_match(e: ResolveError, name: Seq<char>, spec: Seq<char>) -> bool {
    match e {
        ResolveError::NoMatch { name: n, range } => n@ == name && range@ == spec,
        _ => false,
    }
}

pub open spec fn key_of(doc: &RegistryDoc, i: int) -> Seq<char> {
    doc.versions@[i].0@
}

/// A listed version string equal to the spec.
pub open spec fn has_exact(doc: &RegistryDoc, spec: Seq<char>) -> bool {
    exists|i: int| 0 <= i < doc.versions@.len() && #[trigger] key_of(doc, i) == spec
}

/// The listed version at `i` parses and satisfies the range.
pub open spec fn admitted(doc: &RegistryDoc, range: Seq<char>, i: int) -> bool {
    0 <= i < doc.versions@.len() && is_version(key_of(doc, i)) && range_admits(
        range,
        key_of(doc, i),
    )
}

/// The listed version at `i` satisfies the range and no satisfying version
/// has higher precedence.
pub open spec fn greatest_admitted(doc: &RegistryDoc, range: Seq<char>, i: int) -> bool {
    &&& admitted(doc, range, i)
    &&& forall|j: int|
        #[trigger] admitted(doc, range, j) ==> !version_above(key_of(doc, j), key_of(doc, i))
}

/// A single blank between two comparators, which the range grammar writes as a comma.
pub open spec fn joins_comparators(s: Seq<char>, i: int) -> bool {
    &&& 0 < i && i + 1 < s.len()
    &&& s[i] == ' '
    &&& word_char(s[i - 1])
    &&& s[i + 1] != ' ' && s[i + 1] != ','
}

/// The first `n` characters of a range with each joining blank written as ", ".
pub open spec fn range_text_prefix(s: Seq<char>, n: int) -> Seq<char>
    decreases n,
{
    if n <= 0 {
        seq![]
    } else if joins_comparators(s, n - 1) {
        range_text_prefix(s, n - 1) + seq![',', ' ']
    } else {
        range_text_prefix(s, n - 1) + seq![s[n - 1]]
    }
}

/// A range as the range grammar reads it: comparators that are separated by a
/// blank alone (`>=1.0.0 <2.0.0`) are separated by a comma instead.
pub open spec fn range_text(s: Seq<char>) -> Seq<char> {
    range_text_prefix(s, s.len() as int)
}

/// A character that can end a comparator: an ASCII letter or digit, or `*`.
pub open spec fn word_char(c: char) -> bool {
    ('0' <= c && c <= '9') || ('a' <= c && c <= 'z') || ('A' <= c && c <= 'Z') || c == '*'
}

fn is_word_char(c: char) -> (r: bool)
    ensures
        r == word_char(c),
{
    ('0' <= c && c <= '9') || ('a' <= c && c <= 'z') || ('A' <= c && c <= 'Z') || c == '*'
}

/// Writes a range in the comma-separated form of the range grammar.
pub fn normalize_range(spec: &str) -> (r: String)
    ensures
        r@ == range_text(spec@),
{
    let n = spec.unicode_len();
    let mut out = String::new();
    let mut start: usize = 0;
    let mut i: usize = 0;
    while i < n
        invariant
            n == spec@.len(),
            start <= i <= n,
            range_text_prefix(spec@, i as int) == out@ + spec@.subrange(start as int, i as int),
        decreases n - i,
    {
        let c = spec.get_char(i);
        let joins = c == ' ' && i > 0 && i + 1 < n && is_word_char(spec.get_char(i - 1)) && {
            let d = spec.get_char(i + 1);
            d != ' ' && d != ','
        };
        if joins {
            let part = spec.substring_char(start, i);
            out.append(part);
            out.append(", ");
            proof {
                reveal_strlit(", ");
                assert(range_text_prefix(spec@, i + 1) == range_text_prefix(spec@, i as int) + seq![',', ' ']);
            }
            start = i + 1;
            assert(spec@.subrange(start as int, i + 1) =~= Seq::<char>::empty());
            assert(out@ + spec@.subrange(start as int, i + 1) =~= out@);
        } else {
            assert(spec@.subrange(start as int, i + 1) =~= spec@.subrange(start as int, i as int)
                + seq![spec@[i as int]]);
        }
        i = i + 1;
    }
    let rest = spec.substring_char(start, n);
    out.append(rest);
    out
}

/// The version that resolution picks for `spec`: the listed version equal to
/// it, or else the greatest listed version that satisfies it as a range.
pub open spec fn chosen(doc: &RegistryDoc, spec: Seq<char>, i: int) -> bool {
    if has_exact(doc, spec) {
        0 <= i < doc.versions@.len() && key_of(doc, i) == spec
    } else {
        greatest_admitted(doc, range_text(spec), i)
    }
}

/// Resolution of `spec` succeeds.
pub open spec fn resolvable(doc: &RegistryDoc, spec: Seq<char>) -> bool {
    has_exact(doc, spec) || (is_range(range_text(spec)) && exists|i: int|
        greatest_admitted(doc, range_text(spec), i))
}

impl RegistryDoc {
    /// No version string is listed twice.
    pub open spec fn wf(&self) -> bool {
        forall|i: int, j: int|
            0 <= i < j < self.versions@.len() ==> #[trigger] key_of(self, i) != #[trigger] key_of(
                self,
                j,
            )
    }

    /// Whether no version string is listed twice.
    pub fn has_unique_versions(&self) -> (r: bool)
        ensures
            r == self.wf(),
    {
        let n = self.versions.len();
        let mut i: usize = 0;
        while i < n
            invariant
                n == self.versions@.len(),
                i <= n,
                forall|a: int, b: int| 0 <= a < b < n && a < i ==> key_of(self, a) != key_of(self, b),
            decreases n - i,
        {
            let mut j: usize = i + 1;
            while j < n
                invariant
                    n == self.versions@.len(),
                    i < n,
                    i < j <= n,
                    forall|a: int, b: int| 0 <= a < b < n && a < i ==> key_of(self, a) != key_of(self, b),
                    forall|b: int| i < b < j ==> key_of(self, i as int) != key_of(self, b),
                decreases n - j,
            {
                if self.versions[i].0 == self.versions[j].0 {
                    assert(key_of(self, i as int) == key_of(self, j as int));
                    return false;
                }
                j = j + 1;
            }
            i = i + 1;
        }
        true
    }

    /// Index of a listed version string equal to `text`.
    pub fn exact_index(&self, text: &String) -> (r: Option<usize>)
        ensures
            r is None <==> !has_exact(self, text@),
            r is Some ==> r->0 < self.versions@.len() && key_of(self, r->0 as int) == text@,
    {
        let n = self.versions.len();
        let mut i: usize = 0;
        while i < n
            invariant
                n == self.versions@.len(),
                i <= n,
                forall|k: int| 0 <= k < i ==> key_of(self, k) != text@,
            decreases n - i,
        {
            if self.versions[i].0 == *text {
                assert(key_of(self, i as int) == text@);
                return Some(i);
            }
            i = i + 1;
        }
        None
    }

    /// Whether no admitted version has higher precedence than the one at `i`.
    fn unbeaten(&self, ok: &Vec<bool>, range: Ghost<Seq<char>>, i: usize) -> (r: bool)
        requires
            i < self.versions@.len(),
            is_version(key_of(self, i as int)),
            ok@.len() == self.versions@.len(),
            forall|k: int| 0 <= k < ok@.len() ==> ok@[k] == admitted(self, range@, k),
        ensures
            r == forall|j: int|
                #[trigger] admitted(self, range@, j) ==> !version_above(
                    key_of(self, j),
                    key_of(self, i as int),
                ),
    {
        let n = self.versions.len();
        let mut j: usize = 0;
        while j < n
            invariant
                n == self.versions@.len(),
                j <= n,
                i < n,
                is_version(key_of(self, i as int)),
                ok@.len() == n,
                forall|k: int| 0 <= k < ok@.len() ==> ok@[k] == admitted(self, range@, k),
                forall|k: int|
                    0 <= k < j && #[trigger] admitted(self, range@, k) ==> !version_above(
                        key_of(self, k),
                        key_of(self, i as int),
                    ),
            decreases n - j,
        {
            if ok[j] && version_greater(self.versions[j].0.as_str(), self.versions[i].0.as_str()) {
                assert(admitted(self, range@, j as int));
                return false;
            }
            j = j + 1;
        }
        true
    }

    /// Picks the version that `spec` selects and returns its index.
    ///
    /// A spec equal to a listed version string selects that version, and is
    /// not parsed as a range. Otherwise the spec is read as a range, and the
    /// listed version of highest precedence that satisfies it is selected;
    /// listed strings that are not valid versions are never selected.
    pub fn select_version(&self, name: &str, spec: &str) -> (r: Result<usize, ResolveError>)
        ensures
            r is Ok <==> resolvable(self, spec@),
            r is Ok ==> r->Ok_0 < self.versions@.len() && chosen(self, spec@, r->Ok_0 as int),
            !has_exact(self, spec@) && !is_range(range_text(spec@)) ==> r is Err
                && is_invalid_range(r->Err_0, spec@),
            !resolvable(self, spec@) && is_range(range_text(spec@)) ==> r is Err && is_no_match(
                r->Err_0,
                name@,
                spec@,
            ),
    {
        let target = String::from_str(spec);
        if let Some(i) = self.exact_index(&target) {
            return Ok(i);
        }
        let range = normalize_range(spec);
        if !range_parses(range.as_str()) {
            return Err(ResolveError::InvalidRange { range: target });
        }
        let ghost rg = range@;
        let n = self.versions.len();
        let mut ok: Vec<bool> = Vec::new();
        let mut i: usize = 0;
        while i < n
            invariant
                n == self.versions@.len(),
                i <= n,
                rg == range@,
                is_range(rg),
                ok@.len() == i,
                forall|k: int| 0 <= k < i ==> ok@[k] == admitted(self, rg, k),
            decreases n - i,
        {
            let v = self.versions[i].0.as_str();
            let a = version_parses(v) && range_matches(range.as_str(), v);
            ok.push(a);
            i = i + 1;
        }
        // Keep the highest version seen so far, then confirm it against all.
        let mut best: Option<usize> = None;
        i = 0;
        while i < n
            invariant
                n == self.versions@.len(),
                i <= n,
                ok@.len() == n,
                forall|k: int| 0 <= k < n ==> ok@[k] == admitted(self, rg, k),
                best is Some ==> best->0 < n && admitted(self, rg, best->0 as int),
                best is None ==> forall|k: int| 0 <= k < i ==> !admitted(self, rg, k),
            decreases n - i,
        {
            if ok[i] {
                match best {
                    None => best = Some(i),
                    Some(b) => {
                        if version_greater(self.versions[i].0.as_str(), self.versions[b].0.as_str()) {
                            best = Some(i);
                        }
                    },
                }
            }
            i = i + 1;
        }
        match best {
            None => {
                return Err(ResolveError::NoMatch { name: String::from_str(name), range: target });
            },
            Some(b) => {
                if self.unbeaten(&ok, Ghost(rg), b) {
                    assert(greatest_admitted(self, rg, b as int));
                    return Ok(b);
                }
            },
        }
        // Reached only where precedence is not a total order: search all.
        i = 0;
        while i < n
            invariant
                n == self.versions@.len(),
                i <= n,
                ok@.len() == n,
                forall|k: int| 0 <= k < n ==> ok@[k] == admitted(self, rg, k),
                forall|k: int| 0 <= k < i ==> !greatest_admitted(self, rg, k),
                is_range(rg),
                rg == range_text(spec@),
                !has_exact(self, spec@),
            decreases n - i,
        {
            if ok[i] && self.unbeaten(&ok, Ghost(rg), i) {
                assert(greatest_admitted(self, rg, i as int));
                return Ok(i);
            }
            i = i + 1;
        }
        assert forall|k: int| !greatest_admitted(self, rg, k) by {
            if 0 <= k < n {
            }
        }
        Err(ResolveError::NoMatch { name: String::from_str(name), range: target })
    }

    /// Resolves `spec` for package `name` and takes the chosen version's
    /// record out of the document.
    pub fn resolve(self, name: &str, spec: &str) -> (r: Result<ResolvedVersion, ResolveError>)
        requires
            self.wf(),
        ensures
            r is Ok <==> resolvable(&self, spec@),
            r is Ok ==> exists|i: int|
                #![trigger self.versions@[i]]
                chosen(&self, spec@, i) && r->Ok_0.name@ == name@ && r->Ok_0.version
                    == self.versions@[i].0 && r->Ok_0.tarball == self.versions@[i].1.tarball
                    && r->Ok_0.dependencies == self.versions@[i].1.dependencies,
            !has_exact(&self, spec@) && !is_range(range_text(spec@)) ==> r is Err
                && is_invalid_range(r->Err_0, spec@),
            !resolvable(&self, spec@) && is_range(range_text(spec@)) ==> r is Err && is_no_match(
                r->Err_0,
                name@,
                spec@,
            ),
    {
        match self.select_version(name, spec) {
            Ok(i) => {
                let ghost old_versions = self.versions@;
                let mut versions = self.versions;
                let (version, meta) = versions.swap_remove(i);
                assert(old_versions[i as int] == (version, meta));
                Ok(ResolvedVersion {
                    name: String::from_str(name),
                    version,
                    tarball: meta.tarball,
                    dependencies: meta.dependencies,
                })
            },
            Err(e) => Err(e),
        }
    }
}

/// A spec equal to a listed version string selects that version, whatever
/// other listed versions it would admit as a range.
pub proof fn lemma_exact_spec_selects_itself(doc: &RegistryDoc, spec: Seq<char>, i: int)
    requires
        has_exact(doc, spec),
        chosen(doc, spec, i),
    ensures
        resolvable(doc, spec),
        key_of(doc, i) == spec,
{
}

/// A range selects a listed version that satisfies it and that no other
/// satisfying listed version exceeds.
pub proof fn lemma_range_selects_greatest(doc: &RegistryDoc, spec: Seq<char>, i: int)
    requires
        !has_exact(doc, spec),
        chosen(doc, spec, i),
    ensures
        is_version(key_of(doc, i)),
        range_admits(range_text(spec), key_of(doc, i)),
        forall|j: int|
            0 <= j < doc.versions@.len() && is_version(key_of(doc, j)) && range_admits(
                range_text(spec),
                key_of(doc, j),
            ) ==> !version_above(key_of(doc, j), key_of(doc, i)),
{
    assert forall|j: int|
        0 <= j < doc.versions@.len() && is_version(key_of(doc, j)) && range_admits(
            range_text(spec),
            key_of(doc, j),
        ) implies !version_above(key_of(doc, j), key_of(doc, i)) by {
        assert(admitted(doc, range_text(spec), j));
    }
}

/// Precedence is a strict order on the versions that the range admits.
pub open spec fn strict_order_on_admitted(doc: &RegistryDoc, range: Seq<char>) -> bool {
    &&& forall|i: int|
        #[trigger] admitted(doc, range, i) ==> !version_above(key_of(doc, i), key_of(doc, i))
    &&& forall|i: int, j: int, k: int|
        admitted(doc, range, i) && admitted(doc, range, j) && admitted(doc, range, k)
            && #[trigger] version_above(key_of(doc, i), key_of(doc, j)) && #[trigger] version_above(
            key_of(doc, j),
            key_of(doc, k),
        ) ==> version_above(key_of(doc, i), key_of(doc, k))
}

/// Indices of the admitted versions above the one at `i`.
pub open spec fn admitted_above(doc: &RegistryDoc, range: Seq<char>, i: int) -> Set<int> {
    Set::new(|j: int| admitted(doc, range, j) && version_above(key_of(doc, j), key_of(doc, i)))
}

proof fn lemma_greatest_from(doc: &RegistryDoc, range: Seq<char>, i: int)
    requires
        admitted(doc, range, i),
        strict_order_on_admitted(doc, range),
    ensures
        exists|k: int| greatest_admitted(doc, range, k),
    decreases admitted_above(doc, range, i).len(),
{
    let n = doc.versions@.len() as int;
    lemma_int_range(0, n);
    lemma_len_subset(admitted_above(doc, range, i), set_int_range(0, n));
    if greatest_admitted(doc, range, i) {
        return;
    }
    let j = choose|j: int|
        #[trigger] admitted(doc, range, j) && version_above(key_of(doc, j), key_of(doc, i));
    let above_i = admitted_above(doc, range, i);
    let above_j = admitted_above(doc, range, j);
    assert(above_j.subset_of(above_i.remove(j))) by {
        assert forall|m: int| above_j.contains(m) implies above_i.remove(j).contains(m) by {
            assert(version_above(key_of(doc, m), key_of(doc, j)));
            assert(version_above(key_of(doc, m), key_of(doc, i)));
            if m == j {
                assert(!version_above(key_of(doc, j), key_of(doc, j)));
            }
        }
    }
    assert(above_i.contains(j));
    lemma_len_subset(above_j, above_i.remove(j));
    lemma_greatest_from(doc, range, j);
}

/// Where precedence is a strict order on the admitted versions, as the
/// order of semantic versions is, a range that admits a listed version
/// resolves.
pub proof fn lemma_admitted_range_resolves(doc: &RegistryDoc, spec: Seq<char>, i: int)
    requires
        !has_exact(doc, spec),
        is_range(range_text(spec)),
        admitted(doc, range_text(spec), i),
        strict_order_on_admitted(doc, range_text(spec)),
    ensures
        resolvable(doc, spec),
{
    lemma_greatest_from(doc, range_text(spec), i);
}

} // verus!
