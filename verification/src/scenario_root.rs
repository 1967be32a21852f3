//! The active scenario package and the asset paths beneath it.
//!
//! Paths are asset-server logical paths (`scenarios/<package-key>/...`) relative to the asset
//! base, never machine paths. Construction validates the package key, and every joined path is
//! a validated scenario-relative path.

use vstd::prelude::*;

use crate::scenario_path::{path_error, ScenarioRelativePath};
use crate::text::{concat2, concat3};

verus! {

/// Default package selected by startup configuration.
pub const DEFAULT_SCENARIO_PACKAGE_KEY: &'static str = "rusted_kingdoms";

/// The scenario-relative path of every package's entry point.
pub const SCENARIO_MANIFEST_PATH: &'static str = "manifest.yaml";

/// Why a package key cannot identify a scenario package.
#[derive(Clone, Copy, Debug, PartialEq, Eq, Structural)]
pub enum ScenarioPackageKeyError {
    Empty,
    InvalidFirstCharacter,
    InvalidCharacter,
}

impl ScenarioPackageKeyError {
    /// The human-readable explanation.
    pub open spec fn message(self) -> Seq<char> {
        match self {
            ScenarioPackageKeyError::Empty => "package key must not be empty"@,
            ScenarioPackageKeyError::InvalidFirstCharacter => "package key must begin with a lowercase ASCII letter or digit"@,
            ScenarioPackageKeyError::InvalidCharacter => "package key may contain only lowercase ASCII letters, digits, underscores, and hyphens"@,
        }
    }

    /// The human-readable explanation.
    pub fn to_string(&self) -> (r: String)
        ensures
            r@ == self.message(),
            r@ == match self {
                ScenarioPackageKeyError::Empty => "package key must not be empty"@,
                ScenarioPackageKeyError::InvalidFirstCharacter => "package key must begin with a lowercase ASCII letter or digit"@,
                ScenarioPackageKeyError::InvalidCharacter => "package key may contain only lowercase ASCII letters, digits, underscores, and hyphens"@,
            },
    {
        match self {
            ScenarioPackageKeyError::Empty => "package key must not be empty".to_owned(),
            ScenarioPackageKeyError::InvalidFirstCharacter => "package key must begin with a lowercase ASCII letter or digit".to_owned(),
            ScenarioPackageKeyError::InvalidCharacter => "package key may contain only lowercase ASCII letters, digits, underscores, and hyphens".to_owned(),
        }
    }
}

/// A lowercase ASCII letter or an ASCII digit.
pub open spec fn is_key_start(c: char) -> bool {
    ('a' <= c && c <= 'z') || ('0' <= c && c <= '9')
}

/// A character a package key may hold.
pub open spec fn is_key_char(c: char) -> bool {
    is_key_start(c) || c == '_' || c == '-'
}

/// Why `key` is not a package key, if it is not.
pub open spec fn package_key_error(key: Seq<char>) -> Option<ScenarioPackageKeyError> {
    if key.len() == 0 {
        Some(ScenarioPackageKeyError::Empty)
    } else if !is_key_start(key[0]) {
        Some(ScenarioPackageKeyError::InvalidFirstCharacter)
    } else if exists|i: int| 0 <= i < key.len() && !is_key_char(#[trigger] key[i]) {
        Some(ScenarioPackageKeyError::InvalidCharacter)
    } else {
        None
    }
}

/// Checks a package key: non-empty, beginning with a lowercase ASCII letter or digit, and
/// holding only lowercase ASCII letters, digits, `_` and `-`.
pub fn validate_package_key(package_key: &str) -> (r: Result<(), ScenarioPackageKeyError>)
    ensures
        match package_key_error(package_key@) {
            Some(e) => r == Err::<(), ScenarioPackageKeyError>(e),
            None => r is Ok,
        },
{
    let n = package_key.unicode_len();
    if n == 0 {
        return Err(ScenarioPackageKeyError::Empty);
    }
    let first = package_key.get_char(0);
    if !(('a' <= first && first <= 'z') || ('0' <= first && first <= '9')) {
        return Err(ScenarioPackageKeyError::InvalidFirstCharacter);
    }
    let mut i: usize = 0;
    while i < n
        invariant
            n == package_key@.len(),
            n > 0,
            is_key_start(package_key@[0]),
            i <= n,
            forall|k: int| 0 <= k < i ==> is_key_char(#[trigger] package_key@[k]),
        decreases n - i,
    {
        let c = package_key.get_char(i);
        if !(('a' <= c && c <= 'z') || ('0' <= c && c <= '9') || c == '_' || c == '-') {
            assert(!is_key_char(package_key@[i as int]));
            return Err(ScenarioPackageKeyError::InvalidCharacter);
        }
        i = i + 1;
    }
    Ok(())
}

/// The logical root of the package `key`.
pub open spec fn root_of(key: Seq<char>) -> Seq<char> {
    "scenarios/"@ + key
}

/// The logical path of `relative` under the package `key`.
pub open spec fn resolved(key: Seq<char>, relative: Seq<char>) -> Seq<char> {
    root_of(key) + "/"@ + relative
}

/// Adds stable scenario provenance to an asset or data loading failure. Paths are qualified by
/// package key but stay relative to the package.
#[derive(Debug)]
pub struct ScenarioLoadError<E> {
    package_key: String,
    scenario_relative_path: String,
    source: E,
}

impl<E> ScenarioLoadError<E> {
    /// The package key active when the error was created.
    pub closed spec fn key_view(&self) -> Seq<char> {
        self.package_key@
    }

    /// The failing path, relative to the package.
    pub closed spec fn path_view(&self) -> Seq<char> {
        self.scenario_relative_path@
    }

    /// The underlying cause.
    pub closed spec fn cause(&self) -> E {
        self.source
    }

    /// The package key active when the error was created.
    pub fn package_key(&self) -> (r: &str)
        ensures
            r@ == self.key_view(),
    {
        self.package_key.as_str()
    }

    /// The failing path, relative to the package.
    pub fn scenario_relative_path(&self) -> (r: &str)
        ensures
            r@ == self.path_view(),
    {
        self.scenario_relative_path.as_str()
    }

    /// The underlying loader, parser or I/O error.
    pub fn underlying(&self) -> (r: &E)
        ensures
            *r == self.cause(),
    {
        &self.source
    }

    /// Consumes the error and returns its underlying cause.
    pub fn into_underlying(self) -> (r: E)
        ensures
            r == self.cause(),
    {
        self.source
    }

    /// The rendered error, `key:path: cause`, given the cause's own rendering.
    pub fn describe(&self, cause: &str) -> (r: String)
        ensures
            r@ == self.key_view() + ":"@ + self.path_view() + ": "@ + cause@,
    {
        let mut s = concat3(self.package_key.as_str(), ":", self.scenario_relative_path.as_str());
        s.append(": ");
        s.append(cause);
        s
    }
}

/// The active scenario's logical root beneath the asset source.
#[derive(Debug, PartialEq, Eq)]
pub struct ScenarioRoot {
    package_key: String,
    logical_root: String,
}

impl ScenarioRoot {
    #[verifier::type_invariant]
    spec fn well_formed(self) -> bool {
        &&& package_key_error(self.package_key@) is None
        &&& self.logical_root@ == root_of(self.package_key@)
    }

    /// The selected package key.
    pub closed spec fn key_view(&self) -> Seq<char> {
        self.package_key@
    }

    /// Creates the root of an accepted package key, or says why the key is refused.
    pub fn try_for_package_key(package_key: &str) -> (r: Result<Self, ScenarioPackageKeyError>)
        ensures
            match package_key_error(package_key@) {
                Some(e) => r == Err::<Self, ScenarioPackageKeyError>(e),
                None => r matches Ok(root) && root.key_view() == package_key@,
            },
    {
        match validate_package_key(package_key) {
            Err(e) => Err(e),
            Ok(()) => Ok(
                ScenarioRoot {
                    package_key: package_key.to_owned(),
                    logical_root: concat2("scenarios/", package_key),
                },
            ),
        }
    }

    /// The selected package key.
    pub fn package_key(&self) -> (r: &str)
        ensures
            r@ == self.key_view(),
            package_key_error(r@) is None,
    {
        proof {
            use_type_invariant(self);
        }
        self.package_key.as_str()
    }

    /// The package's asset-server prefix: `scenarios/<key>`.
    pub fn logical_root(&self) -> (r: &str)
        ensures
            r@ == root_of(self.key_view()),
    {
        proof {
            use_type_invariant(self);
        }
        self.logical_root.as_str()
    }

    /// The package manifest's asset-server path.
    pub fn manifest_asset_path(&self) -> (r: String)
        ensures
            r@ == resolved(self.key_view(), SCENARIO_MANIFEST_PATH@),
    {
        let manifest = manifest_relative_path();
        self.resolve(&manifest)
    }

    /// `relative` under the package's logical root.
    pub fn resolve(&self, relative: &ScenarioRelativePath) -> (r: String)
        ensures
            r@ == resolved(self.key_view(), relative.view()),
    {
        proof {
            use_type_invariant(self);
        }
        concat3(self.logical_root.as_str(), "/", relative.as_str())
    }

    /// Adds this package's manifest provenance to an underlying loading error.
    pub fn manifest_load_error<E>(&self, source: E) -> (r: ScenarioLoadError<E>)
        ensures
            r.key_view() == self.key_view(),
            r.path_view() == SCENARIO_MANIFEST_PATH@,
            r.cause() == source,
    {
        let manifest = manifest_relative_path();
        self.load_error(&manifest, source)
    }

    /// Adds this package and a validated scenario-relative path to an underlying loading error.
    pub fn load_error<E>(&self, relative: &ScenarioRelativePath, source: E) -> (r: ScenarioLoadError<E>)
        ensures
            r.key_view() == self.key_view(),
            r.path_view() == relative.view(),
            r.cause() == source,
    {
        ScenarioLoadError {
            package_key: self.package_key.clone(),
            scenario_relative_path: relative.as_str().to_owned(),
            source,
        }
    }
}

impl Default for ScenarioRoot {
    /// The root of the rusted_kingdoms package, the default scenario.
    fn default() -> (r: Self)
        ensures
            r.key_view() == DEFAULT_SCENARIO_PACKAGE_KEY@,
    {
        proof {
            reveal_strlit("rusted_kingdoms");
            assert(package_key_error(DEFAULT_SCENARIO_PACKAGE_KEY@) is None);
        }
        let key = DEFAULT_SCENARIO_PACKAGE_KEY;
        ScenarioRoot { package_key: key.to_owned(), logical_root: concat2("scenarios/", key) }
    }
}

/// The manifest's scenario-relative path.
fn manifest_relative_path() -> (r: ScenarioRelativePath)
    ensures
        r.view() == SCENARIO_MANIFEST_PATH@,
{
    proof {
        reveal_strlit("manifest.yaml");
        assert(path_error(SCENARIO_MANIFEST_PATH@) is None);
    }
    let r = ScenarioRelativePath::try_from(SCENARIO_MANIFEST_PATH);
    r.unwrap()
}

} // verus!
