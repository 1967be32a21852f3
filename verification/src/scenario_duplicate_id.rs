//! Catalog-local duplicate logical-id validation.
//!
//! Catalogs keep authored order, duplicates included. This module rejects duplicate *logical*
//! identifiers without conflating the scenario's deliberately separate namespaces. A location
//! is stable scenario-relative data such as `data/file.yaml#entries[2].id`.

use vstd::prelude::*;

use crate::scenario_path::{path_error, ScenarioRelativePath, ScenarioRelativePathError};
use crate::text::concat3;

verus! {

/// A catalog namespace with one identity policy.
///
/// `Npcs` and `ItemBoxes` are scoped by containing map; BGM uses qualified `category.event`
/// keys and SFX unqualified event keys.
#[derive(Clone, Copy, Debug, PartialEq, Eq, Structural, PartialOrd, Ord)]
pub enum CatalogNamespace {
    Party,
    Classes,
    Abilities,
    Items,
    FieldUseItems,
    Maps,
    Npcs,
    ItemBoxes,
    Dialogue,
    Enemies,
    BossMoveSets,
    Encounters,
    BattleBackgrounds,
    Recipes,
    Quests,
    Bgm,
    Sfx,
}

/// The namespace's name in diagnostics.
pub open spec fn namespace_name(n: CatalogNamespace) -> Seq<char> {
    match n {
        CatalogNamespace::Party => "party"@,
        CatalogNamespace::Classes => "classes"@,
        CatalogNamespace::Abilities => "abilities"@,
        CatalogNamespace::Items => "items"@,
        CatalogNamespace::FieldUseItems => "field_use_items"@,
        CatalogNamespace::Maps => "maps"@,
        CatalogNamespace::Npcs => "npcs"@,
        CatalogNamespace::ItemBoxes => "item_boxes"@,
        CatalogNamespace::Dialogue => "dialogue"@,
        CatalogNamespace::Enemies => "enemies"@,
        CatalogNamespace::BossMoveSets => "boss_move_sets"@,
        CatalogNamespace::Encounters => "encounters"@,
        CatalogNamespace::BattleBackgrounds => "battle_backgrounds"@,
        CatalogNamespace::Recipes => "recipes"@,
        CatalogNamespace::Quests => "quests"@,
        CatalogNamespace::Bgm => "bgm"@,
        CatalogNamespace::Sfx => "sfx"@,
    }
}

impl CatalogNamespace {
    /// The namespace's name in diagnostics.
    pub fn as_str(self) -> (r: &'static str)
        ensures
            r@ == namespace_name(self),
    {
        match self {
            CatalogNamespace::Party => "party",
            CatalogNamespace::Classes => "classes",
            CatalogNamespace::Abilities => "abilities",
            CatalogNamespace::Items => "items",
            CatalogNamespace::FieldUseItems => "field_use_items",
            CatalogNamespace::Maps => "maps",
            CatalogNamespace::Npcs => "npcs",
            CatalogNamespace::ItemBoxes => "item_boxes",
            CatalogNamespace::Dialogue => "dialogue",
            CatalogNamespace::Enemies => "enemies",
            CatalogNamespace::BossMoveSets => "boss_move_sets",
            CatalogNamespace::Encounters => "encounters",
            CatalogNamespace::BattleBackgrounds => "battle_backgrounds",
            CatalogNamespace::Recipes => "recipes",
            CatalogNamespace::Quests => "quests",
            CatalogNamespace::Bgm => "bgm",
            CatalogNamespace::Sfx => "sfx",
        }
    }
}

/// Why a diagnostic location cannot be constructed.
#[derive(Clone, Copy, Debug, PartialEq, Eq, Structural)]
pub enum CatalogIdLocationError {
    InvalidPath(ScenarioRelativePathError),
    EmptyFieldPath,
}

impl CatalogIdLocationError {
    /// The human-readable explanation.
    pub fn to_string(&self) -> (r: String)
        ensures
            r@ == match self {
                CatalogIdLocationError::InvalidPath(e) => "invalid scenario-relative location path: "@
                    + e.spec_message(),
                CatalogIdLocationError::EmptyFieldPath => "catalog diagnostic field path must not be empty"@,
            },
    {
        match self {
            CatalogIdLocationError::InvalidPath(e) => {
                let mut s = "invalid scenario-relative location path: ".to_owned();
                let detail = e.to_string();
                s.append(detail.as_str());
                s
            },
            CatalogIdLocationError::EmptyFieldPath => "catalog diagnostic field path must not be empty".to_owned(),
        }
    }
}

/// Stable authored location of one identifier: a scenario-relative file and the non-empty
/// document/list/category position where the id was read.
#[derive(Debug, PartialEq, Eq)]
pub struct CatalogIdLocation {
    path: ScenarioRelativePath,
    field_path: String,
}

impl CatalogIdLocation {
    #[verifier::type_invariant]
    spec fn field_present(self) -> bool {
        self.field_path@.len() > 0
    }

    /// The file's scenario-relative path.
    pub closed spec fn path_view(&self) -> Seq<char> {
        self.path.view()
    }

    /// The position within the file.
    pub closed spec fn field_view(&self) -> Seq<char> {
        self.field_path@
    }

    /// The rendered location: `path#field`.
    pub open spec fn spec_text(&self) -> Seq<char> {
        self.path_view() + "#"@ + self.field_view()
    }

    /// Creates a location. An empty field path is refused first; then a path that is not
    /// scenario-relative, with the rule it breaks.
    pub fn new(path: &str, field_path: &str) -> (r: Result<Self, CatalogIdLocationError>)
        ensures
            field_path@.len() == 0 ==> r == Err::<Self, CatalogIdLocationError>(
                CatalogIdLocationError::EmptyFieldPath,
            ),
            field_path@.len() > 0 ==> match path_error(path@) {
                Some(e) => r == Err::<Self, CatalogIdLocationError>(
                    CatalogIdLocationError::InvalidPath(e),
                ),
                None => r matches Ok(l) && l.path_view() == path@ && l.field_view() == field_path@,
            },
    {
        if field_path.unicode_len() == 0 {
            return Err(CatalogIdLocationError::EmptyFieldPath);
        }
        match ScenarioRelativePath::try_from(path) {
            Ok(p) => Ok(CatalogIdLocation { path: p, field_path: field_path.to_owned() }),
            Err(e) => Err(CatalogIdLocationError::InvalidPath(e)),
        }
    }

    /// The file's scenario-relative path.
    pub fn path(&self) -> (r: &ScenarioRelativePath)
        ensures
            r.view() == self.path_view(),
    {
        &self.path
    }

    /// The position within the file.
    pub fn field_path(&self) -> (r: &str)
        ensures
            r@ == self.field_view(),
            r@.len() > 0,
    {
        proof {
            use_type_invariant(self);
        }
        self.field_path.as_str()
    }

    /// The rendered location: `path#field`.
    pub fn to_string(&self) -> (r: String)
        ensures
            r@ == self.spec_text(),
    {
        concat3(self.path.as_str(), "#", self.field_path.as_str())
    }

    /// An equal location.
    pub fn copy(&self) -> (r: Self)
        ensures
            r.path_view() == self.path_view(),
            r.field_view() == self.field_view(),
    {
        proof {
            use_type_invariant(self);
        }
        CatalogIdLocation { path: self.path.copy(), field_path: self.field_path.clone() }
    }
}

/// One logical id supplied by a catalog adapter.
#[derive(Debug, PartialEq, Eq)]
pub struct CatalogId {
    pub namespace: CatalogNamespace,
    /// Scope within the namespace, such as a map id for item boxes; empty means the namespace
    /// is scenario-wide.
    pub scope: String,
    pub id: String,
    pub location: CatalogIdLocation,
}

impl CatalogId {
    /// An id of a scenario-wide namespace.
    pub fn scenario_wide(namespace: CatalogNamespace, id: &str, location: CatalogIdLocation) -> (r:
        Self)
        ensures
            r.namespace == namespace,
            r.scope@ == Seq::<char>::empty(),
            r.id@ == id@,
            r.location == location,
    {
        CatalogId { namespace, scope: String::new(), id: id.to_owned(), location }
    }

    /// An id within `scope` of a scoped namespace.
    pub fn scoped(namespace: CatalogNamespace, scope: &str, id: &str, location: CatalogIdLocation) -> (r:
        Self)
        ensures
            r.namespace == namespace,
            r.scope@ == scope@,
            r.id@ == id@,
            r.location == location,
    {
        CatalogId { namespace, scope: scope.to_owned(), id: id.to_owned(), location }
    }
}

/// A duplicate logical id with its first authored location and the repeated one.
#[derive(Debug, PartialEq, Eq)]
pub struct DuplicateCatalogId {
    pub namespace: CatalogNamespace,
    pub scope: String,
    pub id: String,
    pub first: CatalogIdLocation,
    pub duplicate: CatalogIdLocation,
}

impl DuplicateCatalogId {
    /// The rendered report.
    pub open spec fn spec_text(&self) -> Seq<char> {
        "duplicate "@ + namespace_name(self.namespace) + " id `"@ + self.id@ + "`"@ + (if self.scope@.len()
            == 0 {
            ""@
        } else {
            " in scope `"@ + self.scope@ + "`"@
        }) + ": first at "@ + self.first.spec_text() + "; duplicated at "@
            + self.duplicate.spec_text()
    }

    /// The rendered report.
    pub fn to_string(&self) -> (r: String)
        ensures
            r@ == self.spec_text(),
    {
        proof {
            reveal_strlit("");
        }
        let mut s = "duplicate ".to_owned();
        s.append(self.namespace.as_str());
        s.append(" id `");
        s.append(self.id.as_str());
        s.append("`");
        if self.scope.as_str().unicode_len() > 0 {
            s.append(" in scope `");
            s.append(self.scope.as_str());
            s.append("`");
        } else {
            s.append("");
        }
        s.append(": first at ");
        let first = self.first.to_string();
        s.append(first.as_str());
        s.append("; duplicated at ");
        let duplicate = self.duplicate.to_string();
        s.append(duplicate.as_str());
        s
    }
}

/// Whether two ids name the same logical identity: namespace, scope and id all equal.
pub open spec fn same_key(a: CatalogId, b: CatalogId) -> bool {
    a.namespace == b.namespace && a.scope@ == b.scope@ && a.id@ == b.id@
}

/// The first index from `j` below `i` whose id has the same identity as `ids[i]`, else `i`.
pub open spec fn first_same_from(ids: Seq<CatalogId>, i: int, j: int) -> int
    decreases i - j,
{
    if j >= i {
        i
    } else if same_key(ids[j], ids[i]) {
        j
    } else {
        first_same_from(ids, i, j + 1)
    }
}

/// The first authored occurrence of `ids[i]`'s identity (`i` itself when it is the first).
pub open spec fn first_same(ids: Seq<CatalogId>, i: int) -> int {
    first_same_from(ids, i, 0)
}

/// The indices below `n` of the ids that repeat an earlier identity, in order.
pub open spec fn duplicate_indices(ids: Seq<CatalogId>, n: int) -> Seq<int>
    decreases n,
{
    if n <= 0 {
        seq![]
    } else if first_same(ids, n - 1) < n - 1 {
        duplicate_indices(ids, n - 1).push(n - 1)
    } else {
        duplicate_indices(ids, n - 1)
    }
}

/// Whether `r` reports `ids[i]` as a repeat of its first occurrence.
pub open spec fn reports(r: DuplicateCatalogId, ids: Seq<CatalogId>, i: int) -> bool {
    let first = ids[first_same(ids, i)].location;
    &&& r.namespace == ids[i].namespace
    &&& r.scope@ == ids[i].scope@
    &&& r.id@ == ids[i].id@
    &&& r.first.path_view() == first.path_view()
    &&& r.first.field_view() == first.field_view()
    &&& r.duplicate.path_view() == ids[i].location.path_view()
    &&& r.duplicate.field_view() == ids[i].location.field_view()
}

/// Whether `r` is the duplicate report of `ids`: one entry per repeated id, in order.
pub open spec fn is_duplicate_report(r: Seq<DuplicateCatalogId>, ids: Seq<CatalogId>) -> bool {
    let d = duplicate_indices(ids, ids.len() as int);
    r.len() == d.len() && forall|k: int| 0 <= k < r.len() ==> reports(r[k], ids, d[k])
}

/// Whether no two ids share an identity.
pub open spec fn all_unique(ids: Seq<CatalogId>) -> bool {
    forall|a: int, b: int| 0 <= a < b < ids.len() ==> !#[trigger] same_key(ids[a], ids[b])
}

proof fn lemma_first_same_from_skip(ids: Seq<CatalogId>, i: int, q: int, j: int)
    requires
        0 <= q <= j <= i,
        forall|k: int| q <= k < j ==> !same_key(ids[k], ids[i]),
    ensures
        first_same_from(ids, i, q) == first_same_from(ids, i, j),
    decreases j - q,
{
    if q < j {
        lemma_first_same_from_skip(ids, i, q + 1, j);
    }
}

proof fn lemma_first_same_from_bounds(ids: Seq<CatalogId>, i: int, j: int)
    requires
        0 <= j <= i,
    ensures
        j <= first_same_from(ids, i, j) <= i,
        first_same_from(ids, i, j) < i ==> same_key(ids[first_same_from(ids, i, j)], ids[i]),
        forall|a: int| j <= a < i && same_key(ids[a], ids[i]) ==> first_same_from(ids, i, j) <= a,
    decreases i - j,
{
    if j < i && !same_key(ids[j], ids[i]) {
        lemma_first_same_from_bounds(ids, i, j + 1);
    }
}

/// There are no repeats exactly when every identity is unique.
pub proof fn lemma_no_duplicates_iff_unique(ids: Seq<CatalogId>, n: int)
    requires
        0 <= n <= ids.len(),
    ensures
        duplicate_indices(ids, n).len() == 0 <==> all_unique(ids.take(n)),
    decreases n,
{
    if n > 0 {
        lemma_no_duplicates_iff_unique(ids, n - 1);
        lemma_first_same_from_bounds(ids, n - 1, 0);
        if duplicate_indices(ids, n).len() == 0 {
            assert(duplicate_indices(ids, n - 1).len() == 0);
            assert forall|a: int, b: int| 0 <= a < b < n implies !same_key(
                ids.take(n)[a],
                ids.take(n)[b],
            ) by {
                if b < n - 1 {
                    assert(ids.take(n - 1)[a] == ids[a] && ids.take(n - 1)[b] == ids[b]);
                } else if same_key(ids[a], ids[b]) {
                    assert(first_same(ids, n - 1) <= a);
                }
            }
        } else {
            if duplicate_indices(ids, n - 1).len() == 0 {
                let f = first_same(ids, n - 1);
                assert(f < n - 1);
                assert(ids.take(n)[f] == ids[f] && ids.take(n)[n - 1] == ids[n - 1]);
            } else {
                assert(!all_unique(ids.take(n - 1)));
                let (a, b) = choose|a: int, b: int|
                    0 <= a < b < n - 1 && #[trigger] same_key(ids.take(n - 1)[a], ids.take(n - 1)[b]);
                assert(ids.take(n)[a] == ids[a] && ids.take(n)[b] == ids[b]);
            }
        }
    } else {
        assert(ids.take(0).len() == 0);
    }
}

/// How many of the first `n` ids are the first occurrence of their identity: the number of
/// distinct identities among them.
pub open spec fn first_occurrences(ids: Seq<CatalogId>, n: int) -> nat
    decreases n,
{
    if n <= 0 {
        0
    } else if first_same(ids, n - 1) == n - 1 {
        first_occurrences(ids, n - 1) + 1
    } else {
        first_occurrences(ids, n - 1)
    }
}

/// Every id is either the first occurrence of its identity or reported as a repeat of it: the
/// number of reports is the number of ids less the number of distinct identities.
pub proof fn lemma_duplicate_count(ids: Seq<CatalogId>, n: int)
    requires
        0 <= n <= ids.len(),
    ensures
        duplicate_indices(ids, n).len() + first_occurrences(ids, n) == n,
    decreases n,
{
    if n > 0 {
        lemma_duplicate_count(ids, n - 1);
        lemma_first_same_from_bounds(ids, n - 1, 0);
    }
}

/// The identity an id claims: its namespace, scope and id.
pub open spec fn identity(c: CatalogId) -> (CatalogNamespace, Seq<char>, Seq<char>) {
    (c.namespace, c.scope@, c.id@)
}

/// The distinct identities among the first `n` ids.
pub open spec fn identities(ids: Seq<CatalogId>, n: int) -> Set<(CatalogNamespace, Seq<char>, Seq<char>)>
    decreases n,
{
    if n <= 0 {
        Set::empty()
    } else {
        identities(ids, n - 1).insert(identity(ids[n - 1]))
    }
}

proof fn lemma_identities_count(ids: Seq<CatalogId>, n: int)
    requires
        0 <= n <= ids.len(),
    ensures
        identities(ids, n).finite(),
        identities(ids, n).len() == first_occurrences(ids, n),
        forall|x: (CatalogNamespace, Seq<char>, Seq<char>)|
            #[trigger] identities(ids, n).contains(x) <==> exists|k: int| 0 <= k < n && identity(ids[k]) == x,
    decreases n,
{
    broadcast use vstd::set::group_set_axioms;

    if n > 0 {
        lemma_identities_count(ids, n - 1);
        lemma_first_same_from_bounds(ids, n - 1, 0);
        let x = identity(ids[n - 1]);
        let before = identities(ids, n - 1);
        assert forall|y: (CatalogNamespace, Seq<char>, Seq<char>)|
            #[trigger] identities(ids, n).contains(y) <==> exists|k: int| 0 <= k < n && identity(ids[k]) == y by {
            if before.contains(y) {
                let k = choose|k: int| 0 <= k < n - 1 && identity(ids[k]) == y;
                assert(0 <= k < n && identity(ids[k]) == y);
            }
            if exists|k: int| 0 <= k < n && identity(ids[k]) == y {
                let k = choose|k: int| 0 <= k < n && identity(ids[k]) == y;
                if k < n - 1 {
                    assert(before.contains(y));
                }
            }
        }
        if first_same(ids, n - 1) < n - 1 {
            let f = first_same(ids, n - 1);
            assert(identity(ids[f]) == x);
            assert(before.contains(x));
        } else {
            if before.contains(x) {
                let k = choose|k: int| 0 <= k < n - 1 && identity(ids[k]) == x;
                assert(same_key(ids[k], ids[n - 1]));
                assert(first_same(ids, n - 1) <= k);
            }
        }
    } else {
        assert(identities(ids, n) == Set::<(CatalogNamespace, Seq<char>, Seq<char>)>::empty());
    }
}

/// The duplicate report has one entry per id beyond the first of each identity: as many as
/// the ids less the number of distinct identities.
pub proof fn lemma_duplicate_report_size(ids: Seq<CatalogId>, r: Seq<DuplicateCatalogId>)
    requires
        is_duplicate_report(r, ids),
    ensures
        r.len() == ids.len() - identities(ids, ids.len() as int).len(),
{
    lemma_duplicate_count(ids, ids.len() as int);
    lemma_identities_count(ids, ids.len() as int);
}

/// Distinct namespaces have distinct names.
pub proof fn lemma_namespace_names_distinct(n: CatalogNamespace, m: CatalogNamespace)
    requires
        n != m,
    ensures
        namespace_name(n) != namespace_name(m),
{
    reveal_strlit("party");
    reveal_strlit("classes");
    reveal_strlit("abilities");
    reveal_strlit("items");
    reveal_strlit("field_use_items");
    reveal_strlit("maps");
    reveal_strlit("npcs");
    reveal_strlit("item_boxes");
    reveal_strlit("dialogue");
    reveal_strlit("enemies");
    reveal_strlit("boss_move_sets");
    reveal_strlit("encounters");
    reveal_strlit("battle_backgrounds");
    reveal_strlit("recipes");
    reveal_strlit("quests");
    reveal_strlit("bgm");
    reveal_strlit("sfx");
    assert(namespace_name(n).len() != namespace_name(m).len() || namespace_name(n)[0]
        != namespace_name(m)[0]);
}

/// Finds every later occurrence of an id. The first authored occurrence stays the anchor, so
/// three equal ids give two reports.
pub fn find_duplicate_ids(ids: Vec<CatalogId>) -> (r: Vec<DuplicateCatalogId>)
    ensures
        is_duplicate_report(r@, ids@),
{
    let n = ids.len();
    let mut out: Vec<DuplicateCatalogId> = Vec::new();
    let mut i: usize = 0;
    while i < n
        invariant
            n == ids@.len(),
            i <= n,
            out@.len() == duplicate_indices(ids@, i as int).len(),
            forall|k: int|
                0 <= k < out@.len() ==> reports(out@[k], ids@, duplicate_indices(ids@, i as int)[k]),
        decreases n - i,
    {
        let entry = &ids[i];
        let mut j: usize = 0;
        while j < i && !(ids[j].namespace == entry.namespace && ids[j].scope == entry.scope
            && ids[j].id == entry.id)
            invariant
                n == ids@.len(),
                j <= i < n,
                *entry == ids@[i as int],
                forall|k: int| 0 <= k < j ==> !same_key(ids@[k], ids@[i as int]),
            decreases i - j,
        {
            j = j + 1;
        }
        proof {
            lemma_first_same_from_skip(ids@, i as int, 0, j as int);
        }
        if j < i {
            assert(first_same(ids@, i as int) == j);
            let report = DuplicateCatalogId {
                namespace: entry.namespace,
                scope: entry.scope.clone(),
                id: entry.id.clone(),
                first: ids[j].location.copy(),
                duplicate: entry.location.copy(),
            };
            out.push(report);
        } else {
            assert(first_same(ids@, i as int) == i);
        }
        i = i + 1;
    }
    out
}

/// Converts the duplicate report into one validation result: `Ok` exactly when every identity
/// is unique, otherwise the report.
pub fn validate_unique_ids(ids: Vec<CatalogId>) -> (r: Result<(), Vec<DuplicateCatalogId>>)
    ensures
        r is Ok <==> all_unique(ids@),
        r is Ok <==> duplicate_indices(ids@, ids@.len() as int).len() == 0,
        r matches Err(d) ==> is_duplicate_report(d@, ids@),
{
    let ghost view = ids@;
    let duplicates = find_duplicate_ids(ids);
    proof {
        lemma_no_duplicates_iff_unique(view, view.len() as int);
        assert(view.take(view.len() as int) =~= view);
    }
    if duplicates.len() == 0 {
        Ok(())
    } else {
        Err(duplicates)
    }
}

} // verus!
