//! The species catalog: an immutable, id-contiguous sequence of entries.
use vstd::prelude::*;
use rand::Rng;

verus! {

/// One species: its name, its category label and its descriptive texts.
pub struct CatalogEntry {
    pub id: u32,
    pub name: String,
    pub category: String,
    pub variants: Vec<String>,
}

/// What can go wrong when building or reading the catalog.
#[derive(Clone, Copy, Debug, PartialEq, Eq, Structural)]
pub enum CatalogError {
    /// No species was loaded.
    Empty,
    /// The species ids are not 1, 2, 3, ... in order: at the given position
    /// the id `expected` was due and `found` came.
    IdGap { expected: usize, found: u32 },
    /// A text names a species id that the catalog does not hold.
    UnknownSpecies { id: u32 },
    /// The species with this id has no descriptive text.
    NoVariants { id: u32 },
    /// No entry has this id.
    NotFound { id: u32 },
}

/// The character contents of a sequence of strings.
pub open spec fn texts(v: Seq<String>) -> Seq<Seq<char>> {
    v.map_values(|s: String| s@)
}

impl CatalogEntry {
    /// The entry has at least one text, and no text twice.
    pub open spec fn has_variants(&self) -> bool {
        &&& self.variants@.len() > 0
        &&& texts(self.variants@).no_duplicates()
    }

    /// The text at `index`.
    pub fn variant(&self, index: usize) -> (r: &String)
        requires
            index < self.variants@.len(),
        ensures
            *r == self.variants@[index as int],
    {
        &self.variants[index]
    }
}

/// The catalog: entry `k` (from 0) has id `k + 1`.
pub struct Catalog {
    entries: Vec<CatalogEntry>,
}

impl View for Catalog {
    type V = Seq<CatalogEntry>;

    closed spec fn view(&self) -> Seq<CatalogEntry> {
        self.entries@
    }
}

impl Catalog {
    /// Non-empty, ids 1..N with no gaps, and every entry has texts.
    pub open spec fn wf(&self) -> bool {
        &&& 0 < self@.len() <= u32::MAX
        &&& forall|k: int|
            0 <= k < self@.len() ==> (#[trigger] self@[k]).id == k + 1 && self@[k].has_variants()
    }

    /// Builds a catalog from entries already in order.
    pub(crate) fn from_entries(entries: Vec<CatalogEntry>) -> (r: Catalog)
        ensures
            r@ == entries@,
    {
        Catalog { entries }
    }

    /// Number of entries.
    pub fn len(&self) -> (r: usize)
        ensures
            r == self@.len(),
    {
        self.entries.len()
    }

    /// The entry at position `index` (its id is `index + 1`).
    pub fn entry(&self, index: usize) -> (r: &CatalogEntry)
        requires
            index < self@.len(),
        ensures
            *r == self@[index as int],
    {
        &self.entries[index]
    }

    /// The entry with identifier `id`, or `NotFound` when no entry has it.
    pub fn get(&self, id: u32) -> (r: Result<&CatalogEntry, CatalogError>)
        requires
            self.wf(),
        ensures
            r is Ok <==> 1 <= id <= self@.len(),
            r matches Ok(e) ==> *e == self@[id - 1] && e.id == id,
            r matches Err(e) ==> e == (CatalogError::NotFound { id }),
    {
        if id >= 1 && (id as usize) <= self.entries.len() {
            Ok(&self.entries[(id - 1) as usize])
        } else {
            Err(CatalogError::NotFound { id })
        }
    }

    /// An entry drawn uniformly at random.
    pub fn random(&self) -> (r: &CatalogEntry)
        requires
            self.wf(),
        ensures
            exists|k: int| 0 <= k < self@.len() && *r == #[trigger] self@[k],
    {
        let k = random_index(self.entries.len());
        &self.entries[k]
    }
}

/// One of the entry's texts, drawn uniformly at random.
pub fn pick_variant(entry: &CatalogEntry) -> (r: &String)
    requires
        entry.variants@.len() > 0,
    ensures
        entry.variants@.contains(*r),
{
    let k = random_index(entry.variants.len());
    &entry.variants[k]
}

/// Relies on `rand::thread_rng` and `Rng::gen_range` (rand 0.4): a uniformly
/// drawn integer in `[0, n)`; `gen_range` panics when the range is empty.
#[verifier::external_body]
pub(crate) fn random_index(n: usize) -> (r: usize)
    requires
        n > 0,
    ensures
        r < n,
{
    rand::thread_rng().gen_range(0, n)
}

} // verus!
