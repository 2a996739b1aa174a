//! Building the catalog from the two tables of species names and species
//! texts, as rows already read from their files.
use vstd::prelude::*;
use crate::catalog::{Catalog, CatalogEntry, CatalogError, texts};

verus! {

/// Language id of the English rows; all other rows are skipped.
pub const ENGLISH: u32 = 9;

/// One row of the species-name table.
pub struct SpeciesRecord {
    pub species_id: u32,
    pub language_id: u32,
    pub name: String,
    /// Some species have no category label.
    pub genus: Option<String>,
}

/// One row of the species-text table.
pub struct FlavorRecord {
    pub species_id: u32,
    pub version_id: u32,
    pub language_id: u32,
    pub flavor_text: String,
}

/// Number of English rows among the first `k` species rows.
pub open spec fn english_count(s: Seq<SpeciesRecord>, k: int) -> nat
    decreases k,
{
    if k <= 0 {
        0
    } else {
        english_count(s, k - 1) + if s[k - 1].language_id == ENGLISH {
            1nat
        } else {
            0nat
        }
    }
}

/// The count of English rows never drops as more rows are looked at, and an
/// English row at `a` is counted before `b` when `a < b`.
proof fn lemma_english_count_grows(s: Seq<SpeciesRecord>, a: int, b: int)
    requires
        0 <= a <= b <= s.len(),
    ensures
        english_count(s, a) <= english_count(s, b),
        a < b && s[a].language_id == ENGLISH ==> english_count(s, a) < english_count(s, b),
    decreases b - a,
{
    if a < b {
        lemma_english_count_grows(s, a, b - 1);
        if a < b - 1 {
            lemma_english_count_grows(s, a + 1, b);
        }
    }
}

/// Number of species in the catalog built from `s`.
pub open spec fn species_count(s: Seq<SpeciesRecord>) -> nat {
    english_count(s, s.len() as int)
}

/// The English species rows carry ids 1, 2, 3, ... in order.
pub open spec fn ids_contiguous(s: Seq<SpeciesRecord>) -> bool {
    forall|i: int|
        0 <= i < s.len() && (#[trigger] s[i]).language_id == ENGLISH ==> s[i].species_id
            == english_count(s, i) + 1
}

/// Every English text row names one of the `n` species.
pub open spec fn flavors_known(f: Seq<FlavorRecord>, n: nat) -> bool {
    forall|j: int|
        0 <= j < f.len() && (#[trigger] f[j]).language_id == ENGLISH ==> 1 <= f[j].species_id <= n
}

/// A text row that describes species `id` in English.
pub open spec fn describes(f: FlavorRecord, id: int) -> bool {
    f.language_id == ENGLISH && f.species_id == id
}

/// Some text row describes species `id` in English.
pub open spec fn has_text(f: Seq<FlavorRecord>, id: int) -> bool {
    exists|j: int| 0 <= j < f.len() && #[trigger] describes(f[j], id)
}

/// Every one of the `n` species has an English text.
pub open spec fn all_described(f: Seq<FlavorRecord>, n: nat) -> bool {
    forall|id: int| 1 <= id <= n ==> #[trigger] has_text(f, id)
}

/// A text with each line break (`\n` or `\r`) turned into a space.
pub open spec fn normalized(t: Seq<char>) -> Seq<char> {
    t.map_values(|c: char| if c == '\n' || c == '\r' { ' ' } else { c })
}

/// `t` with each `from` turned into a space.
pub open spec fn blanked(t: Seq<char>, from: char) -> Seq<char> {
    t.map_values(|c: char| if c == from { ' ' } else { c })
}

/// The texts of species `id` among the first `upto` text rows.
pub open spec fn variant_texts(f: Seq<FlavorRecord>, upto: int, id: int) -> Set<Seq<char>> {
    Set::new(
        |t: Seq<char>|
            exists|j: int|
                0 <= j < upto && #[trigger] describes(f[j], id) && normalized(f[j].flavor_text@) == t,
    )
}

/// The category label of a species row: empty when it has none.
pub open spec fn genus_text(g: Option<String>) -> Seq<char> {
    match g {
        Some(s) => s@,
        None => Seq::empty(),
    }
}

/// Entry `e` carries the id, name and category of species row `r`.
pub open spec fn entry_of(e: CatalogEntry, r: SpeciesRecord) -> bool {
    &&& e.id == r.species_id
    &&& e.name@ == r.name@
    &&& e.category@ == genus_text(r.genus)
}

/// What a successful build returns for rows `s` and `f`.
pub open spec fn built_from(c: Seq<CatalogEntry>, s: Seq<SpeciesRecord>, f: Seq<FlavorRecord>) -> bool {
    &&& c.len() == species_count(s)
    &&& forall|i: int|
        0 <= i < s.len() && (#[trigger] s[i]).language_id == ENGLISH ==> entry_of(
            c[english_count(s, i) as int],
            s[i],
        )
    &&& forall|k: int|
        0 <= k < c.len() ==> texts((#[trigger] c[k]).variants@).to_set() == variant_texts(
            f,
            f.len() as int,
            k + 1,
        )
}

/// Relies on `str::replace`: every occurrence of the one-character pattern
/// `from` is replaced by a space, all other characters are kept in order.
#[verifier::external_body]
fn blank_out(t: &str, from: char) -> (r: String)
    ensures
        r@ == blanked(t@, from),
{
    t.replace(from, " ")
}

/// The text with its line breaks turned into spaces.
pub fn normalize_text(t: &String) -> (r: String)
    ensures
        r@ == normalized(t@),
{
    let a = blank_out(t.as_str(), '\n');
    let b = blank_out(a.as_str(), '\r');
    assert(b@ =~= normalized(t@));
    b
}

/// Adds text `t` to `variants` unless a text with the same characters is
/// already there.
pub fn add_variant(variants: &mut Vec<String>, t: String)
    requires
        texts(old(variants)@).no_duplicates(),
    ensures
        texts(final(variants)@).no_duplicates(),
        texts(final(variants)@).to_set() == texts(old(variants)@).to_set().insert(t@),
        final(variants)@.len() > 0,
{
    let ghost before = variants@;
    let mut i: usize = 0;
    while i < variants.len()
        invariant
            variants@ == before,
            texts(before).no_duplicates(),
            i <= variants@.len(),
            forall|k: int| 0 <= k < i ==> (#[trigger] variants@[k])@ != t@,
        decreases variants@.len() - i,
    {
        if variants[i] == t {
            proof {
                assert(texts(before)[i as int] == t@);
                assert(texts(before).to_set().contains(t@));
                assert(texts(before).to_set().insert(t@) =~= texts(before).to_set());
            }
            return;
        }
        i = i + 1;
    }
    variants.push(t);
    proof {
        assert(texts(variants@) =~= texts(before).push(t@));
        texts(before).lemma_push_to_set_commute(t@);
        assert(!texts(before).contains(t@));
    }
}

/// The entries for the English species rows, in order and still without
/// texts; `IdGap` at the first English row whose id breaks the run 1, 2, 3, ...
fn collect_species(species: &Vec<SpeciesRecord>) -> (r: Result<Vec<CatalogEntry>, CatalogError>)
    ensures
        r is Ok <==> ids_contiguous(species@),
        r matches Err(e) ==> e is IdGap,
        r matches Ok(v) ==> {
            &&& v@.len() == species_count(species@)
            &&& forall|i: int|
                0 <= i < species@.len() && (#[trigger] species@[i]).language_id == ENGLISH
                    ==> english_count(species@, i) < v@.len() && entry_of(
                    v@[english_count(species@, i) as int],
                    species@[i],
                )
            &&& forall|k: int|
                0 <= k < v@.len() ==> (#[trigger] v@[k]).id == k + 1 && v@[k].variants@.len()
                    == 0
        },
{
    let mut entries: Vec<CatalogEntry> = Vec::new();
    let mut i: usize = 0;
    while i < species.len()
        invariant
            i <= species@.len(),
            entries@.len() == english_count(species@, i as int),
            english_count(species@, i as int) <= i,
            forall|j: int|
                0 <= j < i && (#[trigger] species@[j]).language_id == ENGLISH
                    ==> species@[j].species_id == english_count(species@, j) + 1 && entry_of(
                    entries@[english_count(species@, j) as int],
                    species@[j],
                ),
            forall|k: int|
                0 <= k < entries@.len() ==> (#[trigger] entries@[k]).id == k + 1
                    && entries@[k].variants@.len() == 0,
        decreases species@.len() - i,
    {
        let rec = &species[i];
        proof {
            assert forall|j: int| 0 <= j < i && (#[trigger] species@[j]).language_id == ENGLISH implies
                english_count(species@, j) < english_count(species@, i as int) by {
                lemma_english_count_grows(species@, j, i as int);
            }
            assert(english_count(species@, i + 1) == english_count(species@, i as int) + if rec.language_id
                == ENGLISH {
                1nat
            } else {
                0nat
            });
        }
        if rec.language_id == ENGLISH {
            if rec.species_id as usize != entries.len() + 1 {
                return Err(CatalogError::IdGap { expected: entries.len() + 1, found: rec.species_id });
            }
            let genus = match &rec.genus {
                Some(g) => g.clone(),
                None => String::new(),
            };
            entries.push(
                CatalogEntry {
                    id: rec.species_id,
                    name: rec.name.clone(),
                    category: genus,
                    variants: Vec::new(),
                },
            );
        }
        i = i + 1;
    }
    proof {
        assert forall|j: int| 0 <= j < species@.len() && (#[trigger] species@[j]).language_id == ENGLISH implies
            english_count(species@, j) < species_count(species@) by {
            lemma_english_count_grows(species@, j, species@.len() as int);
        }
    }
    Ok(entries)
}

/// Taking in one more text row adds its text to the set of the species it
/// describes, and to no other.
proof fn lemma_variant_texts_step(f: Seq<FlavorRecord>, j: int, id: int)
    requires
        0 <= j < f.len(),
    ensures
        variant_texts(f, j + 1, id) == if describes(f[j], id) {
            variant_texts(f, j, id).insert(normalized(f[j].flavor_text@))
        } else {
            variant_texts(f, j, id)
        },
{
    let next = variant_texts(f, j + 1, id);
    let prev = variant_texts(f, j, id);
    if describes(f[j], id) {
        let t0 = normalized(f[j].flavor_text@);
        assert forall|t: Seq<char>| next.contains(t) <==> prev.insert(t0).contains(t) by {
            if next.contains(t) {
                let jj = choose|jj: int|
                    0 <= jj < j + 1 && #[trigger] describes(f[jj], id) && normalized(
                        f[jj].flavor_text@,
                    ) == t;
                if jj < j {
                    assert(prev.contains(t));
                }
            }
            if prev.contains(t) {
                let jj = choose|jj: int|
                    0 <= jj < j && #[trigger] describes(f[jj], id) && normalized(f[jj].flavor_text@)
                        == t;
                assert(next.contains(t));
            }
            if t == t0 {
                assert(describes(f[j], id));
                assert(next.contains(t));
            }
        }
        assert(next =~= prev.insert(t0));
    } else {
        assert forall|t: Seq<char>| next.contains(t) <==> prev.contains(t) by {
            if next.contains(t) {
                let jj = choose|jj: int|
                    0 <= jj < j + 1 && #[trigger] describes(f[jj], id) && normalized(
                        f[jj].flavor_text@,
                    ) == t;
                assert(jj != j);
                assert(prev.contains(t));
            }
            if prev.contains(t) {
                let jj = choose|jj: int|
                    0 <= jj < j && #[trigger] describes(f[jj], id) && normalized(f[jj].flavor_text@)
                        == t;
                assert(next.contains(t));
            }
        }
        assert(next =~= prev);
    }
}

/// Files each English text row under the species it names, without
/// duplicates; `UnknownSpecies` at the first English row that names no entry.
fn attach_texts(entries: &mut Vec<CatalogEntry>, flavors: &Vec<FlavorRecord>) -> (r: Result<
    (),
    CatalogError,
>)
    requires
        forall|k: int| 0 <= k < old(entries)@.len() ==> (#[trigger] old(entries)@[k]).variants@.len() == 0,
    ensures
        final(entries)@.len() == old(entries)@.len(),
        forall|k: int|
            0 <= k < final(entries)@.len() ==> (#[trigger] final(entries)@[k]).id == old(entries)@[k].id
                && final(entries)@[k].name == old(entries)@[k].name && final(entries)@[k].category
                == old(entries)@[k].category,
        r is Ok <==> flavors_known(flavors@, old(entries)@.len()),
        r matches Err(e) ==> e is UnknownSpecies,
        r is Ok ==> forall|k: int|
            0 <= k < final(entries)@.len() ==> texts((#[trigger] final(entries)@[k]).variants@).no_duplicates()
                && texts(final(entries)@[k].variants@).to_set() == variant_texts(
                flavors@,
                flavors@.len() as int,
                k + 1,
            ),
{
    let ghost base = entries@;
    let n = entries.len();
    proof {
        assert forall|k: int| 0 <= k < n implies texts((#[trigger] entries@[k]).variants@).to_set()
            == variant_texts(flavors@, 0, k + 1) by {
            assert(texts(entries@[k].variants@).to_set() =~= Set::empty());
            assert(variant_texts(flavors@, 0, k + 1) =~= Set::empty());
        }
        assert forall|k: int| 0 <= k < n implies texts((#[trigger] entries@[k]).variants@).no_duplicates() by {
            assert(texts(entries@[k].variants@).len() == 0);
        }
    }
    let mut j: usize = 0;
    while j < flavors.len()
        invariant
            j <= flavors@.len(),
            n == base.len(),
            base == old(entries)@,
            entries@.len() == n,
            forall|k: int|
                0 <= k < n ==> (#[trigger] entries@[k]).id == base[k].id && entries@[k].name
                    == base[k].name && entries@[k].category == base[k].category,
            forall|k: int|
                0 <= k < n ==> texts((#[trigger] entries@[k]).variants@).no_duplicates() && texts(
                    entries@[k].variants@,
                ).to_set() == variant_texts(flavors@, j as int, k + 1),
            forall|jj: int|
                0 <= jj < j && (#[trigger] flavors@[jj]).language_id == ENGLISH ==> 1
                    <= flavors@[jj].species_id <= n,
        decreases flavors@.len() - j,
    {
        let rec = &flavors[j];
        if rec.language_id == ENGLISH {
            if rec.species_id == 0 || rec.species_id as usize > n {
                return Err(CatalogError::UnknownSpecies { id: rec.species_id });
            }
            let t = normalize_text(&rec.flavor_text);
            let k: usize = (rec.species_id - 1) as usize;
            let ghost prev = entries@;
            add_variant(&mut entries[k].variants, t);
            proof {
                assert forall|kk: int| 0 <= kk < n implies texts((#[trigger] entries@[kk]).variants@).to_set()
                    == variant_texts(flavors@, j + 1, kk + 1) by {
                    lemma_variant_texts_step(flavors@, j as int, kk + 1);
                    if kk != k {
                        assert(entries@[kk] == prev[kk]);
                    }
                }
            }
        } else {
            proof {
                assert forall|kk: int| 0 <= kk < n implies texts((#[trigger] entries@[kk]).variants@).to_set()
                    == variant_texts(flavors@, j + 1, kk + 1) by {
                    lemma_variant_texts_step(flavors@, j as int, kk + 1);
                }
            }
        }
        j = j + 1;
    }
    Ok(())
}

/// Builds the catalog from the species rows and the text rows, keeping the
/// English rows only. Species rows must carry ids 1, 2, 3, ... in order
/// (`IdGap`), text rows must name a loaded species (`UnknownSpecies`), at
/// least one species must be loaded (`Empty`) and each must have a text
/// (`NoVariants`); the checks come in that order.
pub fn construct_catalog(species: &Vec<SpeciesRecord>, flavors: &Vec<FlavorRecord>) -> (r: Result<
    Catalog,
    CatalogError,
>)
    ensures
        r is Ok <==> ids_contiguous(species@) && flavors_known(flavors@, species_count(species@))
            && species_count(species@) > 0 && all_described(flavors@, species_count(species@)),
        r matches Ok(c) ==> c.wf() && built_from(c@, species@, flavors@),
        r matches Err(CatalogError::IdGap { .. }) ==> !ids_contiguous(species@),
        r matches Err(CatalogError::UnknownSpecies { .. }) ==> ids_contiguous(species@)
            && !flavors_known(flavors@, species_count(species@)),
        r matches Err(CatalogError::Empty) ==> ids_contiguous(species@) && flavors_known(
            flavors@,
            species_count(species@),
        ) && species_count(species@) == 0,
        r matches Err(CatalogError::NoVariants { id }) ==> ids_contiguous(species@)
            && flavors_known(flavors@, species_count(species@)) && species_count(species@) > 0
            && 1 <= id <= species_count(species@) && !has_text(flavors@, id as int),
        !(r matches Err(CatalogError::NotFound { .. })),
{
    let mut entries = match collect_species(species) {
        Ok(v) => v,
        Err(e) => {
            return Err(e);
        },
    };
    let ghost collected = entries@;
    match attach_texts(&mut entries, flavors) {
        Ok(()) => {},
        Err(e) => {
            return Err(e);
        },
    }
    let n = entries.len();
    proof {
        assert forall|i: int|
            0 <= i < species@.len() && (#[trigger] species@[i]).language_id == ENGLISH implies entry_of(
                entries@[english_count(species@, i) as int],
                species@[i],
            ) by {
            let c = english_count(species@, i) as int;
            assert(entry_of(collected[c], species@[i]));
            assert(entries@[c].id == collected[c].id);
        }
    }
    if n == 0 {
        return Err(CatalogError::Empty);
    }
    let mut k: usize = 0;
    while k < n
        invariant
            k <= n,
            n == entries@.len(),
            n == species_count(species@),
            ids_contiguous(species@),
            flavors_known(flavors@, n as nat),
            forall|kk: int| 0 <= kk < k ==> (#[trigger] entries@[kk]).variants@.len() > 0,
            forall|kk: int|
                0 <= kk < n ==> (#[trigger] entries@[kk]).id == kk + 1 && texts(
                    entries@[kk].variants@,
                ).no_duplicates() && texts(entries@[kk].variants@).to_set() == variant_texts(
                    flavors@,
                    flavors@.len() as int,
                    kk + 1,
                ),
            forall|i: int|
                0 <= i < species@.len() && (#[trigger] species@[i]).language_id == ENGLISH
                    ==> entry_of(entries@[english_count(species@, i) as int], species@[i]),
        decreases n - k,
    {
        if entries[k].variants.len() == 0 {
            proof {
                let id = k + 1;
                assert(texts(entries@[k as int].variants@).to_set() =~= Set::empty());
                if has_text(flavors@, id as int) {
                    let j = choose|j: int| 0 <= j < flavors@.len() && #[trigger] describes(flavors@[j], id as int);
                    assert(variant_texts(flavors@, flavors@.len() as int, id as int).contains(
                        normalized(flavors@[j].flavor_text@),
                    ));
                }
            }
            return Err(CatalogError::NoVariants { id: entries[k].id });
        }
        k = k + 1;
    }
    proof {
        assert forall|id: int| 1 <= id <= n implies #[trigger] has_text(flavors@, id) by {
            let t = texts(entries@[id - 1].variants@);
            assert(t.to_set().contains(t[0]));
        }
        assert(entries@[n - 1].id == n);
    }
    Ok(Catalog::from_entries(entries))
}

} // verus!
