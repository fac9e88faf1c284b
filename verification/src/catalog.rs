//! The per-language catalog: records in stable display order with lookup
//! by identifier, and the lazily populated, invalidate-all cache that
//! holds one catalog per language.

use vstd::prelude::*;
use vstd::multiset::Multiset;

use crate::i18n::Language;
use crate::models::{Mineral, MineralView};
use crate::strutil::{lex_le, lemma_lex_le_total, lemma_lex_le_trans, str_eq, str_le};

verus! {

broadcast use vstd::seq_lib::group_to_multiset_ensures;

/// The records of a run, each seen through its view.
pub open spec fn views_of(s: Seq<Mineral>) -> Seq<MineralView> {
    s.map_values(|m: Mineral| m@)
}

/// Records stand in display order: sorted by display name.
pub open spec fn sorted_by_name(s: Seq<MineralView>) -> bool {
    forall|i: int, j: int| 0 <= i < j < s.len() ==> lex_le(s[i].common_name, s[j].common_name)
}

/// Index of the first record with identifier `slug`, or `s.len()`.
pub open spec fn find_slug(s: Seq<MineralView>, slug: Seq<char>) -> int
    decreases s.len(),
{
    if s.len() == 0 {
        0
    } else if s[0].slug == slug {
        0
    } else {
        1 + find_slug(s.drop_first(), slug)
    }
}

pub proof fn lemma_find_slug(s: Seq<MineralView>, slug: Seq<char>)
    ensures
        0 <= find_slug(s, slug) <= s.len(),
        forall|j: int| 0 <= j < find_slug(s, slug) ==> s[j].slug != slug,
        find_slug(s, slug) < s.len() ==> s[find_slug(s, slug)].slug == slug,
    decreases s.len(),
{
    if s.len() > 0 && s[0].slug != slug {
        let t = s.drop_first();
        lemma_find_slug(t, slug);
        assert forall|j: int| 0 <= j < find_slug(s, slug) implies s[j].slug != slug by {
            if j > 0 {
                assert(t[j - 1] == s[j]);
            }
        }
    }
}

pub proof fn lemma_find_slug_unique(s: Seq<MineralView>, slug: Seq<char>, i: int)
    requires
        0 <= i <= s.len(),
        forall|j: int| 0 <= j < i ==> s[j].slug != slug,
        i < s.len() ==> s[i].slug == slug,
    ensures
        find_slug(s, slug) == i,
    decreases s.len(),
{
    if s.len() > 0 && s[0].slug != slug {
        lemma_find_slug_unique(s.drop_first(), slug, i - 1);
    }
}

proof fn lemma_insert_multiset(s: Seq<MineralView>, i: int, v: MineralView)
    requires
        0 <= i <= s.len(),
    ensures
        s.insert(i, v).to_multiset() == s.to_multiset().insert(v),
{
    let t = s.insert(i, v);
    assert(t.remove(i) =~= s);
    assert(t[i] == v);
    assert(t.remove(i).to_multiset() =~= t.to_multiset().remove(t[i]));
    assert(t.contains(v)) by {
        assert(t[i] == v);
    }
    assert(t.to_multiset().count(v) > 0);
    assert(t.to_multiset() =~= s.to_multiset().insert(v)) by {
        assert(s.to_multiset() =~= t.to_multiset().remove(v));
        assert forall|x: MineralView| t.to_multiset().count(x) == s.to_multiset().insert(
            v,
        ).count(x) by {
            if x == v {
                assert(s.to_multiset().count(v) == t.to_multiset().count(v) - 1);
            } else {
                assert(s.to_multiset().count(x) == t.to_multiset().count(x));
            }
        }
    }
}

/// Places one record into a sorted run, keeping it sorted and adding
/// exactly that record.
#[verifier::loop_isolation(false)]
fn insert_sorted(sorted: &mut Vec<Mineral>, m: Mineral)
    requires
        sorted_by_name(views_of(old(sorted)@)),
    ensures
        sorted_by_name(views_of(final(sorted)@)),
        views_of(final(sorted)@).to_multiset() == views_of(old(sorted)@).to_multiset().insert(
            m@,
        ),
        final(sorted)@.len() == old(sorted)@.len() + 1,
{
    let n = sorted.len();
    let mut j: usize = 0;
    proof {
        assert(views_of(sorted@).len() == n);
    }
    while j < n && str_le(sorted[j].common_name.as_str(), m.common_name.as_str())
        invariant
            j <= n,
            forall|t: int|
                0 <= t < j ==> lex_le(#[trigger] views_of(sorted@)[t].common_name, m@.common_name),
        decreases n - j,
    {
        proof {
            assert(views_of(sorted@)[j as int] == sorted@[j as int]@);
        }
        j += 1;
    }
    let ghost before = views_of(sorted@);
    proof {
        if j < n {
            assert(views_of(sorted@)[j as int] == sorted@[j as int]@);
            lemma_lex_le_total(before[j as int].common_name, m@.common_name);
        }
        lemma_insert_multiset(before, j as int, m@);
    }
    let ghost m_view = m@;
    sorted.insert(j, m);
    proof {
        let after = views_of(sorted@);
        assert(after =~= before.insert(j as int, m_view)) by {
            assert(after.len() == before.len() + 1);
            assert(forall|t: int|
                0 <= t < after.len() ==> after[t] == #[trigger] sorted@[t]@);
        }
        assert forall|a: int, b: int|
            0 <= a < b < after.len() implies lex_le(after[a].common_name, after[b].common_name) by {
            if a < j && b < j {
                assert(after[a] == before[a] && after[b] == before[b]);
            } else if a < j && b == j {
                assert(after[a] == before[a]);
            } else if a < j && b > j {
                assert(after[a] == before[a] && after[b] == before[b - 1]);
            } else if a == j && b > j {
                assert(after[b] == before[b - 1]);
                if j < n {
                    assert(lex_le(m_view.common_name, before[j as int].common_name));
                    if b - 1 > j {
                        assert(lex_le(before[j as int].common_name, before[b - 1].common_name));
                        lemma_lex_le_trans(
                            m_view.common_name,
                            before[j as int].common_name,
                            before[b - 1].common_name,
                        );
                    }
                }
            } else {
                assert(after[a] == before[a - 1] && after[b] == before[b - 1]);
            }
        }
    }
}

/// The per-language catalog: every published record, sorted by display
/// name, with lookup by identifier.
pub struct MineralCatalog {
    ordered: Vec<Mineral>,
}

impl View for MineralCatalog {
    type V = Seq<MineralView>;

    closed spec fn view(&self) -> Seq<MineralView> {
        views_of(self.ordered@)
    }
}

impl MineralCatalog {
    /// Builds a catalog from scanned records: the same records, sorted by
    /// display name.
    pub fn new(minerals: Vec<Mineral>) -> (r: MineralCatalog)
        ensures
            r@.to_multiset() == views_of(minerals@).to_multiset(),
            r@.len() == minerals@.len(),
            sorted_by_name(r@),
    {
        let mut input = minerals;
        let mut sorted: Vec<Mineral> = Vec::new();
        proof {
            assert(views_of(sorted@) =~= Seq::<MineralView>::empty());
            assert(views_of(sorted@).to_multiset().add(views_of(input@).to_multiset())
                =~= views_of(minerals@).to_multiset());
        }
        while input.len() > 0
            invariant
                sorted_by_name(views_of(sorted@)),
                views_of(sorted@).to_multiset().add(views_of(input@).to_multiset()) == views_of(
                    minerals@,
                ).to_multiset(),
                sorted@.len() + input@.len() == minerals@.len(),
            decreases input@.len(),
        {
            let ghost input_before = views_of(input@);
            let m = input.pop().unwrap();
            proof {
                assert(input_before =~= views_of(input@).push(m@)) by {
                    assert(input_before.len() == views_of(input@).len() + 1);
                }
                assert(input_before.to_multiset() =~= views_of(input@).to_multiset().insert(m@));
            }
            let ghost sorted_before = views_of(sorted@);
            insert_sorted(&mut sorted, m);
            proof {
                assert(views_of(sorted@).to_multiset().add(views_of(input@).to_multiset())
                    =~= sorted_before.to_multiset().insert(m@).add(views_of(input@).to_multiset()));
                assert(sorted_before.to_multiset().insert(m@).add(views_of(input@).to_multiset())
                    =~= sorted_before.to_multiset().add(
                    views_of(input@).to_multiset().insert(m@),
                ));
            }
        }
        proof {
            assert(views_of(input@) =~= Seq::<MineralView>::empty());
            assert(views_of(input@).to_multiset() =~= Multiset::<MineralView>::empty());
            assert(views_of(sorted@).to_multiset().add(Multiset::<MineralView>::empty())
                =~= views_of(sorted@).to_multiset());
        }
        MineralCatalog { ordered: sorted }
    }

    /// Number of records.
    pub fn len(&self) -> (r: usize)
        ensures
            r == self@.len(),
    {
        self.ordered.len()
    }

    /// The record at a display position.
    pub fn at(&self, i: usize) -> (r: &Mineral)
        requires
            i < self@.len(),
        ensures
            r@ == self@[i as int],
    {
        proof {
            assert(views_of(self.ordered@)[i as int] == self.ordered@[i as int]@);
        }
        &self.ordered[i]
    }

    /// Looks an identifier up: a copy of the first record carrying it, or
    /// nothing when no record does.
    #[verifier::loop_isolation(false)]
    pub fn get(&self, slug: &str) -> (r: Option<Mineral>)
        ensures
            match r {
                Some(m) => find_slug(self@, slug@) < self@.len() && m@ == self@[find_slug(
                    self@,
                    slug@,
                )],
                None => find_slug(self@, slug@) == self@.len(),
            },
    {
        let n = self.ordered.len();
        let mut i: usize = 0;
        while i < n
            invariant
                i <= n,
                forall|j: int| 0 <= j < i ==> (#[trigger] self@[j]).slug != slug@,
            decreases n - i,
        {
            proof {
                assert(self@[i as int] == self.ordered@[i as int]@);
            }
            let hit = str_eq(self.ordered[i].slug.as_str(), slug);
            if hit {
                proof {
                    lemma_find_slug_unique(self@, slug@, i as int);
                }
                return Some(self.ordered[i].duplicate());
            }
            i += 1;
        }
        proof {
            lemma_find_slug_unique(self@, slug@, n as int);
        }
        None
    }

    /// A copy with the same records.
    pub fn duplicate(&self) -> (r: MineralCatalog)
        ensures
            r@ == self@,
    {
        let n = self.ordered.len();
        let mut out: Vec<Mineral> = Vec::new();
        let mut i: usize = 0;
        while i < n
            invariant
                i <= n,
                n == self.ordered@.len(),
                out@.len() == i,
                forall|j: int| 0 <= j < i ==> (#[trigger] out@[j])@ == self.ordered@[j]@,
            decreases n - i,
        {
            out.push(self.ordered[i].duplicate());
            i += 1;
        }
        let r = MineralCatalog { ordered: out };
        proof {
            assert forall|j: int| 0 <= j < n implies views_of(out@)[j] == views_of(
                self.ordered@,
            )[j] by {
                assert(views_of(out@)[j] == out@[j]@);
                assert(views_of(self.ordered@)[j] == self.ordered@[j]@);
            }
            assert(r@ =~= self@);
        }
        r
    }
}

/// The per-process, per-language catalog cache.  A slot is filled lazily
/// by the first completed scan and emptied only by [`CatalogCache::invalidate`].
pub struct CatalogCache {
    slots: Vec<Option<MineralCatalog>>,
}

/// Position of each language's slot.
pub open spec fn lang_index(l: Language) -> int {
    match l {
        Language::En => 0,
        Language::Es => 1,
        Language::Cs => 2,
        Language::Zh => 3,
        Language::Ar => 4,
        Language::Fr => 5,
        Language::De => 6,
        Language::Pt => 7,
        Language::Hi => 8,
        Language::Ja => 9,
    }
}

fn lang_slot(l: Language) -> (r: usize)
    ensures
        r == lang_index(l),
{
    match l {
        Language::En => 0,
        Language::Es => 1,
        Language::Cs => 2,
        Language::Zh => 3,
        Language::Ar => 4,
        Language::Fr => 5,
        Language::De => 6,
        Language::Pt => 7,
        Language::Hi => 8,
        Language::Ja => 9,
    }
}

impl CatalogCache {
    /// One slot per supported language.
    pub closed spec fn inv(&self) -> bool {
        self.slots@.len() == 10
    }

    /// The cached catalog of a language, if one is cached.
    pub closed spec fn entry(&self, l: Language) -> Option<Seq<MineralView>> {
        if self.inv() {
            match self.slots@[lang_index(l)] {
                Some(c) => Some(c@),
                None => None,
            }
        } else {
            None
        }
    }

    /// An empty cache: no language has a catalog yet.
    pub fn new() -> (r: CatalogCache)
        ensures
            r.inv(),
            forall|l: Language| #[trigger] r.entry(l) is None,
    {
        let mut slots: Vec<Option<MineralCatalog>> = Vec::new();
        let mut i: usize = 0;
        while i < 10
            invariant
                i <= 10,
                slots@.len() == i,
                forall|j: int| 0 <= j < i ==> (#[trigger] slots@[j]) is None,
            decreases 10 - i,
        {
            slots.push(None);
            i += 1;
        }
        CatalogCache { slots }
    }

    /// A snapshot of the cached catalog for `l`, or nothing on a miss;
    /// the cache itself never changes on a read.
    pub fn lookup(&self, l: Language) -> (r: Option<MineralCatalog>)
        requires
            self.inv(),
        ensures
            match r {
                Some(c) => self.entry(l) == Some(c@),
                None => self.entry(l) is None,
            },
    {
        let i = lang_slot(l);
        match &self.slots[i] {
            Some(c) => Some(c.duplicate()),
            None => None,
        }
    }

    /// Resolves a scan against the cache: on a miss the scanned catalog is
    /// kept and returned; on a hit the already-cached catalog wins and the
    /// redundant scan is discarded, so the first completed scan for a
    /// language stands until the next invalidation.
    pub fn get_or_insert(&mut self, l: Language, scanned: MineralCatalog) -> (r: MineralCatalog)
        requires
            old(self).inv(),
        ensures
            final(self).inv(),
            old(self).entry(l) is Some ==> {
                &&& final(self).entry(l) == old(self).entry(l)
                &&& Some(r@) == old(self).entry(l)
            },
            old(self).entry(l) is None ==> {
                &&& final(self).entry(l) == Some(scanned@)
                &&& r@ == scanned@
            },
            forall|l2: Language|
                l2 != l ==> #[trigger] final(self).entry(l2) == old(self).entry(l2),
    {
        let i = lang_slot(l);
        let cached = match &self.slots[i] {
            Some(c) => Some(c.duplicate()),
            None => None,
        };
        match cached {
            Some(c) => {
                c
            },
            None => {
                let snapshot = scanned.duplicate();
                self.slots.set(i, Some(scanned));
                proof {
                    assert forall|l2: Language| l2 != l implies #[trigger] self.entry(l2) == old(
                        self,
                    ).entry(l2) by {
                        assert(lang_index(l2) != lang_index(l));
                    }
                }
                snapshot
            },
        }
    }

    /// Drops every cached catalog unconditionally, forcing each language's
    /// next read to rescan.
    pub fn invalidate(&mut self)
        requires
            old(self).inv(),
        ensures
            final(self).inv(),
            forall|l: Language| #[trigger] final(self).entry(l) is None,
    {
        let mut i: usize = 0;
        while i < 10
            invariant
                i <= 10,
                self.slots@.len() == 10,
                forall|j: int| 0 <= j < i ==> (#[trigger] self.slots@[j]) is None,
            decreases 10 - i,
        {
            self.slots.set(i, None);
            i += 1;
        }
    }
}

/// The catalog a read returns: the cached one when the language is
/// cached, else the fresh scan.
pub open spec fn cached_or(
    c: &CatalogCache,
    l: Language,
    scanned: Seq<MineralView>,
) -> Seq<MineralView> {
    match c.entry(l) {
        Some(v) => v,
        None => scanned,
    }
}

/// Reading a cached language twice with no intervening publish returns
/// identical catalogs, whatever the two redundant scans would have held:
/// the cached value alone decides both identifiers and field values.
pub proof fn lemma_cached_reads_agree(
    c: &CatalogCache,
    l: Language,
    scan1: Seq<MineralView>,
    scan2: Seq<MineralView>,
)
    requires
        c.entry(l) is Some,
    ensures
        cached_or(c, l, scan1) == cached_or(c, l, scan2),
{
}

/// While a stale catalog stays cached, a newly published identifier is
/// not served: the read still returns the cached catalog, which does not
/// hold it.
pub proof fn lemma_stale_cache_hides_new(
    c: &CatalogCache,
    l: Language,
    cached: Seq<MineralView>,
    fresh: Seq<MineralView>,
    new_slug: Seq<char>,
)
    requires
        c.entry(l) == Some(cached),
        find_slug(cached, new_slug) == cached.len(),
    ensures
        cached_or(c, l, fresh) == cached,
        find_slug(cached_or(c, l, fresh), new_slug) == cached_or(c, l, fresh).len(),
{
}

/// After an invalidation, the next read takes the fresh scan, so an
/// identifier present in the rescanned store is served, for any language.
pub proof fn lemma_invalidated_read_sees_new(
    c: &CatalogCache,
    l: Language,
    fresh: Seq<MineralView>,
    new_slug: Seq<char>,
)
    requires
        c.entry(l) is None,
        find_slug(fresh, new_slug) < fresh.len(),
    ensures
        cached_or(c, l, fresh) == fresh,
        find_slug(cached_or(c, l, fresh), new_slug) < cached_or(c, l, fresh).len(),
        cached_or(c, l, fresh)[find_slug(cached_or(c, l, fresh), new_slug)].slug == new_slug,
{
    lemma_find_slug(fresh, new_slug);
}

} // verus!
