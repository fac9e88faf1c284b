//! In-memory, process-lifetime stores: pending admin drafts keyed by an
//! opaque id, and the set of live admin session tokens.

use vstd::prelude::*;

use crate::strutil::str_eq;

verus! {

/// A pending upload: raw image bytes and the image's format tag.
pub struct AdminDraft {
    pub image_bytes: Vec<u8>,
    pub image_ext: String,
}

impl View for AdminDraft {
    type V = (Seq<u8>, Seq<char>);

    open spec fn view(&self) -> (Seq<u8>, Seq<char>) {
        (self.image_bytes@, self.image_ext@)
    }
}

impl AdminDraft {
    /// A copy with the same view.
    pub fn duplicate(&self) -> (r: AdminDraft)
        ensures
            r@ == self@,
    {
        AdminDraft { image_bytes: self.image_bytes.clone(), image_ext: self.image_ext.clone() }
    }
}

/// The map encoded by an association list, later entries overriding
/// earlier ones.
pub open spec fn store_map(es: Seq<(String, AdminDraft)>) -> Map<Seq<char>, (Seq<u8>, Seq<char>)>
    decreases es.len(),
{
    if es.len() == 0 {
        Map::<Seq<char>, (Seq<u8>, Seq<char>)>::empty()
    } else {
        store_map(es.drop_last()).insert(es.last().0@, es.last().1@)
    }
}

pub open spec fn unique_keys(es: Seq<(String, AdminDraft)>) -> bool {
    forall|i: int, j: int| 0 <= i < j < es.len() ==> es[i].0@ != es[j].0@
}

proof fn lemma_store_map_domain(es: Seq<(String, AdminDraft)>, k: Seq<char>)
    ensures
        store_map(es).contains_key(k) <==> exists|i: int| 0 <= i < es.len() && es[i].0@ == k,
    decreases es.len(),
{
    if es.len() > 0 {
        lemma_store_map_domain(es.drop_last(), k);
        if store_map(es).contains_key(k) {
            if es.last().0@ == k {
                assert(es[es.len() - 1].0@ == k);
            } else {
                let i = choose|i: int| 0 <= i < es.drop_last().len() && es.drop_last()[i].0@ == k;
                assert(es[i].0@ == k);
            }
        }
        if exists|i: int| 0 <= i < es.len() && es[i].0@ == k {
            let i = choose|i: int| 0 <= i < es.len() && es[i].0@ == k;
            if i < es.len() - 1 {
                assert(es.drop_last()[i].0@ == k);
            }
        }
    }
}

proof fn lemma_store_map_at(es: Seq<(String, AdminDraft)>, i: int)
    requires
        unique_keys(es),
        0 <= i < es.len(),
    ensures
        store_map(es).contains_key(es[i].0@),
        store_map(es)[es[i].0@] == es[i].1@,
    decreases es.len(),
{
    if i == es.len() - 1 {
        assert(es.last() == es[i]);
    } else {
        assert(unique_keys(es.drop_last())) by {
            assert(forall|a: int, b: int|
                0 <= a < b < es.drop_last().len() ==> es.drop_last()[a] == es[a]
                    && es.drop_last()[b] == es[b]);
        }
        assert(es.drop_last()[i] == es[i]);
        lemma_store_map_at(es.drop_last(), i);
        assert(es[i].0@ != es.last().0@);
    }
}

proof fn lemma_store_map_update(es: Seq<(String, AdminDraft)>, i: int, e: (String, AdminDraft))
    requires
        unique_keys(es),
        0 <= i < es.len(),
        e.0@ == es[i].0@,
    ensures
        store_map(es.update(i, e)) == store_map(es).insert(e.0@, e.1@),
        unique_keys(es.update(i, e)),
    decreases es.len(),
{
    let es2 = es.update(i, e);
    assert(unique_keys(es2)) by {
        assert(forall|a: int| 0 <= a < es.len() && a != i ==> es2[a] == es[a]);
        assert(es2[i] == e);
    }
    if i == es.len() - 1 {
        assert(es2.drop_last() =~= es.drop_last());
        assert(es2.last() == e);
        assert(store_map(es2) == store_map(es.drop_last()).insert(e.0@, e.1@));
        assert(es.last() == es[i]);
        assert(store_map(es).insert(e.0@, e.1@) =~= store_map(es.drop_last()).insert(
            e.0@,
            e.1@,
        ));
    } else {
        assert(unique_keys(es.drop_last())) by {
            assert(forall|a: int, b: int|
                0 <= a < b < es.drop_last().len() ==> es.drop_last()[a] == es[a]
                    && es.drop_last()[b] == es[b]);
        }
        assert(es.drop_last()[i] == es[i]);
        lemma_store_map_update(es.drop_last(), i, e);
        assert(es2.drop_last() =~= es.drop_last().update(i, e));
        assert(es2.last() == es.last());
        assert(es.last().0@ != e.0@) by {
            assert(es[i].0@ != es[es.len() - 1].0@);
        }
        assert(store_map(es2) == store_map(es.drop_last()).insert(e.0@, e.1@).insert(
            es.last().0@,
            es.last().1@,
        ));
        assert(store_map(es.drop_last()).insert(e.0@, e.1@).insert(es.last().0@, es.last().1@)
            =~= store_map(es.drop_last()).insert(es.last().0@, es.last().1@).insert(e.0@, e.1@));
    }
}

proof fn lemma_store_map_remove(es: Seq<(String, AdminDraft)>, i: int)
    requires
        unique_keys(es),
        0 <= i < es.len(),
    ensures
        store_map(es.remove(i)) == store_map(es).remove(es[i].0@),
        unique_keys(es.remove(i)),
    decreases es.len(),
{
    let k = es[i].0@;
    let es2 = es.remove(i);
    assert(unique_keys(es2)) by {
        assert(forall|a: int| 0 <= a < i ==> es2[a] == es[a]);
        assert(forall|a: int| i <= a < es2.len() ==> es2[a] == es[a + 1]);
    }
    if i == es.len() - 1 {
        assert(es2 =~= es.drop_last());
        assert(store_map(es) == store_map(es.drop_last()).insert(k, es[i].1@));
        assert(!store_map(es.drop_last()).contains_key(k)) by {
            lemma_store_map_domain(es.drop_last(), k);
            if exists|a: int| 0 <= a < es.drop_last().len() && es.drop_last()[a].0@ == k {
                let a = choose|a: int|
                    0 <= a < es.drop_last().len() && es.drop_last()[a].0@ == k;
                assert(es[a].0@ == es[i].0@);
            }
        }
        assert(store_map(es).remove(k) =~= store_map(es.drop_last()));
    } else {
        assert(unique_keys(es.drop_last())) by {
            assert(forall|a: int, b: int|
                0 <= a < b < es.drop_last().len() ==> es.drop_last()[a] == es[a]
                    && es.drop_last()[b] == es[b]);
        }
        assert(es.drop_last()[i] == es[i]);
        lemma_store_map_remove(es.drop_last(), i);
        assert(es2.drop_last() =~= es.drop_last().remove(i));
        assert(es2.last() == es.last());
        assert(store_map(es2) == store_map(es.drop_last().remove(i)).insert(
            es.last().0@,
            es.last().1@,
        ));
        assert(es.last().0@ != k) by {
            assert(es[i].0@ != es[es.len() - 1].0@);
        }
        assert(store_map(es.drop_last()).remove(k).insert(es.last().0@, es.last().1@)
            =~= store_map(es.drop_last()).insert(es.last().0@, es.last().1@).remove(k));
    }
}

/// Pending drafts, keyed by their opaque id; each id holds at most one
/// draft, and `take` consumes it exactly once.
pub struct DraftStore {
    entries: Vec<(String, AdminDraft)>,
}

impl View for DraftStore {
    type V = Map<Seq<char>, (Seq<u8>, Seq<char>)>;

    closed spec fn view(&self) -> Map<Seq<char>, (Seq<u8>, Seq<char>)> {
        store_map(self.entries@)
    }
}

impl DraftStore {
    /// The store's internal association list keeps each id once.
    pub closed spec fn inv(&self) -> bool {
        unique_keys(self.entries@)
    }

    /// An empty store.
    pub fn new() -> (r: DraftStore)
        ensures
            r@ == Map::<Seq<char>, (Seq<u8>, Seq<char>)>::empty(),
            r.inv(),
    {
        DraftStore { entries: Vec::new() }
    }

    /// Files a draft under `id`; an existing draft under the same id is
    /// replaced.
    #[verifier::loop_isolation(false)]
    pub fn put(&mut self, id: String, draft: AdminDraft)
        requires
            old(self).inv(),
        ensures
            final(self)@ == old(self)@.insert(id@, draft@),
            final(self).inv(),
    {
        let ghost gdraft = draft@;
        let n = self.entries.len();
        let mut i: usize = 0;
        while i < n
            invariant
                i <= n,
                n == self.entries@.len(),
                self == old(self),
                forall|j: int| 0 <= j < i ==> self.entries@[j].0@ != id@,
            decreases n - i,
        {
            let hit = str_eq(self.entries[i].0.as_str(), id.as_str());
            if hit {
                proof {
                    lemma_store_map_update(self.entries@, i as int, (id, draft));
                }
                self.entries.set(i, (id, draft));
                return;
            }
            i += 1;
        }
        self.entries.push((id, draft));
        proof {
            assert(self.entries@.drop_last() =~= old(self).entries@);
            assert(unique_keys(self.entries@)) by {
                assert(forall|a: int|
                    0 <= a < old(self).entries@.len() ==> self.entries@[a]
                        == old(self).entries@[a]);
            }
        }
    }

    /// Whether a draft is filed under `id`.
    #[verifier::loop_isolation(false)]
    pub fn contains(&self, id: &str) -> (r: bool)
        requires
            self.inv(),
        ensures
            r == self@.contains_key(id@),
    {
        let n = self.entries.len();
        let mut i: usize = 0;
        while i < n
            invariant
                i <= n,
                n == self.entries@.len(),
                forall|j: int| 0 <= j < i ==> self.entries@[j].0@ != id@,
            decreases n - i,
        {
            let hit = str_eq(self.entries[i].0.as_str(), id);
            if hit {
                proof {
                    lemma_store_map_at(self.entries@, i as int);
                }
                return true;
            }
            i += 1;
        }
        proof {
            lemma_store_map_domain(self.entries@, id@);
        }
        false
    }

    /// A copy of the draft under `id`, without consuming it.
    #[verifier::loop_isolation(false)]
    pub fn peek(&self, id: &str) -> (r: Option<AdminDraft>)
        requires
            self.inv(),
        ensures
            match r {
                Some(d) => self@.contains_key(id@) && d@ == self@[id@],
                None => !self@.contains_key(id@),
            },
    {
        let n = self.entries.len();
        let mut i: usize = 0;
        while i < n
            invariant
                i <= n,
                n == self.entries@.len(),
                forall|j: int| 0 <= j < i ==> self.entries@[j].0@ != id@,
            decreases n - i,
        {
            let hit = str_eq(self.entries[i].0.as_str(), id);
            if hit {
                proof {
                    lemma_store_map_at(self.entries@, i as int);
                }
                return Some(self.entries[i].1.duplicate());
            }
            i += 1;
        }
        proof {
            lemma_store_map_domain(self.entries@, id@);
        }
        None
    }

    /// Consumes the draft under `id`: the first call returns it and
    /// removes it, so a second call with the same id finds nothing.
    #[verifier::loop_isolation(false)]
    pub fn take(&mut self, id: &str) -> (r: Option<AdminDraft>)
        requires
            old(self).inv(),
        ensures
            final(self).inv(),
            match r {
                Some(d) => old(self)@.contains_key(id@) && d@ == old(self)@[id@]
                    && final(self)@ == old(self)@.remove(id@)
                    && !final(self)@.contains_key(id@),
                None => !old(self)@.contains_key(id@) && final(self)@ == old(self)@,
            },
    {
        let n = self.entries.len();
        let mut i: usize = 0;
        while i < n
            invariant
                i <= n,
                n == self.entries@.len(),
                self == old(self),
                forall|j: int| 0 <= j < i ==> self.entries@[j].0@ != id@,
            decreases n - i,
        {
            let hit = str_eq(self.entries[i].0.as_str(), id);
            if hit {
                proof {
                    lemma_store_map_at(self.entries@, i as int);
                    lemma_store_map_remove(self.entries@, i as int);
                }
                let entry = self.entries.remove(i);
                return Some(entry.1);
            }
            i += 1;
        }
        proof {
            lemma_store_map_domain(self.entries@, id@);
        }
        None
    }

    /// Discards every pending draft.
    pub fn clear_all(&mut self)
        ensures
            final(self)@ == Map::<Seq<char>, (Seq<u8>, Seq<char>)>::empty(),
            final(self).inv(),
    {
        self.entries.clear();
    }
}

/// The set encoded by a token list.
pub open spec fn token_set(ts: Seq<String>) -> Set<Seq<char>>
    decreases ts.len(),
{
    if ts.len() == 0 {
        Set::<Seq<char>>::empty()
    } else {
        token_set(ts.drop_last()).insert(ts.last()@)
    }
}

proof fn lemma_token_set_domain(ts: Seq<String>, k: Seq<char>)
    ensures
        token_set(ts).contains(k) <==> exists|i: int| 0 <= i < ts.len() && ts[i]@ == k,
    decreases ts.len(),
{
    if ts.len() > 0 {
        lemma_token_set_domain(ts.drop_last(), k);
        if token_set(ts).contains(k) && ts.last()@ != k {
            let i = choose|i: int| 0 <= i < ts.drop_last().len() && ts.drop_last()[i]@ == k;
            assert(ts[i]@ == k);
        }
        if exists|i: int| 0 <= i < ts.len() && ts[i]@ == k {
            let i = choose|i: int| 0 <= i < ts.len() && ts[i]@ == k;
            if i < ts.len() - 1 {
                assert(ts.drop_last()[i]@ == k);
            }
        }
    }
}

proof fn lemma_token_set_remove(ts: Seq<String>, i: int)
    requires
        0 <= i < ts.len(),
        forall|a: int, b: int| 0 <= a < b < ts.len() ==> ts[a]@ != ts[b]@,
    ensures
        token_set(ts.remove(i)) == token_set(ts).remove(ts[i]@),
    decreases ts.len(),
{
    let k = ts[i]@;
    let ts2 = ts.remove(i);
    if i == ts.len() - 1 {
        assert(ts2 =~= ts.drop_last());
        assert(!token_set(ts.drop_last()).contains(k)) by {
            lemma_token_set_domain(ts.drop_last(), k);
            if exists|a: int| 0 <= a < ts.drop_last().len() && ts.drop_last()[a]@ == k {
                let a = choose|a: int| 0 <= a < ts.drop_last().len() && ts.drop_last()[a]@ == k;
                assert(ts[a]@ == ts[i]@);
            }
        }
        assert(token_set(ts).remove(k) =~= token_set(ts.drop_last()));
    } else {
        assert(forall|a: int, b: int|
            0 <= a < b < ts.drop_last().len() ==> ts.drop_last()[a]@ != ts.drop_last()[b]@) by {
            assert(forall|a: int|
                0 <= a < ts.drop_last().len() ==> ts.drop_last()[a] == ts[a]);
        }
        assert(ts.drop_last()[i] == ts[i]);
        lemma_token_set_remove(ts.drop_last(), i);
        assert(ts2.drop_last() =~= ts.drop_last().remove(i));
        assert(ts2.last() == ts.last());
        assert(token_set(ts2) == token_set(ts.drop_last().remove(i)).insert(ts.last()@));
        assert(ts.last()@ != k) by {
            assert(ts[i]@ != ts[ts.len() - 1]@);
        }
        assert(token_set(ts.drop_last()).remove(k).insert(ts.last()@) =~= token_set(
            ts.drop_last(),
        ).insert(ts.last()@).remove(k));
    }
}

/// The set of live admin session tokens.
pub struct SessionStore {
    tokens: Vec<String>,
}

impl View for SessionStore {
    type V = Set<Seq<char>>;

    closed spec fn view(&self) -> Set<Seq<char>> {
        token_set(self.tokens@)
    }
}

impl SessionStore {
    /// The token list keeps each token once.
    pub closed spec fn inv(&self) -> bool {
        forall|a: int, b: int|
            0 <= a < b < self.tokens@.len() ==> self.tokens@[a]@ != self.tokens@[b]@
    }

    /// An empty session set.
    pub fn new() -> (r: SessionStore)
        ensures
            r@ == Set::<Seq<char>>::empty(),
            r.inv(),
    {
        SessionStore { tokens: Vec::new() }
    }

    /// Whether `token` is a live session.
    #[verifier::loop_isolation(false)]
    pub fn contains(&self, token: &str) -> (r: bool)
        ensures
            r == self@.contains(token@),
    {
        let n = self.tokens.len();
        let mut i: usize = 0;
        while i < n
            invariant
                i <= n,
                n == self.tokens@.len(),
                forall|j: int| 0 <= j < i ==> self.tokens@[j]@ != token@,
            decreases n - i,
        {
            let hit = str_eq(self.tokens[i].as_str(), token);
            if hit {
                proof {
                    lemma_token_set_domain(self.tokens@, token@);
                }
                return true;
            }
            i += 1;
        }
        proof {
            lemma_token_set_domain(self.tokens@, token@);
        }
        false
    }

    /// Adds a session token.
    pub fn insert(&mut self, token: String)
        requires
            old(self).inv(),
        ensures
            final(self)@ == old(self)@.insert(token@),
            final(self).inv(),
    {
        let present = self.contains(token.as_str());
        if present {
            proof {
                assert(self@.insert(token@) =~= self@);
            }
            return;
        }
        proof {
            lemma_token_set_domain(self.tokens@, token@);
        }
        self.tokens.push(token);
        proof {
            assert(self.tokens@.drop_last() =~= old(self).tokens@);
            assert forall|a: int, b: int|
                0 <= a < b < self.tokens@.len() implies self.tokens@[a]@ != self.tokens@[b]@ by {
                if b < self.tokens@.len() - 1 {
                    assert(self.tokens@[a] == old(self).tokens@[a]);
                    assert(self.tokens@[b] == old(self).tokens@[b]);
                } else {
                    assert(self.tokens@[a] == old(self).tokens@[a]);
                    assert(!(exists|i: int|
                        0 <= i < old(self).tokens@.len() && old(self).tokens@[i]@ == token@));
                }
            }
        }
    }

    /// Removes a session token, if it is live.
    #[verifier::loop_isolation(false)]
    pub fn remove(&mut self, token: &str)
        requires
            old(self).inv(),
        ensures
            final(self)@ == old(self)@.remove(token@),
            final(self).inv(),
    {
        let n = self.tokens.len();
        let mut i: usize = 0;
        while i < n
            invariant
                i <= n,
                n == self.tokens@.len(),
                self == old(self),
                forall|j: int| 0 <= j < i ==> self.tokens@[j]@ != token@,
            decreases n - i,
        {
            let hit = str_eq(self.tokens[i].as_str(), token);
            if hit {
                proof {
                    lemma_token_set_remove(self.tokens@, i as int);
                    assert(forall|a: int|
                        0 <= a < i ==> self.tokens@.remove(i as int)[a] == self.tokens@[a]);
                    assert(forall|a: int|
                        i <= a < self.tokens@.remove(i as int).len() ==> self.tokens@.remove(
                            i as int,
                        )[a] == self.tokens@[a + 1]);
                }
                self.tokens.remove(i);
                return;
            }
            i += 1;
        }
        proof {
            lemma_token_set_domain(self.tokens@, token@);
            assert(self@.remove(token@) =~= self@);
        }
    }

    /// Ends every session.
    pub fn clear(&mut self)
        ensures
            final(self)@ == Set::<Seq<char>>::empty(),
            final(self).inv(),
    {
        self.tokens.clear();
    }
}

} // verus!
