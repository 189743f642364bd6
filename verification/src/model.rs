//! The two stores the lifecycle operations act on, as one executable state:
//! the catalog store (one document per owner) and the backend's resource
//! existence, which is the ground truth the catalog mirrors, plus the
//! backend's liveness. The methods are the Backend Client surface the core
//! consumes: catalog fetch and write, existence probe, resource create and
//! delete, liveness.

use vstd::prelude::*;

use crate::catalog::clone_names;
use crate::catalog::contains_name;
use crate::catalog::distinct_names;
use crate::catalog::insert_name;
use crate::catalog::name_set;
use crate::catalog::remove_name;

verus! {

/// One per owner: the catalog document listing the owner's resource names.
pub struct CatalogDoc {
    pub owner: String,
    pub resources: Vec<String>,
}

/// Is some document of `docs` keyed by the owner `o`?
pub open spec fn seq_has_owner(docs: Seq<CatalogDoc>, o: Seq<char>) -> bool {
    exists|i: int| 0 <= i < docs.len() && docs[i].owner@ == o
}

/// The index of the owner's document (meaningful when `seq_has_owner`).
pub open spec fn seq_owner_index(docs: Seq<CatalogDoc>, o: Seq<char>) -> int {
    choose|i: int| 0 <= i < docs.len() && docs[i].owner@ == o
}

/// The set of names the owner's document lists.
pub open spec fn seq_catalog_of(docs: Seq<CatalogDoc>, o: Seq<char>) -> Set<Seq<char>> {
    name_set(docs[seq_owner_index(docs, o)].resources@)
}

/// The joint state of catalog store and backend.
pub struct System {
    pub catalogs: Vec<CatalogDoc>,
    pub backend: Vec<String>,
    pub live: bool,
}

impl System {
    /// Well-formed: at most one catalog document per owner, and neither a
    /// resource list nor the backend holds a duplicate name.
    pub open spec fn wf(self) -> bool {
        &&& forall|i: int, j: int|
            0 <= i < j < self.catalogs@.len() ==> self.catalogs@[i].owner@
                != self.catalogs@[j].owner@
        &&& forall|i: int|
            0 <= i < self.catalogs@.len() ==> distinct_names(
                #[trigger] self.catalogs@[i].resources@,
            )
        &&& distinct_names(self.backend@)
    }

    /// Does the owner have a catalog document?
    pub open spec fn has_owner(self, o: Seq<char>) -> bool {
        seq_has_owner(self.catalogs@, o)
    }

    /// The set of names the owner's catalog document lists (meaningful when
    /// `has_owner`).
    pub open spec fn catalog_of(self, o: Seq<char>) -> Set<Seq<char>> {
        seq_catalog_of(self.catalogs@, o)
    }

    /// Does the backend hold a resource under this qualified name?
    pub open spec fn backend_has(self, q: Seq<char>) -> bool {
        name_set(self.backend@).contains(q)
    }

    /// In a well-formed system the owner's document sits at one index only.
    pub proof fn lemma_owner_index(self, o: Seq<char>)
        requires
            self.wf(),
            self.has_owner(o),
        ensures
            0 <= seq_owner_index(self.catalogs@, o) < self.catalogs@.len(),
            self.catalogs@[seq_owner_index(self.catalogs@, o)].owner@ == o,
            forall|i: int|
                0 <= i < self.catalogs@.len() && self.catalogs@[i].owner@ == o ==> i
                    == seq_owner_index(self.catalogs@, o),
    {
        let w = seq_owner_index(self.catalogs@, o);
        assert(0 <= w < self.catalogs@.len() && self.catalogs@[w].owner@ == o);
        assert forall|i: int|
            0 <= i < self.catalogs@.len() && self.catalogs@[i].owner@ == o implies i == w by {
            if i < w {
                assert(self.catalogs@[i].owner@ != self.catalogs@[w].owner@);
            } else if w < i {
                assert(self.catalogs@[w].owner@ != self.catalogs@[i].owner@);
            }
        }
    }

    /// A fresh system: no owners, no backend resources, backend alive.
    pub fn new() -> (r: System)
        ensures
            r.wf(),
            r.live,
            forall|o: Seq<char>| !r.has_owner(o),
            forall|q: Seq<char>| !r.backend_has(q),
    {
        let r = System { catalogs: Vec::new(), backend: Vec::new(), live: true };
        proof {
            assert forall|q: Seq<char>| !r.backend_has(q) by {
                crate::catalog::lemma_name_set(r.backend@, q);
            }
        }
        r
    }

    /// Sets whether the backend answers a liveness probe.
    pub fn set_live(&mut self, live: bool)
        ensures
            final(self).live == live,
            final(self).catalogs@ == old(self).catalogs@,
            final(self).backend@ == old(self).backend@,
    {
        self.live = live;
    }

    /// The liveness probe.
    pub fn liveness(&self) -> (r: bool)
        ensures
            r == self.live,
    {
        self.live
    }

    fn find_owner(&self, owner: &String) -> (r: Option<usize>)
        ensures
            match r {
                Some(i) => i < self.catalogs@.len() && self.catalogs@[i as int].owner@ == owner@,
                None => !self.has_owner(owner@),
            },
    {
        let mut k: usize = 0;
        while k < self.catalogs.len()
            invariant
                k <= self.catalogs@.len(),
                forall|j: int| 0 <= j < k ==> self.catalogs@[j].owner@ != owner@,
            decreases self.catalogs@.len() - k,
        {
            if self.catalogs[k].owner.eq(owner) {
                return Some(k);
            }
            k = k + 1;
        }
        None
    }

    /// Fetches the catalog document of an owner: `None` when the owner has no
    /// document, else a copy of the list of names it holds.
    pub fn get_catalog(&self, owner: &String) -> (r: Option<Vec<String>>)
        requires
            self.wf(),
        ensures
            r is Some <==> self.has_owner(owner@),
            (r matches Some(l) ==> name_set(l@) == self.catalog_of(owner@) && distinct_names(l@)),
    {
        match self.find_owner(owner) {
            Some(i) => {
                let l = clone_names(&self.catalogs[i].resources);
                proof {
                    assert(self.has_owner(owner@));
                    self.lemma_owner_index(owner@);
                    assert(i as int == seq_owner_index(self.catalogs@, owner@));
                }
                Some(l)
            },
            None => None,
        }
    }

    /// Creates an (empty) catalog document for a new owner; an owner that
    /// already has one keeps it.
    pub fn register_owner(&mut self, owner: String) -> (r: bool)
        requires
            old(self).wf(),
        ensures
            final(self).wf(),
            r == !old(self).has_owner(owner@),
            final(self).live == old(self).live,
            final(self).backend@ == old(self).backend@,
            final(self).has_owner(owner@),
            r ==> final(self).catalog_of(owner@) == Set::<Seq<char>>::empty(),
            !r ==> final(self).catalogs@ == old(self).catalogs@,
            forall|o: Seq<char>|
                o != owner@ ==> final(self).has_owner(o) == old(self).has_owner(o),
            forall|o: Seq<char>|
                o != owner@ && old(self).has_owner(o) ==> final(self).catalog_of(o) == old(
                    self,
                ).catalog_of(o),
    {
        match self.find_owner(&owner) {
            Some(_) => false,
            None => {
                let ghost docs0 = self.catalogs@;
                let ghost oname = owner@;
                self.catalogs.push(CatalogDoc { owner, resources: Vec::new() });
                proof {
                    let docs = self.catalogs@;
                    let n = docs0.len() as int;
                    assert(docs[n].owner@ == oname);
                    assert(self.has_owner(oname));
                    self.lemma_owner_index(oname);
                    assert(seq_owner_index(docs, oname) == n);
                    assert forall|q2: Seq<char>| !name_set(docs[n].resources@).contains(q2) by {
                        crate::catalog::lemma_name_set(docs[n].resources@, q2);
                    }
                    assert(self.catalog_of(oname) =~= Set::<Seq<char>>::empty());
                    assert forall|o: Seq<char>|
                        o != oname implies self.has_owner(o) == seq_has_owner(docs0, o) by {
                        if seq_has_owner(docs0, o) {
                            let i = seq_owner_index(docs0, o);
                            assert(docs[i].owner@ == o);
                        }
                        if self.has_owner(o) {
                            let i = choose|i: int| 0 <= i < docs.len() && docs[i].owner@ == o;
                            assert(i < n);
                            assert(docs0[i].owner@ == o);
                        }
                    }
                    assert forall|o: Seq<char>|
                        o != oname && seq_has_owner(docs0, o) implies self.catalog_of(o)
                        == seq_catalog_of(docs0, o) by {
                        let i = seq_owner_index(docs0, o);
                        assert(0 <= i < docs0.len() && docs0[i].owner@ == o);
                        assert(docs[i].owner@ == o);
                        assert(self.has_owner(o));
                        self.lemma_owner_index(o);
                        assert(seq_owner_index(docs, o) == i);
                    }
                }
                true
            },
        }
    }

    /// Writes the owner's catalog document, replacing its resource list.
    /// Best-effort: reports whether the owner had a document to write; an
    /// unknown owner leaves everything unchanged.
    pub fn put_catalog(&mut self, owner: &String, resources: Vec<String>) -> (r: bool)
        requires
            old(self).wf(),
            distinct_names(resources@),
        ensures
            final(self).wf(),
            r == old(self).has_owner(owner@),
            final(self).live == old(self).live,
            final(self).backend@ == old(self).backend@,
            forall|o: Seq<char>| final(self).has_owner(o) == old(self).has_owner(o),
            r ==> final(self).catalog_of(owner@) == name_set(resources@),
            forall|o: Seq<char>|
                o != owner@ && old(self).has_owner(o) ==> final(self).catalog_of(o) == old(
                    self,
                ).catalog_of(o),
            !r ==> final(self).catalogs@ == old(self).catalogs@,
    {
        let ghost rset = name_set(resources@);
        match self.find_owner(owner) {
            Some(i) => {
                let ghost docs0 = self.catalogs@;
                let doc = self.catalogs.remove(i);
                self.catalogs.insert(i, CatalogDoc { owner: doc.owner, resources });
                proof {
                    let docs = self.catalogs@;
                    assert(docs.len() == docs0.len());
                    assert forall|j: int|
                        0 <= j < docs.len() && j != i implies docs[j] == docs0[j] by {}
                    assert(docs[i as int].owner@ == owner@);
                    assert(name_set(docs[i as int].resources@) == rset);
                    assert(old(self).has_owner(owner@));
                    old(self).lemma_owner_index(owner@);
                    assert(seq_owner_index(docs0, owner@) == i as int);
                    assert forall|jj: int, kk: int|
                        0 <= jj < kk < docs.len() implies docs[jj].owner@ != docs[kk].owner@ by {
                        assert(docs0[jj].owner@ != docs0[kk].owner@);
                        assert(docs[jj].owner@ == docs0[jj].owner@);
                        assert(docs[kk].owner@ == docs0[kk].owner@);
                    }
                    assert forall|o: Seq<char>|
                        self.has_owner(o) == seq_has_owner(docs0, o) by {
                        if seq_has_owner(docs0, o) {
                            let j = seq_owner_index(docs0, o);
                            assert(docs[j].owner@ == o);
                        }
                        if self.has_owner(o) {
                            let j = choose|j: int| 0 <= j < docs.len() && docs[j].owner@ == o;
                            assert(docs0[j].owner@ == o);
                        }
                    }
                    assert(self.has_owner(owner@));
                    self.lemma_owner_index(owner@);
                    assert(seq_owner_index(docs, owner@) == i as int);
                    assert(self.catalog_of(owner@) == rset);
                    assert forall|o: Seq<char>|
                        o != owner@ && seq_has_owner(docs0, o) implies self.catalog_of(o)
                        == seq_catalog_of(docs0, o) by {
                        let j = seq_owner_index(docs0, o);
                        assert(0 <= j < docs0.len() && docs0[j].owner@ == o);
                        assert(j != i as int);
                        assert(docs[j].owner@ == o);
                        assert(self.has_owner(o));
                        self.lemma_owner_index(o);
                        assert(seq_owner_index(docs, o) == j);
                        assert(docs[j].resources@ == docs0[j].resources@);
                    }
                }
                true
            },
            None => false,
        }
    }

    /// Probes the backend for a qualified name.
    pub fn resource_exists(&self, qualified: &String) -> (r: bool)
        ensures
            r == self.backend_has(qualified@),
    {
        contains_name(&self.backend, qualified)
    }

    /// The backend creates a resource under a qualified name; afterwards the
    /// name exists there. Reports whether it was newly created (a duplicate
    /// create is rejected by the backend). Shards and replicas configure the
    /// backend resource and have no bearing on existence.
    #[allow(unused_variables)]
    pub fn create_resource(&mut self, qualified: String, shards: Option<u32>, replicas: Option<
        u32,
    >) -> (r: bool)
        requires
            old(self).wf(),
        ensures
            final(self).wf(),
            r == !old(self).backend_has(qualified@),
            forall|q: Seq<char>|
                final(self).backend_has(q) == (old(self).backend_has(q) || q == qualified@),
            final(self).catalogs@ == old(self).catalogs@,
            final(self).live == old(self).live,
    {
        let r = !contains_name(&self.backend, &qualified);
        insert_name(&mut self.backend, qualified);
        r
    }

    /// The backend deletes the resource under a qualified name; afterwards
    /// the name does not exist there. Reports whether it was found.
    pub fn delete_resource(&mut self, qualified: &String) -> (r: bool)
        requires
            old(self).wf(),
        ensures
            final(self).wf(),
            r == old(self).backend_has(qualified@),
            forall|q: Seq<char>|
                final(self).backend_has(q) == (old(self).backend_has(q) && q != qualified@),
            final(self).catalogs@ == old(self).catalogs@,
            final(self).live == old(self).live,
    {
        let r = contains_name(&self.backend, qualified);
        remove_name(&mut self.backend, qualified);
        r
    }
}

} // verus!
