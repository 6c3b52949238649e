//! The test registry.
//!
//! The registry is the single source of truth for which conformance tests
//! exist, what tags they carry, and a human description.

use vstd::prelude::*;

use crate::text::same;

verus! {

/// Every registered conformance test, in declaration order.
#[derive(Debug, Clone)]
pub struct Registry {
    pub test: Vec<TestEntry>,
}

/// One registered conformance test.
#[derive(Debug, Clone)]
pub struct TestEntry {
    /// Stable test id (matches the guest's corpus and adapter results).
    pub id: String,
    /// Tags used by manifests to declare whole groups unsupported.
    pub tags: Vec<String>,
    /// Human-readable description of what the test asserts.
    pub description: String,
}

/// Why a registry is not usable.
#[derive(Debug, Clone)]
pub enum RegistryError {
    /// An entry has an empty id.
    EmptyId,
    /// An id is registered twice.
    DuplicateId(String),
}

impl RegistryError {
    /// The message of this error.
    pub open spec fn text(self) -> Seq<char> {
        match self {
            RegistryError::EmptyId => "test registry contains an entry with an empty id"@,
            RegistryError::DuplicateId(id) => "test registry contains duplicate test id `"@ + id@
                + "`"@,
        }
    }

    /// The message of this error.
    pub fn message(&self) -> (r: String)
        ensures
            r@ == self.text(),
    {
        match self {
            RegistryError::EmptyId => "test registry contains an entry with an empty id".to_string(),
            RegistryError::DuplicateId(id) => {
                let mut s = "test registry contains duplicate test id `".to_string();
                s.append(id.as_str());
                s.append("`");
                s
            },
        }
    }
}

/// The ids of a list of entries.
pub open spec fn ids(entries: Seq<TestEntry>) -> Seq<Seq<char>> {
    entries.map_values(|t: TestEntry| t.id@)
}

/// The entry at `i` cannot stand: its id is empty or stands earlier already.
pub open spec fn offends(ids: Seq<Seq<char>>, i: int) -> bool {
    ids[i].len() == 0 || ids.take(i).contains(ids[i])
}

impl Registry {
    /// Every id is non-empty and registered once.
    pub open spec fn valid(self) -> bool {
        &&& forall|i: int|
            0 <= i < self.test@.len() ==> (#[trigger] ids(self.test@)[i]).len() > 0
        &&& ids(self.test@).no_duplicates()
    }

    /// Check that every id is non-empty and registered once. The error is that
    /// of the first entry that cannot stand.
    pub fn validate(&self) -> (r: Result<(), RegistryError>)
        ensures
            r is Ok == self.valid(),
            r matches Err(e) ==> exists|i: int|
                0 <= i < self.test@.len() && #[trigger] offends(ids(self.test@), i) && (forall|k: int|
                    0 <= k < i ==> !#[trigger] offends(ids(self.test@), k)) && match e {
                    RegistryError::EmptyId => ids(self.test@)[i].len() == 0,
                    RegistryError::DuplicateId(id) => ids(self.test@)[i].len() > 0 && id@ == ids(
                        self.test@,
                    )[i],
                },
    {
        let ghost all = ids(self.test@);
        let mut i: usize = 0;
        while i < self.test.len()
            invariant
                i <= self.test.len(),
                all == ids(self.test@),
                forall|k: int| 0 <= k < i ==> !#[trigger] offends(all, k),
            decreases self.test.len() - i,
        {
            assert(all[i as int] == self.test@[i as int].id@);
            if self.test[i].id.as_str().is_empty() {
                assert(offends(all, i as int));
                return Err(RegistryError::EmptyId);
            }
            let mut k: usize = 0;
            while k < i
                invariant
                    k <= i < self.test.len(),
                    all == ids(self.test@),
                    all[i as int].len() > 0,
                    forall|j: int| 0 <= j < i ==> !#[trigger] offends(all, j),
                    forall|j: int| 0 <= j < k ==> all[j] != all[i as int],
                decreases i - k,
            {
                if same(self.test[k].id.as_str(), self.test[i].id.as_str()) {
                    assert(all.take(i as int)[k as int] == all[i as int]);
                    assert(offends(all, i as int));
                    assert(!all.no_duplicates()) by {
                        assert(all[k as int] == all[i as int]);
                    }
                    return Err(RegistryError::DuplicateId(self.test[i].id.clone()));
                }
                k += 1;
            }
            assert(!all.take(i as int).contains(all[i as int]));
            i += 1;
        }
        assert forall|a: int, b: int| 0 <= a < all.len() && 0 <= b < all.len() && a != b implies all[a]
            != all[b] by {
            let (lo, hi) = if a < b {
                (a, b)
            } else {
                (b, a)
            };
            assert(!offends(all, hi));
            assert(all.take(hi)[lo] == all[lo]);
        }
        assert forall|k: int| 0 <= k < all.len() implies (#[trigger] all[k]).len() > 0 by {
            assert(!offends(all, k));
        }
        Ok(())
    }

    /// Look up a test by id: the first entry with it.
    pub fn get(&self, id: &str) -> (r: Option<&TestEntry>)
        ensures
            r is Some == ids(self.test@).contains(id@),
            r matches Some(t) ==> exists|i: int|
                0 <= i < self.test@.len() && *t == self.test@[i] && #[trigger] ids(self.test@)[i] == id@
                    && !ids(self.test@).take(i).contains(id@),
    {
        let ghost all = ids(self.test@);
        let mut i: usize = 0;
        while i < self.test.len()
            invariant
                i <= self.test.len(),
                all == ids(self.test@),
                forall|k: int| 0 <= k < i ==> all[k] != id@,
            decreases self.test.len() - i,
        {
            assert(all[i as int] == self.test@[i as int].id@);
            if same(self.test[i].id.as_str(), id) {
                assert(!all.take(i as int).contains(id@));
                return Some(&self.test[i]);
            }
            i += 1;
        }
        None
    }
}

// ----- laws ----------------------------------------------------------------------------------------

/// An entry can stand exactly if its id holds something and no earlier entry has the
/// same; so every id of a registry without offending entries leads to one entry alone.
pub proof fn law_ids_lead_to_one_entry(all: Seq<Seq<char>>)
    requires
        forall|i: int| 0 <= i < all.len() ==> !#[trigger] offends(all, i),
    ensures
        forall|i: int| 0 <= i < all.len() ==> (#[trigger] all[i]) != Seq::<char>::empty(),
        forall|i: int, j: int|
            0 <= i < all.len() && 0 <= j < all.len() && #[trigger] all[i] == #[trigger] all[j] ==> i
                == j,
{
    assert forall|i: int| 0 <= i < all.len() implies (#[trigger] all[i]) != Seq::<char>::empty() by {
        assert(!offends(all, i));
    }
    assert forall|i: int, j: int|
        0 <= i < all.len() && 0 <= j < all.len() && #[trigger] all[i] == #[trigger] all[j] implies i
        == j by {
        assert(!offends(all, i));
        assert(!offends(all, j));
        if i < j {
            assert(all.take(j)[i] == all[j]);
        }
        if j < i {
            assert(all.take(i)[j] == all[i]);
        }
    }
}

/// Adding an entry to a usable registry keeps it usable exactly if the new id holds
/// something and is not registered yet.
pub proof fn law_a_new_id_has_to_be_new(before: Registry, after: Registry, entry: TestEntry)
    requires
        before.valid(),
        after.test@ == before.test@.push(entry),
    ensures
        after.valid() <==> entry.id@.len() > 0 && forall|i: int|
            0 <= i < before.test@.len() ==> (#[trigger] before.test@[i]).id@ != entry.id@,
{
    let n = before.test@.len() as int;
    let old_ids = ids(before.test@);
    let new_ids = ids(after.test@);
    assert(new_ids =~= old_ids.push(entry.id@));
    assert(new_ids[n] == entry.id@);
    assert forall|i: int| 0 <= i < n implies new_ids[i] == (#[trigger] before.test@[i]).id@ by {
        assert(old_ids[i] == before.test@[i].id@);
    }
    if after.valid() {
        assert forall|i: int| 0 <= i < n implies (#[trigger] before.test@[i]).id@ != entry.id@ by {
            assert(new_ids[i] != new_ids[n]);
        }
    } else if entry.id@.len() > 0 {
        if forall|i: int| 0 <= i < n ==> (#[trigger] before.test@[i]).id@ != entry.id@ {
            assert forall|i: int| 0 <= i < new_ids.len() implies (#[trigger] new_ids[i]).len() > 0 by {
                if i < n {
                    assert(old_ids[i].len() > 0);
                }
            }
            assert forall|i: int, j: int| 0 <= i < new_ids.len() && 0 <= j < new_ids.len() && i
                != j implies new_ids[i] != new_ids[j] by {
                if i < n {
                    assert(old_ids[i] == before.test@[i].id@);
                }
                if j < n {
                    assert(old_ids[j] == before.test@[j].id@);
                }
            }
        }
    }
}

/// The message of a duplicate names the id that stands twice, between backquotes; that of
/// an empty id names none.
pub proof fn law_messages_name_the_duplicate(id: String)
    ensures
        RegistryError::DuplicateId(id).text() == "test registry contains duplicate test id `"@ + id@
            + "`"@,
        RegistryError::EmptyId.text() == "test registry contains an entry with an empty id"@,
{
}

} // verus!
