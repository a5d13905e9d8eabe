//! The option registry: an immutable table mapping an option code to its
//! negotiation posture. Built once at startup and shared read-only across
//! connections; entries keep their insertion order, so everything the engine
//! derives from the table is deterministic.

use crate::options::TelnetOption;
use vstd::prelude::*;

verus! {

/// One registry row: an option code and its posture.
#[derive(Clone, Copy, PartialEq, Eq, Structural, Debug)]
pub struct TelnetOptionEntry {
    pub code: u8,
    pub option: TelnetOption,
}

/// The code of each row, in table order.
pub open spec fn codes_of(entries: Seq<TelnetOptionEntry>) -> Seq<u8> {
    entries.map_values(|e: TelnetOptionEntry| e.code)
}

/// The registry itself. The table is private: it can only be built through
/// [`TelnetOptionRegistry::register`], which keeps the codes unique.
#[derive(Debug)]
pub struct TelnetOptionRegistry {
    table: Vec<TelnetOptionEntry>,
}

impl TelnetOptionRegistry {
    /// The rows of the table, in insertion order.
    pub closed spec fn entries(self) -> Seq<TelnetOptionEntry> {
        self.table@
    }

    /// The option codes of the table, in insertion order.
    pub open spec fn codes(self) -> Seq<u8> {
        codes_of(self.entries())
    }

    /// Each option code appears in at most one row.
    pub open spec fn wf(self) -> bool {
        forall|i: int, j: int|
            0 <= i < j < self.codes().len() ==> self.codes()[i] != self.codes()[j]
    }

    /// Whether some row carries this code.
    pub open spec fn spec_contains(self, code: u8) -> bool {
        self.codes().contains(code)
    }

    /// The index of the row carrying this code (meaningful only when
    /// `spec_contains(code)` holds).
    pub open spec fn index_of(self, code: u8) -> int {
        choose|i: int| 0 <= i < self.entries().len() && self.entries()[i].code == code
    }

    /// The posture registered for this code (meaningful only when
    /// `spec_contains(code)` holds).
    pub open spec fn spec_get(self, code: u8) -> TelnetOption {
        self.entries()[self.index_of(code)].option
    }

    /// A contained code has a row, and `index_of` finds it.
    pub proof fn lemma_contains_index(self, code: u8)
        requires
            self.spec_contains(code),
        ensures
            0 <= self.index_of(code) < self.entries().len(),
            self.entries()[self.index_of(code)].code == code,
            self.codes()[self.index_of(code)] == code,
    {
        let j = choose|j: int| 0 <= j < self.codes().len() && self.codes()[j] == code;
        assert(self.entries()[j].code == code);
    }

    /// Under well-formedness, a row's index is the one `index_of` gives.
    pub proof fn lemma_index_unique(self, code: u8, i: int)
        requires
            self.wf(),
            0 <= i < self.entries().len(),
            self.entries()[i].code == code,
        ensures
            self.spec_contains(code),
            self.index_of(code) == i,
    {
        assert(self.codes()[i] == code);
        self.lemma_contains_index(code);
        let k = self.index_of(code);
        assert(self.codes()[k] == code);
        if k != i {
            assert(false);
        }
    }

    /// An empty registry.
    pub fn new() -> (r: Self)
        ensures
            r.entries() == Seq::<TelnetOptionEntry>::empty(),
            r.wf(),
    {
        TelnetOptionRegistry { table: Vec::new() }
    }

    /// Registers a posture for an option code: a new row for a new code, or
    /// the existing row overwritten for a code already present.
    pub fn register(&mut self, code: u8, option: TelnetOption)
        requires
            old(self).wf(),
        ensures
            final(self).wf(),
            final(self).spec_contains(code),
            final(self).spec_get(code) == option,
            forall|c: u8|
                #[trigger] final(self).spec_contains(c) == (old(self).spec_contains(c) || c
                    == code),
            forall|c: u8|
                old(self).spec_contains(c) && c != code ==> #[trigger] final(self).spec_get(c)
                    == old(self).spec_get(c),
            old(self).spec_contains(code) ==> final(self).entries() == old(self).entries().update(
                old(self).index_of(code),
                (TelnetOptionEntry { code, option }),
            ),
            !old(self).spec_contains(code) ==> final(self).entries() == old(self).entries().push(
                (TelnetOptionEntry { code, option }),
            ),
    {
        let entry = TelnetOptionEntry { code, option };
        let n = self.table.len();
        for i in 0..n
            invariant
                n == self.table.len(),
                self.table@ == old(self).table@,
                old(self).wf(),
                forall|j: int| 0 <= j < i ==> self.table@[j].code != code,
                self.wf(),
                entry == (TelnetOptionEntry { code, option }),
        {
            if self.table[i].code == code {
                proof {
                    old(self).lemma_index_unique(code, i as int);
                }
                self.table[i] = entry;
                proof {
                    assert(self.codes() =~= old(self).codes().update(i as int, code));
                    assert(self.codes() =~= old(self).codes());
                    self.lemma_index_unique(code, i as int);
                    assert forall|c: u8|
                        old(self).spec_contains(c) && c != code implies #[trigger] self.spec_get(c)
                        == old(self).spec_get(c) by {
                        old(self).lemma_contains_index(c);
                        let k = old(self).index_of(c);
                        assert(self.entries()[k].code == c);
                        self.lemma_index_unique(c, k);
                    }
                }
                return ;
            }
        }
        proof {
            if old(self).spec_contains(code) {
                old(self).lemma_contains_index(code);
            }
        }
        self.table.push(entry);
        proof {
            let pre = old(self).table@;
            assert(self.codes() =~= old(self).codes().push(code));
            assert forall|i: int, j: int|
                0 <= i < j < self.codes().len() implies self.codes()[i] != self.codes()[j] by {
                if j < pre.len() {
                    assert(old(self).codes()[i] == self.codes()[i]);
                    assert(old(self).codes()[j] == self.codes()[j]);
                } else {
                    assert(self.codes()[j] == code);
                    assert(old(self).codes()[i] == self.codes()[i]);
                    if self.codes()[i] == code {
                        assert(old(self).spec_contains(code));
                        assert(false);
                    }
                }
            }
            self.lemma_index_unique(code, pre.len() as int);
            assert forall|c: u8| #[trigger]
                self.spec_contains(c) == (old(self).spec_contains(c) || c == code) by {
                if old(self).spec_contains(c) {
                    old(self).lemma_contains_index(c);
                    let k = old(self).index_of(c);
                    assert(self.codes()[k] == c);
                }
                if self.spec_contains(c) && c != code {
                    self.lemma_contains_index(c);
                    let k = self.index_of(c);
                    assert(old(self).codes()[k] == c);
                }
            }
            assert forall|c: u8|
                old(self).spec_contains(c) && c != code implies #[trigger] self.spec_get(c)
                    == old(self).spec_get(c) by {
                old(self).lemma_contains_index(c);
                let k = old(self).index_of(c);
                assert(self.entries()[k].code == c);
                self.lemma_index_unique(c, k);
            }
        }
    }

    /// Looks up the posture registered for a code.
    pub fn get(&self, code: u8) -> (r: Option<TelnetOption>)
        requires
            self.wf(),
        ensures
            r matches Some(opt) ==> self.spec_contains(code) && opt == self.spec_get(code),
            r is None ==> !self.spec_contains(code),
    {
        let n = self.table.len();
        for i in 0..n
            invariant
                n == self.table.len(),
                self.wf(),
                forall|j: int| 0 <= j < i ==> self.table@[j].code != code,
        {
            if self.table[i].code == code {
                proof {
                    self.lemma_index_unique(code, i as int);
                }
                return Some(self.table[i].option);
            }
        }
        proof {
            if self.spec_contains(code) {
                self.lemma_contains_index(code);
            }
        }
        None
    }

    /// The number of rows.
    pub fn count(&self) -> (n: usize)
        ensures
            n == self.entries().len(),
    {
        self.table.len()
    }

    /// The row at an index, for deterministic iteration over the table.
    pub fn entry_at(&self, i: usize) -> (e: TelnetOptionEntry)
        requires
            i < self.entries().len(),
        ensures
            e == self.entries()[i as int],
    {
        self.table[i]
    }
}

} // verus!
