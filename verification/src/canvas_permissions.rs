//! The per-user table of canvas permissions carried in claims.

use crate::assoc::{
    has_key, lemma_map_of_dom, lemma_map_of_index, lemma_map_of_len, lemma_map_of_remove,
    lemma_map_of_update, map_of, unique_keys,
};
use vstd::prelude::*;

verus! {

/// Which permission code a user holds on which canvas. A canvas that is
/// not listed is a canvas without access.
#[derive(Debug)]
pub struct CanvasPermissions {
    entries: Vec<(String, String)>,
}

impl View for CanvasPermissions {
    type V = Map<Seq<char>, Seq<char>>;

    /// Canvas id to permission code.
    closed spec fn view(&self) -> Map<Seq<char>, Seq<char>> {
        map_of(self.pairs())
    }
}

impl CanvasPermissions {
    /// The entries in the order they are held: canvas id, then code.
    pub closed spec fn pairs(&self) -> Seq<(Seq<char>, Seq<char>)> {
        Seq::new(self.entries@.len(), |i: int| (self.entries@[i].0@, self.entries@[i].1@))
    }

    #[verifier::type_invariant]
    spec fn well_formed(&self) -> bool {
        unique_keys(self.pairs())
    }

    /// The empty table.
    pub fn new() -> (table: Self)
        ensures
            table@ == Map::<Seq<char>, Seq<char>>::empty(),
            table.pairs() == Seq::<(Seq<char>, Seq<char>)>::empty(),
    {
        let table = CanvasPermissions { entries: Vec::new() };
        assert(table.pairs() =~= Seq::empty());
        table
    }

    /// Number of canvases listed.
    pub fn len(&self) -> (n: usize)
        ensures
            n == self@.dom().len(),
            n == self.pairs().len(),
    {
        proof {
            use_type_invariant(self);
            lemma_map_of_len(self.pairs());
        }
        self.entries.len()
    }

    /// Where `canvas_id` is listed, if it is.
    fn position(&self, canvas_id: &str) -> (at: Option<usize>)
        ensures
            match at {
                Some(i) => i < self.pairs().len() && self.pairs()[i as int].0 == canvas_id@,
                None => !has_key(self.pairs(), canvas_id@),
            },
    {
        let key = canvas_id.to_owned();
        let mut i: usize = 0;
        while i < self.entries.len()
            invariant
                i <= self.entries.len(),
                key@ == canvas_id@,
                forall|j: int| 0 <= j < i ==> (#[trigger] self.pairs()[j]).0 != canvas_id@,
            decreases self.entries.len() - i,
        {
            if self.entries[i].0 == key {
                return Some(i);
            }
            i = i + 1;
        }
        None
    }

    /// The code held on `canvas_id`, if the canvas is listed.
    pub fn get(&self, canvas_id: &str) -> (code: Option<&String>)
        ensures
            match code {
                Some(code) => self@.contains_key(canvas_id@) && code@ == self@[canvas_id@],
                None => !self@.contains_key(canvas_id@),
            },
    {
        proof {
            use_type_invariant(self);
            lemma_map_of_dom(self.pairs(), canvas_id@);
        }
        match self.position(canvas_id) {
            Some(i) => {
                proof {
                    lemma_map_of_index(self.pairs(), i as int);
                }
                Some(&self.entries[i].1)
            },
            None => None,
        }
    }

    /// Whether `canvas_id` is listed.
    pub fn contains_key(&self, canvas_id: &str) -> (listed: bool)
        ensures
            listed == self@.contains_key(canvas_id@),
    {
        self.get(canvas_id).is_some()
    }

    /// Sets the code held on `canvas_id`, listing the canvas if it was not.
    /// A canvas already listed keeps its place; a new one goes last.
    pub fn insert(&mut self, canvas_id: String, code: String)
        ensures
            final(self)@ == old(self)@.insert(canvas_id@, code@),
            old(self)@.contains_key(canvas_id@) ==> exists|i: int|
                0 <= i < old(self).pairs().len() && (#[trigger] old(self).pairs()[i]).0 == canvas_id@
                    && final(self).pairs() == old(self).pairs().update(i, (canvas_id@, code@)),
            !old(self)@.contains_key(canvas_id@) ==> final(self).pairs() == old(self).pairs().push(
                (canvas_id@, code@),
            ),
    {
        proof {
            use_type_invariant(&*self);
            lemma_map_of_dom(self.pairs(), canvas_id@);
        }
        let ghost before = self.pairs();
        match self.position(canvas_id.as_str()) {
            Some(i) => {
                proof {
                    lemma_map_of_update(before, i as int, code@);
                }
                let mut entries = Vec::new();
                std::mem::swap(&mut entries, &mut self.entries);
                entries.set(i, (canvas_id, code));
                assert(Seq::new(entries@.len(), |j: int| (entries@[j].0@, entries@[j].1@))
                    =~= before.update(i as int, (before[i as int].0, code@)));
                self.entries = entries;
            },
            None => {
                let mut entries = Vec::new();
                std::mem::swap(&mut entries, &mut self.entries);
                entries.push((canvas_id, code));
                assert(Seq::new(entries@.len(), |j: int| (entries@[j].0@, entries@[j].1@))
                    =~= before.push((canvas_id@, code@)));
                assert(unique_keys(before.push((canvas_id@, code@)))) by {
                    let after = before.push((canvas_id@, code@));
                    assert forall|a: int, b: int| 0 <= a < b < after.len() implies (
                    #[trigger] after[a]).0 != (#[trigger] after[b]).0 by {
                        if b == before.len() {
                            assert(before[a].0 != canvas_id@);
                        } else {
                            assert(before[a].0 != before[b].0);
                        }
                    }
                }
                assert(before.push((canvas_id@, code@)).drop_last() =~= before);
                self.entries = entries;
            },
        }
    }

    /// Takes `canvas_id` off the table and says whether it was listed. The
    /// other canvases keep their order.
    pub fn remove(&mut self, canvas_id: &str) -> (was_listed: bool)
        ensures
            was_listed == old(self)@.contains_key(canvas_id@),
            final(self)@ == old(self)@.remove(canvas_id@),
            was_listed ==> exists|i: int|
                0 <= i < old(self).pairs().len() && (#[trigger] old(self).pairs()[i]).0 == canvas_id@
                    && final(self).pairs() == old(self).pairs().remove(i),
            !was_listed ==> final(self).pairs() == old(self).pairs(),
    {
        proof {
            use_type_invariant(&*self);
            lemma_map_of_dom(self.pairs(), canvas_id@);
        }
        let ghost before = self.pairs();
        match self.position(canvas_id) {
            Some(i) => {
                proof {
                    lemma_map_of_remove(before, i as int);
                }
                let mut entries = Vec::new();
                std::mem::swap(&mut entries, &mut self.entries);
                entries.remove(i);
                assert(Seq::new(entries@.len(), |j: int| (entries@[j].0@, entries@[j].1@))
                    =~= before.remove(i as int));
                self.entries = entries;
                true
            },
            None => {
                assert(self@ =~= self@.remove(canvas_id@));
                false
            },
        }
    }

    /// The canvas id and code of the `i`-th entry of the listing.
    pub fn entry(&self, i: usize) -> (pair: (&String, &String))
        requires
            i < self.pairs().len(),
        ensures
            pair.0@ == self.pairs()[i as int].0,
            pair.1@ == self.pairs()[i as int].1,
            self@.contains_key(pair.0@),
            self@[pair.0@] == pair.1@,
    {
        proof {
            use_type_invariant(self);
            lemma_map_of_index(self.pairs(), i as int);
        }
        (&self.entries[i].0, &self.entries[i].1)
    }
}

/// The views of a list of canvas id and code pairs.
pub open spec fn pair_views(rows: Seq<(String, String)>) -> Seq<(Seq<char>, Seq<char>)> {
    Seq::new(rows.len(), |i: int| (rows[i].0@, rows[i].1@))
}

impl CanvasPermissions {
    /// The table that a list of rows stands for. Where a canvas occurs in
    /// several rows, the last of them counts.
    pub fn from_rows(rows: &Vec<(String, String)>) -> (table: Self)
        ensures
            table@ == map_of(pair_views(rows@)),
    {
        let mut table = CanvasPermissions::new();
        let mut i: usize = 0;
        while i < rows.len()
            invariant
                i <= rows.len(),
                table@ == map_of(pair_views(rows@).take(i as int)),
            decreases rows.len() - i,
        {
            proof {
                let all = pair_views(rows@);
                assert(all.take(i + 1).drop_last() =~= all.take(i as int));
                assert(all.take(i + 1).last() == (rows@[i as int].0@, rows@[i as int].1@));
            }
            table.insert(rows[i].0.clone(), rows[i].1.clone());
            i = i + 1;
        }
        assert(pair_views(rows@).take(rows.len() as int) =~= pair_views(rows@));
        table
    }
}

impl Clone for CanvasPermissions {
    /// A copy with the same entries in the same order.
    fn clone(&self) -> (copy: Self)
        ensures
            copy@ == self@,
            copy.pairs() == self.pairs(),
    {
        proof {
            use_type_invariant(self);
        }
        let mut entries: Vec<(String, String)> = Vec::new();
        let mut i: usize = 0;
        while i < self.entries.len()
            invariant
                i <= self.entries.len(),
                entries@.len() == i,
                forall|j: int|
                    0 <= j < i ==> (#[trigger] entries@[j]).0@ == self.entries@[j].0@ && entries@[j].1@
                        == self.entries@[j].1@,
            decreases self.entries.len() - i,
        {
            entries.push((self.entries[i].0.clone(), self.entries[i].1.clone()));
            i = i + 1;
        }
        assert(Seq::new(entries@.len(), |j: int| (entries@[j].0@, entries@[j].1@)) =~= self.pairs());
        CanvasPermissions { entries }
    }
}

} // verus!
