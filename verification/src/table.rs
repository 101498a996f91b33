//! The string table: resolves interned identifiers to their string values.

use vstd::prelude::*;

verus! {

/// Look an identifier up in a table view. A later entry for the same
/// identifier replaces an earlier one.
pub open spec fn table_lookup(t: Seq<(usize, Seq<char>)>, id: usize) -> Option<Seq<char>>
    decreases t.len(),
{
    if t.len() == 0 {
        None
    } else if t.last().0 == id {
        Some(t.last().1)
    } else {
        table_lookup(t.drop_last(), id)
    }
}

/// A table resolving interned string identifiers to their values.
///
/// Client records hold identifiers into such a table; the filters resolve a
/// client's address and name through it.
pub struct StringTable {
    entries: Vec<(usize, String)>,
}

impl View for StringTable {
    type V = Seq<(usize, Seq<char>)>;

    closed spec fn view(&self) -> Seq<(usize, Seq<char>)> {
        self.entries@.map_values(|e: (usize, String)| (e.0, e.1@))
    }
}

impl StringTable {
    /// An empty table.
    pub fn new() -> (r: StringTable)
        ensures
            r@ == Seq::<(usize, Seq<char>)>::empty(),
    {
        let r = StringTable { entries: Vec::new() };
        proof {
            assert(r@ =~= Seq::<(usize, Seq<char>)>::empty());
        }
        r
    }

    /// Add an entry; it shadows any earlier entry for the same identifier.
    pub fn insert(&mut self, id: usize, value: String)
        ensures
            final(self)@ == old(self)@.push((id, value@)),
    {
        let ghost v = value@;
        self.entries.push((id, value));
        proof {
            assert(self@ =~= old(self)@.push((id, v)));
        }
    }

    /// Resolve an identifier to its string value, if the table holds one.
    pub fn get(&self, id: usize) -> (r: Option<&String>)
        ensures
            match r {
                Some(s) => table_lookup(self@, id) == Some(s@),
                None => table_lookup(self@, id) is None,
            },
    {
        let mut i: usize = self.entries.len();
        proof {
            assert(self@.len() == self.entries@.len());
            assert(self@.take(i as int) =~= self@);
        }
        while i > 0
            invariant
                0 <= i <= self@.len(),
                table_lookup(self@, id) == table_lookup(self@.take(i as int), id),
            decreases i,
        {
            proof {
                assert(self@.take(i as int).last() == self@[i as int - 1]);
                assert(self@.take(i as int).drop_last() =~= self@.take(i as int - 1));
            }
            if self.entries[i - 1].0 == id {
                return Some(&self.entries[i - 1].1);
            }
            i = i - 1;
        }
        proof {
            assert(self@.take(0) =~= Seq::<(usize, Seq<char>)>::empty());
        }
        None
    }
}

} // verus!
