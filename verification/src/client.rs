//! Client records: opaque handles holding interned string identifiers.

use vstd::prelude::*;
use crate::table::{table_lookup, StringTable};

verus! {

/// A network client record. The address and the optional display name are
/// held as identifiers into a [`StringTable`]; the record itself is a small
/// copyable handle, so filtering a list never touches the underlying
/// entities.
#[derive(Clone, Copy, PartialEq, Eq, Debug)]
pub struct Client {
    pub query_count: usize,
    pub blocked_count: usize,
    pub ip_str_id: usize,
    pub name_str_id: Option<usize>,
}

/// The resolved address of a client, meaningful when the table resolves its
/// address identifier.
pub open spec fn spec_ip(c: Client, t: Seq<(usize, Seq<char>)>) -> Seq<char> {
    table_lookup(t, c.ip_str_id).unwrap()
}

/// The resolved display name of a client: absent when the client has no name
/// identifier or the table does not resolve it.
pub open spec fn spec_name(c: Client, t: Seq<(usize, Seq<char>)>) -> Option<Seq<char>> {
    match c.name_str_id {
        Some(id) => table_lookup(t, id),
        None => None,
    }
}

/// Every client in the sequence has a resolvable address.
pub open spec fn addresses_resolvable(cs: Seq<Client>, t: Seq<(usize, Seq<char>)>) -> bool {
    forall|i: int| 0 <= i < cs.len() ==> table_lookup(t, #[trigger] cs[i].ip_str_id) is Some
}

impl Client {
    /// Build a client record from its counters and string identifiers.
    pub fn new(
        query_count: usize,
        blocked_count: usize,
        ip_str_id: usize,
        name_str_id: Option<usize>,
    ) -> (r: Client)
        ensures
            r == (Client { query_count, blocked_count, ip_str_id, name_str_id }),
    {
        Client { query_count, blocked_count, ip_str_id, name_str_id }
    }

    /// Resolve this client's address. Addresses are required to be present.
    pub fn get_ip<'a>(&self, strings: &'a StringTable) -> (r: &'a String)
        requires
            table_lookup(strings@, self.ip_str_id) is Some,
        ensures
            r@ == spec_ip(*self, strings@),
    {
        strings.get(self.ip_str_id).unwrap()
    }

    /// Resolve this client's display name; absent when unset or unresolved.
    pub fn get_name<'a>(&self, strings: &'a StringTable) -> (r: Option<&'a String>)
        ensures
            match r {
                Some(s) => spec_name(*self, strings@) == Some(s@),
                None => spec_name(*self, strings@) is None,
            },
    {
        match self.name_str_id {
            Some(id) => strings.get(id),
            None => None,
        }
    }
}

} // verus!
