//! The two filtering predicates applied to a client list before it is
//! returned by the statistics API.

use vstd::prelude::*;
use crate::client::{addresses_resolvable, spec_ip, spec_name, Client};
use crate::config::{ConfigError, ConfigSource};
use crate::table::StringTable;
use crate::text::{
    chars_of, contains_chars, eq_chars, lower, lower_chars, nonempty_segments, split_commas,
    split_nonempty, views,
};

verus! {

/// The exclusion list derived from a raw configuration value: the value is
/// lower-cased, split on commas, and the empty segments are dropped.
pub open spec fn exclusion_tokens(raw: Seq<char>) -> Seq<Seq<char>> {
    nonempty_segments(split_commas(lower(raw)))
}

/// A client's display name, lower-cased, or the empty sequence when the
/// client has none.
pub open spec fn name_or_empty_lower(c: Client, t: Seq<(usize, Seq<char>)>) -> Seq<char> {
    match spec_name(c, t) {
        Some(n) => lower(n),
        None => Seq::<char>::empty(),
    }
}

/// A client matches exclusion when its address or its lower-cased name
/// appears in the exclusion list.
pub open spec fn excluded(c: Client, t: Seq<(usize, Seq<char>)>, list: Seq<Seq<char>>) -> bool {
    list.contains(spec_ip(c, t)) || list.contains(name_or_empty_lower(c, t))
}

/// The client list after exclusion filtering: the clients that do not match
/// the exclusion list derived from `raw`, in their original order.
pub open spec fn apply_exclusion(
    cs: Seq<Client>,
    t: Seq<(usize, Seq<char>)>,
    raw: Seq<char>,
) -> Seq<Client>
    decreases cs.len(),
{
    if cs.len() == 0 {
        Seq::<Client>::empty()
    } else {
        let rest = apply_exclusion(cs.drop_last(), t, raw);
        if excluded(cs.last(), t, exclusion_tokens(raw)) {
            rest
        } else {
            rest.push(cs.last())
        }
    }
}

/// The reserved placeholder address of a client anonymized for privacy.
pub open spec fn hidden_address() -> Seq<char> {
    "0.0.0.0"@
}

/// A client is hidden when its resolved address is the privacy placeholder.
pub open spec fn hidden(c: Client, t: Seq<(usize, Seq<char>)>) -> bool {
    spec_ip(c, t) == hidden_address()
}

/// The client list after privacy filtering: the clients whose address is not
/// the privacy placeholder, in their original order.
pub open spec fn apply_privacy(cs: Seq<Client>, t: Seq<(usize, Seq<char>)>) -> Seq<Client>
    decreases cs.len(),
{
    if cs.len() == 0 {
        Seq::<Client>::empty()
    } else {
        let rest = apply_privacy(cs.drop_last(), t);
        if hidden(cs.last(), t) {
            rest
        } else {
            rest.push(cs.last())
        }
    }
}

/// An exclusion list with no tokens excludes nobody.
pub proof fn lemma_apply_exclusion_all_kept(
    cs: Seq<Client>,
    t: Seq<(usize, Seq<char>)>,
    raw: Seq<char>,
)
    requires
        exclusion_tokens(raw).len() == 0,
    ensures
        apply_exclusion(cs, t, raw) == cs,
    decreases cs.len(),
{
    if cs.len() > 0 {
        lemma_apply_exclusion_all_kept(cs.drop_last(), t, raw);
        assert(apply_exclusion(cs, t, raw) =~= cs);
    } else {
        assert(apply_exclusion(cs, t, raw) =~= cs);
    }
}

/// Remove the clients that appear in the configured exclusion list, by
/// address or by lower-cased name. On a configuration read failure the list
/// is left unmodified and the error is returned.
pub fn remove_excluded_clients(
    clients: &mut Vec<Client>,
    config: &ConfigSource,
    strings: &StringTable,
) -> (r: Result<(), ConfigError>)
    requires
        addresses_resolvable(old(clients)@, strings@),
    ensures
        match config {
            ConfigSource::Available { exclusions } => r == Ok::<(), ConfigError>(()) && final(clients)@
                == apply_exclusion(old(clients)@, strings@, exclusions@),
            ConfigSource::Unreadable => r == Err::<(), ConfigError>(ConfigError::Unreadable)
                && final(clients)@ == old(clients)@,
        },
{
    let raw = match config {
        ConfigSource::Available { exclusions } => exclusions,
        ConfigSource::Unreadable => {
            return Err(ConfigError::Unreadable);
        },
    };
    let raw_chars = chars_of(raw.as_str());
    let low = lower_chars(&raw_chars);
    let tokens = split_nonempty(&low);
    proof {
        assert(views(tokens@) == exclusion_tokens(raw@));
    }
    if tokens.len() == 0 {
        proof {
            lemma_apply_exclusion_all_kept(clients@, strings@, raw@);
        }
        return Ok(());
    }
    let mut kept: Vec<Client> = Vec::new();
    let mut i: usize = 0;
    proof {
        assert(old(clients)@.take(0) =~= Seq::<Client>::empty());
        assert(kept@ =~= apply_exclusion(old(clients)@.take(0), strings@, raw@));
    }
    while i < clients.len()
        invariant
            addresses_resolvable(clients@, strings@),
            clients@ == old(clients)@,
            views(tokens@) == exclusion_tokens(raw@),
            0 <= i <= clients@.len(),
            kept@ == apply_exclusion(old(clients)@.take(i as int), strings@, raw@),
        decreases clients@.len() - i,
    {
        let c = clients[i];
        let ip = c.get_ip(strings);
        let ip_chars = chars_of(ip.as_str());
        let ip_in = contains_chars(&tokens, &ip_chars);
        let name_lower = match c.get_name(strings) {
            Some(n) => lower_chars(&chars_of(n.as_str())),
            None => Vec::new(),
        };
        proof {
            assert(name_lower@ == name_or_empty_lower(c, strings@));
        }
        let name_in = contains_chars(&tokens, &name_lower);
        if !ip_in && !name_in {
            kept.push(c);
        }
        i = i + 1;
        proof {
            let pre = old(clients)@.take(i as int);
            assert(pre.drop_last() =~= old(clients)@.take(i as int - 1));
            assert(pre.last() == c);
            assert(kept@ =~= apply_exclusion(pre, strings@, raw@));
        }
    }
    proof {
        assert(old(clients)@.take(clients@.len() as int) =~= old(clients)@);
    }
    *clients = kept;
    Ok(())
}

/// Remove the clients marked as hidden by the privacy level: those whose
/// resolved address is the reserved placeholder.
pub fn remove_hidden_clients(clients: &mut Vec<Client>, strings: &StringTable)
    requires
        addresses_resolvable(old(clients)@, strings@),
    ensures
        final(clients)@ == apply_privacy(old(clients)@, strings@),
{
    let sentinel = chars_of("0.0.0.0");
    let mut kept: Vec<Client> = Vec::new();
    let mut i: usize = 0;
    proof {
        assert(old(clients)@.take(0) =~= Seq::<Client>::empty());
        assert(kept@ =~= apply_privacy(old(clients)@.take(0), strings@));
    }
    while i < clients.len()
        invariant
            addresses_resolvable(clients@, strings@),
            clients@ == old(clients)@,
            sentinel@ == hidden_address(),
            0 <= i <= clients@.len(),
            kept@ == apply_privacy(old(clients)@.take(i as int), strings@),
        decreases clients@.len() - i,
    {
        let c = clients[i];
        let ip = c.get_ip(strings);
        let ip_chars = chars_of(ip.as_str());
        if !eq_chars(&ip_chars, &sentinel) {
            kept.push(c);
        }
        i = i + 1;
        proof {
            let pre = old(clients)@.take(i as int);
            assert(pre.drop_last() =~= old(clients)@.take(i as int - 1));
            assert(pre.last() == c);
            assert(kept@ =~= apply_privacy(pre, strings@));
        }
    }
    proof {
        assert(old(clients)@.take(clients@.len() as int) =~= old(clients)@);
    }
    *clients = kept;
}

} // verus!
