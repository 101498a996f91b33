//! General properties of the two filters, stated and proved once for all
//! inputs.

use vstd::prelude::*;
use crate::client::{spec_ip, spec_name, Client};
use crate::filters::{
    apply_exclusion, apply_privacy, excluded, exclusion_tokens, hidden, lemma_apply_exclusion_all_kept,
    name_or_empty_lower,
};
use crate::text::{
    lemma_lower_idempotent, lemma_nonempty_segments_all_empty, lemma_nonempty_segments_contains,
    lemma_split_lower, lower, split_commas,
};

verus! {

/// A pushed element is in a sequence exactly when it is the pushed value or
/// was there before.
proof fn lemma_push_contains<A>(s: Seq<A>, x: A, v: A)
    ensures
        s.push(x).contains(v) <==> (s.contains(v) || v == x),
{
    assert(s.push(x)[s.len() as int] == x);
    if s.contains(v) {
        let j = choose|j: int| 0 <= j < s.len() && s[j] == v;
        assert(s.push(x)[j] == v);
    }
    if s.push(x).contains(v) && v != x {
        let j = choose|j: int| 0 <= j < s.push(x).len() && s.push(x)[j] == v;
        assert(s[j] == v);
    }
}

/// Every client the exclusion filter keeps does not match the exclusion list.
proof fn lemma_apply_exclusion_elements(cs: Seq<Client>, t: Seq<(usize, Seq<char>)>, raw: Seq<char>)
    ensures
        forall|i: int| 0 <= i < apply_exclusion(cs, t, raw).len() ==> !excluded(
            #[trigger] apply_exclusion(cs, t, raw)[i],
            t,
            exclusion_tokens(raw),
        ),
    decreases cs.len(),
{
    if cs.len() > 0 {
        lemma_apply_exclusion_elements(cs.drop_last(), t, raw);
        let rest = apply_exclusion(cs.drop_last(), t, raw);
        let res = apply_exclusion(cs, t, raw);
        if !excluded(cs.last(), t, exclusion_tokens(raw)) {
            assert forall|i: int| 0 <= i < res.len() implies !excluded(
                res[i],
                t,
                exclusion_tokens(raw),
            ) by {
                if i < rest.len() {
                    assert(res[i] == rest[i]);
                } else {
                    assert(res[i] == cs.last());
                }
            }
        }
    }
}

/// The exclusion filter keeps a list unchanged when no element of it matches.
proof fn lemma_apply_exclusion_identity(cs: Seq<Client>, t: Seq<(usize, Seq<char>)>, raw: Seq<char>)
    requires
        forall|i: int| 0 <= i < cs.len() ==> !excluded(#[trigger] cs[i], t, exclusion_tokens(raw)),
    ensures
        apply_exclusion(cs, t, raw) == cs,
    decreases cs.len(),
{
    if cs.len() > 0 {
        lemma_apply_exclusion_identity(cs.drop_last(), t, raw);
        assert(apply_exclusion(cs, t, raw) =~= cs);
    } else {
        assert(apply_exclusion(cs, t, raw) =~= cs);
    }
}

/// A client value that matches the exclusion list never appears in the
/// exclusion filter's output.
proof fn lemma_excluded_not_kept(cs: Seq<Client>, t: Seq<(usize, Seq<char>)>, raw: Seq<char>, v: Client)
    requires
        excluded(v, t, exclusion_tokens(raw)),
    ensures
        !apply_exclusion(cs, t, raw).contains(v),
    decreases cs.len(),
{
    if cs.len() > 0 {
        lemma_excluded_not_kept(cs.drop_last(), t, raw, v);
        if !excluded(cs.last(), t, exclusion_tokens(raw)) {
            lemma_push_contains(apply_exclusion(cs.drop_last(), t, raw), cs.last(), v);
        }
    }
}

/// A client value that does not match the exclusion list is kept.
proof fn lemma_not_excluded_kept(cs: Seq<Client>, t: Seq<(usize, Seq<char>)>, raw: Seq<char>, v: Client)
    requires
        cs.contains(v),
        !excluded(v, t, exclusion_tokens(raw)),
    ensures
        apply_exclusion(cs, t, raw).contains(v),
    decreases cs.len(),
{
    let rest = apply_exclusion(cs.drop_last(), t, raw);
    if cs.last() == v {
        lemma_push_contains(rest, cs.last(), v);
    } else {
        let j = choose|j: int| 0 <= j < cs.len() && cs[j] == v;
        assert(cs.drop_last()[j] == v);
        lemma_not_excluded_kept(cs.drop_last(), t, raw, v);
        if !excluded(cs.last(), t, exclusion_tokens(raw)) {
            lemma_push_contains(rest, cs.last(), v);
        }
    }
}

/// Applying the exclusion filter twice with the same configuration yields
/// the same result as applying it once.
pub proof fn lemma_exclusion_idempotent(cs: Seq<Client>, t: Seq<(usize, Seq<char>)>, raw: Seq<char>)
    ensures
        apply_exclusion(apply_exclusion(cs, t, raw), t, raw) == apply_exclusion(cs, t, raw),
{
    lemma_apply_exclusion_elements(cs, t, raw);
    lemma_apply_exclusion_identity(apply_exclusion(cs, t, raw), t, raw);
}

/// When the configuration value is empty or holds only empty tokens, the
/// exclusion filter leaves any client list unchanged.
pub proof fn lemma_exclusion_noop_on_empty_config(
    cs: Seq<Client>,
    t: Seq<(usize, Seq<char>)>,
    raw: Seq<char>,
)
    requires
        forall|i: int| 0 <= i < split_commas(lower(raw)).len() ==> (#[trigger] split_commas(
            lower(raw),
        )[i]).len() == 0,
    ensures
        apply_exclusion(cs, t, raw) == cs,
{
    lemma_nonempty_segments_all_empty(split_commas(lower(raw)));
    lemma_apply_exclusion_all_kept(cs, t, raw);
}

/// Matching is case-insensitive: a client whose name's lower-casing appears
/// as a configured token, whatever the case of the stored name, matches the
/// exclusion list and is removed.
pub proof fn lemma_exclusion_case_insensitive(
    cs: Seq<Client>,
    t: Seq<(usize, Seq<char>)>,
    raw: Seq<char>,
    c: Client,
    n: Seq<char>,
)
    requires
        spec_name(c, t) == Some(n),
        n.len() > 0,
        split_commas(raw).contains(lower(n)),
    ensures
        excluded(c, t, exclusion_tokens(raw)),
        !apply_exclusion(cs, t, raw).contains(c),
{
    let j = choose|j: int|
        0 <= j < split_commas(raw).len() && split_commas(raw)[j] == lower(n);
    lemma_split_lower(raw);
    lemma_lower_idempotent(n);
    assert(split_commas(lower(raw))[j] == lower(n));
    lemma_nonempty_segments_contains(split_commas(lower(raw)), j);
    assert(name_or_empty_lower(c, t) == lower(n));
    lemma_excluded_not_kept(cs, t, raw, c);
}

/// A client matches the exclusion list by either key alone: its address, or
/// its lower-cased name, each independent of the other.
pub proof fn lemma_exclusion_dual_key(
    cs: Seq<Client>,
    t: Seq<(usize, Seq<char>)>,
    raw: Seq<char>,
    v: Client,
)
    ensures
        exclusion_tokens(raw).contains(spec_ip(v, t)) ==> excluded(v, t, exclusion_tokens(raw))
            && !apply_exclusion(cs, t, raw).contains(v),
        exclusion_tokens(raw).contains(name_or_empty_lower(v, t)) ==> excluded(
            v,
            t,
            exclusion_tokens(raw),
        ) && !apply_exclusion(cs, t, raw).contains(v),
        excluded(v, t, exclusion_tokens(raw)) ==> exclusion_tokens(raw).contains(spec_ip(v, t))
            || exclusion_tokens(raw).contains(name_or_empty_lower(v, t)),
{
    if excluded(v, t, exclusion_tokens(raw)) {
        lemma_excluded_not_kept(cs, t, raw, v);
    }
}

/// A client whose resolved address is the privacy placeholder is always
/// removed by the privacy filter, which consults no configuration; a client
/// value with any other address is never removed.
pub proof fn lemma_privacy_sentinel(cs: Seq<Client>, t: Seq<(usize, Seq<char>)>, v: Client)
    ensures
        hidden(v, t) ==> !apply_privacy(cs, t).contains(v),
        !hidden(v, t) && cs.contains(v) ==> apply_privacy(cs, t).contains(v),
    decreases cs.len(),
{
    if cs.len() > 0 {
        lemma_privacy_sentinel(cs.drop_last(), t, v);
        let rest = apply_privacy(cs.drop_last(), t);
        if !hidden(cs.last(), t) {
            lemma_push_contains(rest, cs.last(), v);
        }
        if !hidden(v, t) && cs.contains(v) && cs.last() != v {
            let j = choose|j: int| 0 <= j < cs.len() && cs[j] == v;
            assert(cs.drop_last()[j] == v);
        }
    }
}

/// The exclusion filter preserves the relative order of the kept clients:
/// when the middle one of three clients is excluded and the outer two are
/// not, the output is the outer two in their original order.
pub proof fn lemma_exclusion_order_preserved(
    a: Client,
    b: Client,
    c: Client,
    t: Seq<(usize, Seq<char>)>,
    raw: Seq<char>,
)
    requires
        !excluded(a, t, exclusion_tokens(raw)),
        excluded(b, t, exclusion_tokens(raw)),
        !excluded(c, t, exclusion_tokens(raw)),
    ensures
        apply_exclusion(seq![a, b, c], t, raw) == seq![a, c],
{
    let s = seq![a, b, c];
    assert(s.drop_last() =~= seq![a, b]);
    assert(seq![a, b].drop_last() =~= seq![a]);
    assert(seq![a].drop_last() =~= Seq::<Client>::empty());
    assert(seq![a].last() == a);
    assert(seq![a, b].last() == b);
    assert(s.last() == c);
    assert(apply_exclusion(Seq::<Client>::empty(), t, raw) =~= Seq::<Client>::empty());
    assert(apply_exclusion(seq![a], t, raw) =~= seq![a]);
    assert(apply_exclusion(seq![a, b], t, raw) =~= seq![a]);
    assert(apply_exclusion(s, t, raw) =~= seq![a, c]);
}

} // verus!
