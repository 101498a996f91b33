//! Character-sequence helpers: lower-casing and comma splitting.

use vstd::prelude::*;

verus! {

/// Lower-case a single character, folding the ASCII uppercase letters.
pub open spec fn lower_char(c: char) -> char {
    if 'A' <= c && c <= 'Z' {
        ((c as u8) + 32) as char
    } else {
        c
    }
}

/// Lower-case a character sequence.
pub open spec fn lower(s: Seq<char>) -> Seq<char> {
    s.map_values(|c: char| lower_char(c))
}

/// Lower-case one character, as [`lower_char`] says.
pub fn lower_char_exec(c: char) -> (r: char)
    ensures
        r == lower_char(c),
{
    if 'A' <= c && c <= 'Z' {
        ((c as u8) + 32) as char
    } else {
        c
    }
}

/// Lower-case a character vector.
pub fn lower_chars(v: &Vec<char>) -> (r: Vec<char>)
    ensures
        r@ == lower(v@),
{
    let mut r: Vec<char> = Vec::new();
    let mut i: usize = 0;
    while i < v.len()
        invariant
            0 <= i <= v@.len(),
            r@ == lower(v@.take(i as int)),
        decreases v@.len() - i,
    {
        r.push(lower_char_exec(v[i]));
        i = i + 1;
        proof {
            assert(r@ =~= lower(v@.take(i as int)));
        }
    }
    proof {
        assert(lower(v@.take(v@.len() as int)) =~= lower(v@));
    }
    r
}

/// Collect the characters of a string slice.
pub fn chars_of(s: &str) -> (r: Vec<char>)
    ensures
        r@ == s@,
{
    let n = s.unicode_len();
    let mut r: Vec<char> = Vec::new();
    let mut i: usize = 0;
    while i < n
        invariant
            n == s@.len(),
            0 <= i <= n,
            r@ == s@.take(i as int),
        decreases n - i,
    {
        r.push(s.get_char(i));
        i = i + 1;
        proof {
            assert(r@ =~= s@.take(i as int));
        }
    }
    proof {
        assert(s@.take(n as int) =~= s@);
    }
    r
}

/// Split a character sequence on commas, keeping empty segments.
pub open spec fn split_commas(s: Seq<char>) -> Seq<Seq<char>>
    decreases s.len(),
{
    if s.len() == 0 {
        seq![Seq::<char>::empty()]
    } else if s[0] == ',' {
        seq![Seq::<char>::empty()] + split_commas(s.skip(1))
    } else {
        let rest = split_commas(s.skip(1));
        seq![seq![s[0]] + rest[0]] + rest.skip(1)
    }
}

/// Splitting always yields at least one segment.
pub proof fn lemma_split_commas_len(s: Seq<char>)
    ensures
        split_commas(s).len() >= 1,
    decreases s.len(),
{
    if s.len() != 0 {
        lemma_split_commas_len(s.skip(1));
    }
}

/// The views of a sequence of character vectors.
pub open spec fn views(s: Seq<Vec<char>>) -> Seq<Seq<char>> {
    s.map_values(|v: Vec<char>| v@)
}

/// The non-empty segments of a segment list, in order.
pub open spec fn nonempty_segments(s: Seq<Seq<char>>) -> Seq<Seq<char>>
    decreases s.len(),
{
    if s.len() == 0 {
        Seq::<Seq<char>>::empty()
    } else {
        let rest = nonempty_segments(s.drop_last());
        if s.last().len() > 0 {
            rest.push(s.last())
        } else {
            rest
        }
    }
}

/// Lower-casing a character twice is the same as lower-casing it once.
pub proof fn lemma_lower_idempotent(s: Seq<char>)
    ensures
        lower(lower(s)) == lower(s),
{
    assert(lower(lower(s)) =~= lower(s));
}

/// When every segment is empty, no segment survives.
pub proof fn lemma_nonempty_segments_all_empty(s: Seq<Seq<char>>)
    requires
        forall|i: int| 0 <= i < s.len() ==> s[i].len() == 0,
    ensures
        nonempty_segments(s) == Seq::<Seq<char>>::empty(),
    decreases s.len(),
{
    if s.len() > 0 {
        lemma_nonempty_segments_all_empty(s.drop_last());
    }
}

/// Every non-empty segment survives the dropping of the empty ones.
pub proof fn lemma_nonempty_segments_contains(s: Seq<Seq<char>>, i: int)
    requires
        0 <= i < s.len(),
        s[i].len() > 0,
    ensures
        nonempty_segments(s).contains(s[i]),
    decreases s.len(),
{
    if i == s.len() - 1 {
        let r = nonempty_segments(s);
        assert(r.last() == s[i]);
        assert(r.contains(s[i]));
    } else {
        lemma_nonempty_segments_contains(s.drop_last(), i);
        let rest = nonempty_segments(s.drop_last());
        let j = choose|j: int| 0 <= j < rest.len() && rest[j] == s[i];
        if s.last().len() > 0 {
            assert(rest.push(s.last())[j] == s[i]);
        }
    }
}

/// Splitting a lower-cased sequence yields the lower-cased segments of the
/// original: lower-casing touches no comma.
pub proof fn lemma_split_lower(s: Seq<char>)
    ensures
        split_commas(lower(s)).len() == split_commas(s).len(),
        forall|i: int| 0 <= i < split_commas(s).len() ==> split_commas(lower(s))[i] == lower(
            #[trigger] split_commas(s)[i],
        ),
    decreases s.len(),
{
    if s.len() == 0 {
        assert(lower(s) =~= Seq::<char>::empty());
        assert(lower(Seq::<char>::empty()) =~= Seq::<char>::empty());
        assert(split_commas(lower(s))[0] =~= lower(split_commas(s)[0]));
    } else {
        lemma_split_lower(s.skip(1));
        assert(lower(s).skip(1) =~= lower(s.skip(1)));
        assert(lower(s)[0] == lower_char(s[0]));
        if s[0] == ',' {
            assert(lower_char(',') == ',');
            assert(split_commas(lower(s)) == seq![Seq::<char>::empty()] + split_commas(
                lower(s.skip(1)),
            ));
            assert(split_commas(lower(s))[0] =~= lower(split_commas(s)[0]));
            assert forall|i: int| 1 <= i < split_commas(s).len() implies split_commas(lower(s))[i]
                == lower(split_commas(s)[i]) by {
                assert(split_commas(s)[i] == split_commas(s.skip(1))[i - 1]);
                assert(split_commas(lower(s))[i] == split_commas(lower(s.skip(1)))[i - 1]);
            }
        } else {
            assert(lower_char(s[0]) != ',');
            let rest = split_commas(s.skip(1));
            let lrest = split_commas(lower(s.skip(1)));
            lemma_split_commas_len(s.skip(1));
            assert(split_commas(s) == seq![seq![s[0]] + rest[0]] + rest.skip(1));
            assert(split_commas(lower(s)) == seq![seq![lower_char(s[0])] + lrest[0]]
                + lrest.skip(1));
            assert(split_commas(lower(s))[0] =~= lower(split_commas(s)[0]));
            assert forall|i: int| 1 <= i < split_commas(s).len() implies split_commas(lower(s))[i]
                == lower(split_commas(s)[i]) by {
                assert(split_commas(s)[i] == rest.skip(1)[i - 1]);
                assert(split_commas(lower(s))[i] == lrest.skip(1)[i - 1]);
                assert(rest.skip(1)[i - 1] == rest[i]);
                assert(lrest.skip(1)[i - 1] == lrest[i]);
            }
        }
    }
}

/// Compare two character vectors for equality of their contents.
pub fn eq_chars(a: &Vec<char>, b: &Vec<char>) -> (r: bool)
    ensures
        r == (a@ == b@),
{
    if a.len() != b.len() {
        return false;
    }
    let mut i: usize = 0;
    while i < a.len()
        invariant
            a@.len() == b@.len(),
            0 <= i <= a@.len(),
            forall|k: int| 0 <= k < i ==> a@[k] == b@[k],
        decreases a@.len() - i,
    {
        if a[i] != b[i] {
            return false;
        }
        i = i + 1;
    }
    proof {
        assert(a@ =~= b@);
    }
    true
}

/// Test whether a character vector occurs among a list of them.
pub fn contains_chars(list: &Vec<Vec<char>>, x: &Vec<char>) -> (r: bool)
    ensures
        r == views(list@).contains(x@),
{
    let mut i: usize = 0;
    while i < list.len()
        invariant
            0 <= i <= list@.len(),
            forall|k: int| 0 <= k < i ==> views(list@)[k] != x@,
        decreases list@.len() - i,
    {
        if eq_chars(&list[i], x) {
            proof {
                assert(views(list@)[i as int] == x@);
            }
            return true;
        }
        i = i + 1;
    }
    false
}

/// Split a character vector on commas and drop the empty segments.
pub fn split_nonempty(s: &Vec<char>) -> (r: Vec<Vec<char>>)
    ensures
        views(r@) == nonempty_segments(split_commas(s@)),
{
    let mut segments: Vec<Vec<char>> = Vec::new();
    let mut cur: Vec<char> = Vec::new();
    let mut i: usize = 0;
    proof {
        lemma_split_commas_len(s@);
        assert(s@.skip(0) =~= s@);
        assert(split_commas(s@) =~~= views(segments@) + seq![
            cur@ + split_commas(s@.skip(0))[0],
        ] + split_commas(s@.skip(0)).skip(1));
    }
    while i < s.len()
        invariant
            0 <= i <= s@.len(),
            split_commas(s@.skip(i as int)).len() >= 1,
            split_commas(s@) == views(segments@) + seq![
                cur@ + split_commas(s@.skip(i as int))[0],
            ] + split_commas(s@.skip(i as int)).skip(1),
        decreases s@.len() - i,
    {
        let ghost rest = s@.skip(i as int);
        let ghost rest2 = s@.skip(i as int + 1);
        proof {
            assert(rest[0] == s@[i as int]);
            assert(rest.skip(1) =~= rest2);
            lemma_split_commas_len(rest2);
        }
        let ghost segs0 = segments@;
        let ghost cur0 = cur@;
        let c = s[i];
        if c == ',' {
            let done = cur;
            cur = Vec::new();
            segments.push(done);
            proof {
                assert(split_commas(rest) == seq![Seq::<char>::empty()] + split_commas(rest2));
                assert(split_commas(rest)[0] =~= Seq::<char>::empty());
                assert(split_commas(rest).skip(1) =~= split_commas(rest2));
                assert(cur0 + split_commas(rest)[0] =~= cur0);
                assert(views(segments@) =~= views(segs0).push(cur0));
                assert(split_commas(s@) =~~= views(segments@) + seq![
                    cur@ + split_commas(rest2)[0],
                ] + split_commas(rest2).skip(1));
            }
        } else {
            cur.push(c);
            proof {
                let rest_split = split_commas(rest);
                assert(rest_split == seq![seq![s@[i as int]] + split_commas(rest2)[0]]
                    + split_commas(rest2).skip(1));
                assert(rest_split[0] =~= seq![s@[i as int]] + split_commas(rest2)[0]);
                assert(rest_split.skip(1) =~= split_commas(rest2).skip(1));
                assert(cur@ + split_commas(rest2)[0] =~= cur0 + rest_split[0]);
                assert(split_commas(s@) =~~= views(segments@) + seq![
                    cur@ + split_commas(rest2)[0],
                ] + split_commas(rest2).skip(1));
            }
        }
        i = i + 1;
    }
    proof {
        assert(s@.skip(i as int) =~= Seq::<char>::empty());
        assert(split_commas(s@.skip(i as int)) == seq![Seq::<char>::empty()]);
    }
    segments.push(cur);
    proof {
        assert(views(segments@) =~= split_commas(s@));
    }
    // Second pass: keep only the non-empty segments.
    let mut r: Vec<Vec<char>> = Vec::new();
    let mut j: usize = 0;
    while j < segments.len()
        invariant
            0 <= j <= segments@.len(),
            views(r@) == nonempty_segments(views(segments@.take(j as int))),
        decreases segments@.len() - j,
    {
        proof {
            let next = views(segments@.take(j as int + 1));
            assert(next =~= views(segments@.take(j as int)).push(segments@[j as int]@));
            assert(next.drop_last() =~= views(segments@.take(j as int)));
            assert(next.last() == segments@[j as int]@);
        }
        if segments[j].len() > 0 {
            let seg = segments[j].clone();
            proof {
                assert(seg@ == segments@[j as int]@);
            }
            r.push(seg);
        }
        j = j + 1;
        proof {
            assert(views(r@) =~= nonempty_segments(views(segments@.take(j as int))));
        }
    }
    proof {
        assert(segments@.take(segments@.len() as int) =~= segments@);
    }
    r
}

} // verus!
