//! Query-string parsing: `tag=a&limit=7` into name/value pairs, with the
//! last occurrence of a name winning, as the handlers read them.

use vstd::prelude::*;

verus! {

/// Split on a separator: every maximal separator-free run, in order; the
/// empty string splits to one empty segment.
pub open spec fn split_q(s: Seq<char>, sep: char) -> Seq<Seq<char>>
    decreases s.len(),
{
    if s.len() == 0 {
        seq![s]
    } else if s[0] == sep {
        seq![Seq::<char>::empty()] + split_q(s.drop_first(), sep)
    } else {
        let rest = split_q(s.drop_first(), sep);
        seq![seq![s[0]] + rest[0]] + rest.drop_first()
    }
}

/// A segment as a name/value pair, split at its first `=`; a segment
/// without `=` is a name with an empty value.
pub open spec fn pair_of(seg: Seq<char>) -> (Seq<char>, Seq<char>)
    decreases seg.len(),
{
    if seg.len() == 0 {
        (Seq::<char>::empty(), Seq::<char>::empty())
    } else if seg[0] == '=' {
        (Seq::<char>::empty(), seg.drop_first())
    } else {
        let rest = pair_of(seg.drop_first());
        (seq![seg[0]] + rest.0, rest.1)
    }
}

/// The name/value pairs of a query string.
pub open spec fn qparams(q: Seq<char>) -> Seq<(Seq<char>, Seq<char>)> {
    split_q(q, '&').map_values(|seg: Seq<char>| pair_of(seg))
}

/// The value of the last pair carrying `name`, if any.
pub open spec fn param_last(ps: Seq<(Seq<char>, Seq<char>)>, name: Seq<char>) -> Option<Seq<char>>
    decreases ps.len(),
{
    if ps.len() == 0 {
        None
    } else if ps.last().0 == name {
        Some(ps.last().1)
    } else {
        param_last(ps.drop_last(), name)
    }
}

/// The views of parsed pairs.
pub open spec fn pair_views(ps: Seq<(String, String)>) -> Seq<(Seq<char>, Seq<char>)> {
    ps.map_values(|p: (String, String)| (p.0@, p.1@))
}

proof fn lemma_split_q_nonempty(s: Seq<char>, sep: char)
    ensures
        split_q(s, sep).len() >= 1,
    decreases s.len(),
{
    if s.len() > 0 && s[0] != sep {
        lemma_split_q_nonempty(s.drop_first(), sep);
    }
}

/// Without the separator, a string is one segment.
proof fn lemma_split_no_sep(s: Seq<char>, sep: char)
    requires
        forall|m: int| 0 <= m < s.len() ==> #[trigger] s[m] != sep,
    ensures
        split_q(s, sep) == seq![s],
    decreases s.len(),
{
    if s.len() > 0 {
        let rest = s.drop_first();
        assert(forall|m: int| 0 <= m < rest.len() ==> #[trigger] rest[m] != sep) by {
            assert(forall|m: int| 0 <= m < rest.len() ==> rest[m] == s[m + 1]);
        }
        lemma_split_no_sep(rest, sep);
        lemma_split_q_nonempty(rest, sep);
        assert(seq![s[0]] + rest =~= s);
        assert(split_q(s, sep) =~= seq![s]);
    }
}

/// With the first separator at `k`, a string splits into its prefix and the
/// split of what follows.
proof fn lemma_split_at_first(s: Seq<char>, sep: char, k: int)
    requires
        0 <= k < s.len(),
        s[k] == sep,
        forall|m: int| 0 <= m < k ==> #[trigger] s[m] != sep,
    ensures
        split_q(s, sep) == seq![s.take(k)] + split_q(s.skip(k + 1), sep),
    decreases k,
{
    let rest = s.drop_first();
    if k == 0 {
        assert(s.take(0) =~= Seq::<char>::empty());
        assert(s.skip(1) =~= rest);
        assert(split_q(s, sep) =~= seq![s.take(0)] + split_q(s.skip(1), sep));
    } else {
        assert(rest[k - 1] == sep);
        assert(forall|m: int| 0 <= m < k - 1 ==> #[trigger] rest[m] != sep) by {
            assert(forall|m: int| 0 <= m < rest.len() ==> rest[m] == s[m + 1]);
        }
        lemma_split_at_first(rest, sep, k - 1);
        lemma_split_q_nonempty(rest.skip(k), sep);
        assert(rest.skip(k) =~= s.skip(k + 1));
        assert(seq![s[0]] + rest.take(k - 1) =~= s.take(k));
        assert(split_q(s, sep) =~= seq![s.take(k)] + split_q(s.skip(k + 1), sep));
    }
}

/// Without `=`, a segment is all name and no value.
proof fn lemma_pair_no_eq(seg: Seq<char>)
    requires
        forall|m: int| 0 <= m < seg.len() ==> #[trigger] seg[m] != '=',
    ensures
        pair_of(seg) == (seg, Seq::<char>::empty()),
    decreases seg.len(),
{
    if seg.len() > 0 {
        let rest = seg.drop_first();
        assert(forall|m: int| 0 <= m < rest.len() ==> #[trigger] rest[m] != '=') by {
            assert(forall|m: int| 0 <= m < rest.len() ==> rest[m] == seg[m + 1]);
        }
        lemma_pair_no_eq(rest);
        assert(seq![seg[0]] + rest =~= seg);
    }
}

/// With the first `=` at `k`, a segment splits there.
proof fn lemma_pair_at_first(seg: Seq<char>, k: int)
    requires
        0 <= k < seg.len(),
        seg[k] == '=',
        forall|m: int| 0 <= m < k ==> #[trigger] seg[m] != '=',
    ensures
        pair_of(seg) == (seg.take(k), seg.skip(k + 1)),
    decreases k,
{
    let rest = seg.drop_first();
    if k == 0 {
        assert(seg.take(0) =~= Seq::<char>::empty());
        assert(seg.skip(1) =~= rest);
    } else {
        assert(rest[k - 1] == '=');
        assert(forall|m: int| 0 <= m < k - 1 ==> #[trigger] rest[m] != '=') by {
            assert(forall|m: int| 0 <= m < rest.len() ==> rest[m] == seg[m + 1]);
        }
        lemma_pair_at_first(rest, k - 1);
        assert(rest.skip(k) =~= seg.skip(k + 1));
        assert(seq![seg[0]] + rest.take(k - 1) =~= seg.take(k));
    }
}

/// Index of the first occurrence of `c`, if any.
fn find_char(s: &str, c: char) -> (r: Option<usize>)
    ensures
        match r {
            Some(k) => k < s@.len() && s@[k as int] == c && forall|m: int|
                0 <= m < k ==> #[trigger] s@[m] != c,
            None => forall|m: int| 0 <= m < s@.len() ==> #[trigger] s@[m] != c,
        },
{
    let n = s.unicode_len();
    let mut i: usize = 0;
    while i < n
        invariant
            n == s@.len(),
            i <= n,
            forall|m: int| 0 <= m < i ==> #[trigger] s@[m] != c,
        decreases n - i,
    {
        if s.get_char(i) == c {
            return Some(i);
        }
        i += 1;
    }
    None
}

/// Split one segment into its name/value pair.
fn split_pair(seg: &str) -> (r: (String, String))
    ensures
        (r.0@, r.1@) == pair_of(seg@),
{
    let n = seg.unicode_len();
    match find_char(seg, '=') {
        None => {
            proof {
                lemma_pair_no_eq(seg@);
            }
            (seg.to_owned(), String::new())
        },
        Some(k) => {
            let name = seg.substring_char(0, k);
            let value = seg.substring_char(k + 1, n);
            proof {
                lemma_pair_at_first(seg@, k as int);
                assert(name@ =~= seg@.take(k as int));
                assert(value@ =~= seg@.skip(k + 1));
            }
            (name.to_owned(), value.to_owned())
        },
    }
}

/// Parse a query string into its name/value pairs, in order.
pub fn parse_query(q: &str) -> (r: Vec<(String, String)>)
    ensures
        pair_views(r@) == qparams(q@),
    decreases q@.len(),
{
    let n = q.unicode_len();
    match find_char(q, '&') {
        None => {
            let p = split_pair(q);
            let mut v: Vec<(String, String)> = Vec::new();
            v.push(p);
            proof {
                lemma_split_no_sep(q@, '&');
                assert(pair_views(v@) =~~= qparams(q@));
            }
            v
        },
        Some(k) => {
            let head = q.substring_char(0, k);
            let tail = q.substring_char(k + 1, n);
            proof {
                assert(head@ =~= q@.take(k as int));
                assert(tail@ =~= q@.skip(k + 1));
            }
            let p = split_pair(head);
            let rest = parse_query(tail);
            let mut v: Vec<(String, String)> = Vec::new();
            v.push(p);
            proof {
                assert(pair_views(v@) =~~= seq![pair_of(head@)] + pair_views(rest@).take(0));
            }
            let m = rest.len();
            let mut i: usize = 0;
            while i < m
                invariant
                    m == rest@.len(),
                    i <= m,
                    pair_views(v@) == seq![pair_of(head@)] + pair_views(rest@).take(i as int),
                decreases m - i,
            {
                let pair = (rest[i].0.clone(), rest[i].1.clone());
                proof {
                    assert(pair.0@ == rest@[i as int].0@ && pair.1@ == rest@[i as int].1@);
                }
                let ghost v0 = v@;
                v.push(pair);
                proof {
                    let target = seq![pair_of(head@)] + pair_views(rest@).take(i + 1);
                    assert(v@ == v0.push(pair));
                    assert(pair_views(rest@).len() == rest@.len());
                    assert(pair_views(v0).len() == v0.len());
                    assert(v0.len() == 1 + i);
                    assert(pair_views(v@).len() == v@.len());
                    assert(pair_views(v@).len() == target.len());
                    assert forall|t: int| 0 <= t < pair_views(v@).len() implies #[trigger] pair_views(
                        v@,
                    )[t] == target[t] by {
                        if t < v0.len() {
                            assert(v@[t] == v0[t]);
                            assert(pair_views(v@)[t] == pair_views(v0)[t]);
                            assert(pair_views(v0)[t] == (seq![pair_of(head@)] + pair_views(
                                rest@,
                            ).take(i as int))[t]);
                            if t > 0 {
                                assert(target[t] == pair_views(rest@).take(i + 1)[t - 1]);
                                assert(pair_views(rest@).take(i + 1)[t - 1] == pair_views(
                                    rest@,
                                )[t - 1]);
                                assert(pair_views(rest@).take(i as int)[t - 1] == pair_views(
                                    rest@,
                                )[t - 1]);
                            }
                        } else {
                            assert(v@[t] == pair);
                            assert(pair_views(v@)[t] == (pair.0@, pair.1@));
                            assert(target[t] == pair_views(rest@).take(i + 1)[i as int]);
                            assert(pair_views(rest@).take(i + 1)[i as int] == pair_views(
                                rest@,
                            )[i as int]);
                            assert(pair_views(rest@)[i as int] == (rest@[i as int].0@, rest@[i as int].1@));
                        }
                    }
                    assert(pair_views(v@) =~= target);
                }
                i += 1;
            }
            proof {
                assert(pair_views(rest@).take(m as int) =~= pair_views(rest@));
                lemma_split_at_first(q@, '&', k as int);
                assert(split_q(q@, '&') == seq![q@.take(k as int)] + split_q(q@.skip(k + 1), '&'));
                assert(pair_views(rest@) == qparams(tail@));
                assert forall|t: int| 0 <= t < qparams(q@).len() implies #[trigger] pair_views(
                    v@,
                )[t] == qparams(q@)[t] by {
                    if t == 0 {
                        assert(split_q(q@, '&')[0] == q@.take(k as int));
                        assert(pair_views(v@)[0] == pair_of(head@));
                    } else {
                        assert(split_q(q@, '&')[t] == split_q(tail@, '&')[t - 1]);
                        assert(qparams(tail@)[t - 1] == pair_of(split_q(tail@, '&')[t - 1]));
                        assert(pair_views(v@)[t] == pair_views(rest@)[t - 1]);
                    }
                }
                assert(pair_views(v@) =~= qparams(q@));
            }
                        v
        },
    }
}

/// The value of the last pair carrying `name`, if any.
pub fn param_value(ps: &Vec<(String, String)>, name: &String) -> (r: Option<String>)
    ensures
        crate::dto::opt_str(r) == param_last(pair_views(ps@), name@),
{
    let n = ps.len();
    let mut cur: Option<String> = None;
    let mut i: usize = 0;
    proof {
        assert(pair_views(ps@).take(0) =~= Seq::<(Seq<char>, Seq<char>)>::empty());
    }
    while i < n
        invariant
            n == ps@.len(),
            i <= n,
            crate::dto::opt_str(cur) == param_last(pair_views(ps@).take(i as int), name@),
        decreases n - i,
    {
        proof {
            assert(pair_views(ps@).take(i + 1).drop_last() =~= pair_views(ps@).take(i as int));
            assert(pair_views(ps@).take(i + 1).last() == pair_views(ps@)[i as int]);
        }
        if ps[i].0 == *name {
            proof {
                assert(pair_views(ps@)[i as int].0 == name@);
            }
            cur = Some(ps[i].1.clone());
        } else {
            proof {
                assert(pair_views(ps@)[i as int].0 != name@);
            }
        }
        i += 1;
    }
    proof {
        assert(pair_views(ps@).take(n as int) =~= pair_views(ps@));
    }
    cur
}

} // verus!
