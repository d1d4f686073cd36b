//! URL query strings: splitting on separators, parsing `key=value` pairs
//! with percent-decoding, rendering pairs with percent-encoding, and the
//! round-trip law connecting the two.

use vstd::prelude::*;

use crate::pct::{
    is_unreserved_byte, lemma_pct_decode_encode, lemma_pct_encode_byte_range, pct_decode,
    pct_encode, percent_decode,
};

verus! {

/// Index of the first occurrence of `b` in `s`, or -1 when absent.
pub open spec fn find_byte(s: Seq<u8>, b: u8) -> int
    decreases s.len(),
{
    if s.len() == 0 {
        -1
    } else if s[0] == b {
        0
    } else {
        let r = find_byte(s.drop_first(), b);
        if r < 0 {
            -1
        } else {
            r + 1
        }
    }
}

/// `find_byte` finds the first occurrence, and a negative result means absence.
pub proof fn lemma_find_byte(s: Seq<u8>, b: u8)
    ensures
        find_byte(s, b) < 0 ==> forall|j: int| 0 <= j < s.len() ==> s[j] != b,
        find_byte(s, b) >= 0 ==> 0 <= find_byte(s, b) < s.len() && s[find_byte(s, b)] == b
            && forall|j: int| 0 <= j < find_byte(s, b) ==> s[j] != b,
    decreases s.len(),
{
    if s.len() == 0 {
    } else if s[0] == b {
    } else {
        lemma_find_byte(s.drop_first(), b);
        if find_byte(s, b) < 0 {
            assert forall|j: int| 0 <= j < s.len() implies s[j] != b by {
                if j > 0 {
                    assert(s.drop_first()[j - 1] == s[j]);
                }
            }
        } else {
            let f = find_byte(s, b);
            assert(s[f] == s.drop_first()[f - 1]);
            assert forall|j: int| 0 <= j < f implies s[j] != b by {
                if j > 0 {
                    assert(s.drop_first()[j - 1] == s[j]);
                }
            }
        }
    }
}

/// An occurrence before which `b` does not appear fixes the value of `find_byte`.
pub proof fn lemma_find_byte_at(s: Seq<u8>, b: u8, i: int)
    requires
        0 <= i < s.len(),
        s[i] == b,
        forall|j: int| 0 <= j < i ==> s[j] != b,
    ensures
        find_byte(s, b) == i,
    decreases s.len(),
{
    if i == 0 {
    } else {
        assert(s[0] != b);
        assert(forall|j: int| 0 <= j < s.drop_first().len() ==> s.drop_first()[j] == s[j + 1]);
        lemma_find_byte_at(s.drop_first(), b, i - 1);
    }
}

/// Splitting a byte string on a separator byte; the result always holds at
/// least one segment, and the separators themselves are dropped.
pub open spec fn split_on(s: Seq<u8>, sep: u8) -> Seq<Seq<u8>>
    decreases s.len(),
{
    if s.len() == 0 {
        seq![Seq::<u8>::empty()]
    } else if s[0] == sep {
        seq![Seq::<u8>::empty()] + split_on(s.drop_first(), sep)
    } else {
        let rest = split_on(s.drop_first(), sep);
        seq![seq![s[0]] + rest[0]] + rest.drop_first()
    }
}

pub proof fn lemma_split_on_len(s: Seq<u8>, sep: u8)
    ensures
        split_on(s, sep).len() >= 1,
    decreases s.len(),
{
    if s.len() == 0 {
    } else {
        lemma_split_on_len(s.drop_first(), sep);
    }
}

/// `split_on` cuts at the first separator: no separator means one segment,
/// and otherwise the part before the first separator is the first segment.
pub proof fn lemma_split_on_step(s: Seq<u8>, sep: u8)
    ensures
        find_byte(s, sep) < 0 ==> split_on(s, sep) == seq![s],
        find_byte(s, sep) >= 0 ==> split_on(s, sep) == seq![s.take(find_byte(s, sep))] + split_on(
            s.skip(find_byte(s, sep) + 1),
            sep,
        ),
    decreases s.len(),
{
    lemma_find_byte(s, sep);
    if s.len() == 0 {
        assert(s =~= Seq::<u8>::empty());
        assert(split_on(s, sep) =~= seq![s]);
    } else if s[0] == sep {
        assert(s.take(0) =~= Seq::<u8>::empty());
        assert(s.skip(1) =~= s.drop_first());
        assert(split_on(s, sep) =~= seq![s.take(0)] + split_on(s.skip(1), sep));
    } else {
        lemma_split_on_step(s.drop_first(), sep);
        lemma_split_on_len(s.drop_first(), sep);
        let rest = split_on(s.drop_first(), sep);
        let f = find_byte(s.drop_first(), sep);
        if f < 0 {
            assert(rest == seq![s.drop_first()]);
            assert(seq![s[0]] + rest[0] =~= s);
            assert(split_on(s, sep) == seq![seq![s[0]] + rest[0]] + rest.drop_first());
            assert(rest.drop_first() =~= Seq::<Seq<u8>>::empty());
            assert(split_on(s, sep).len() == 1);
            assert(split_on(s, sep)[0] == seq![s[0]] + rest[0]);
            assert(split_on(s, sep)[0] == s);
            assert(split_on(s, sep) =~= seq![s]);
        } else {
            assert(find_byte(s, sep) == f + 1);
            assert(rest == seq![s.drop_first().take(f)] + split_on(s.drop_first().skip(f + 1), sep));
            assert(rest[0] == s.drop_first().take(f));
            assert(seq![s[0]] + s.drop_first().take(f) =~= s.take(f + 1));
            assert(s.drop_first().skip(f + 1) =~= s.skip(f + 2));
            assert(rest.drop_first() =~= split_on(s.skip(f + 2), sep));
            assert(split_on(s, sep) == seq![seq![s[0]] + rest[0]] + rest.drop_first());
            assert(split_on(s, sep) =~= seq![s.take(f + 1)] + split_on(s.skip(f + 2), sep));
        }
    }
}

/// Finds the first occurrence of `b` in `s`.
pub fn find_byte_exec(s: &[u8], b: u8) -> (r: Option<usize>)
    ensures
        r is None ==> find_byte(s@, b) < 0,
        r matches Some(i) ==> find_byte(s@, b) == i,
{
    let mut i: usize = 0;
    while i < s.len()
        invariant
            i <= s.len(),
            forall|j: int| 0 <= j < i ==> s@[j] != b,
        decreases s.len() - i,
    {
        if s[i] == b {
            proof {
                lemma_find_byte_at(s@, b, i as int);
            }
            return Some(i);
        }
        i = i + 1;
    }
    proof {
        lemma_find_byte(s@, b);
        if find_byte(s@, b) >= 0 {
            assert(s@[find_byte(s@, b)] == b);
        }
    }
    None
}

/// Splits a byte string on a separator byte.
pub fn split_on_exec(s: &[u8], sep: u8) -> (r: Vec<Vec<u8>>)
    ensures
        r@.len() == split_on(s@, sep).len(),
        forall|i: int| 0 <= i < r@.len() ==> r@[i]@ == split_on(s@, sep)[i],
{
    let mut out: Vec<Vec<u8>> = Vec::new();
    let mut start: usize = 0;
    let ghost whole = split_on(s@, sep);
    proof {
        assert(s@.skip(0) =~= s@);
    }
    loop
        invariant_except_break
            whole.skip(out@.len() as int) == split_on(s@.skip(start as int), sep),
        invariant
            start <= s.len(),
            whole == split_on(s@, sep),
            out@.len() <= whole.len(),
            forall|i: int| 0 <= i < out@.len() ==> out@[i]@ == whole[i],
        ensures
            out@.len() == whole.len(),
            forall|i: int| 0 <= i < out@.len() ==> out@[i]@ == whole[i],
        decreases s.len() - start,
    {
        let ghost tail = s@.skip(start as int);
        proof {
            lemma_split_on_len(tail, sep);
            lemma_split_on_step(tail, sep);
            lemma_find_byte(tail, sep);
        }
        let sub = vstd::slice::slice_subrange(s, start, s.len());
        match find_byte_exec(sub, sep) {
            None => {
                // No separator remains: the rest is the final segment.
                proof {
                    assert(whole.skip(out@.len() as int) =~= seq![tail]);
                    assert(whole.len() - out@.len() == 1);
                    assert(whole.skip(out@.len() as int)[0] == whole[out@.len() as int]);
                    assert(whole[out@.len() as int] == tail);
                }
                let mut segv: Vec<u8> = Vec::new();
                segv.extend_from_slice(sub);
                proof {
                    assert(segv@ =~= tail);
                }
                out.push(segv);
                proof {
                    assert(whole.len() == out@.len());
                }
                break ;
            },
            Some(k) => {
                let ghost n = out@.len() as int;
                proof {
                    assert(whole.skip(n) == seq![tail.take(k as int)] + split_on(
                        tail.skip(k + 1),
                        sep,
                    ));
                    assert(whole.len() - n >= 2);
                    assert(whole.skip(n)[0] == whole[n]);
                    assert(whole[n] == tail.take(k as int));
                }
                let seg = vstd::slice::slice_subrange(s, start, start + k);
                let mut segv: Vec<u8> = Vec::new();
                segv.extend_from_slice(seg);
                proof {
                    assert(segv@ =~= tail.take(k as int));
                }
                out.push(segv);
                proof {
                    assert(tail.skip(k + 1) =~= s@.skip(start + k + 1));
                    assert(whole.skip(n + 1) =~= whole.skip(n).skip(1));
                    assert(whole.skip(n).skip(1) =~= split_on(tail.skip(k + 1), sep));
                    assert(whole.skip(out@.len() as int) =~= split_on(s@.skip(start + k + 1), sep));
                }
                start = start + k + 1;
            },
        }
    }
    out
}

/// The decoded `(key, value)` pair of one `key=value` segment. A segment
/// without `=` is a key with an empty value.
pub open spec fn pair_of_segment(seg: Seq<u8>) -> (Seq<u8>, Seq<u8>) {
    let e = find_byte(seg, 0x3d);
    if e < 0 {
        (pct_decode(seg), Seq::<u8>::empty())
    } else {
        (pct_decode(seg.take(e)), pct_decode(seg.skip(e + 1)))
    }
}

/// The decoded pairs of a query string: `&`-separated `key=value` segments.
/// An empty query string holds no pairs.
pub open spec fn parse_query_pairs(q: Seq<u8>) -> Seq<(Seq<u8>, Seq<u8>)> {
    if q.len() == 0 {
        Seq::empty()
    } else {
        split_on(q, 0x26).map_values(|seg: Seq<u8>| pair_of_segment(seg))
    }
}

/// The view of a parsed pair list as a sequence of byte-string pairs.
pub open spec fn pairs_view(v: Seq<(Vec<u8>, Vec<u8>)>) -> Seq<(Seq<u8>, Seq<u8>)> {
    v.map_values(|p: (Vec<u8>, Vec<u8>)| (p.0@, p.1@))
}

pub(crate) fn copy_bytes(v: &[u8]) -> (r: Vec<u8>)
    ensures
        r@ == v@,
{
    let mut r: Vec<u8> = Vec::new();
    r.extend_from_slice(v);
    proof {
        assert(r@ =~= v@);
    }
    r
}

fn parse_pair(seg: &[u8]) -> (r: (Vec<u8>, Vec<u8>))
    ensures
        (r.0@, r.1@) == pair_of_segment(seg@),
{
    match find_byte_exec(seg, 0x3d) {
        None => {
            let k = percent_decode(seg);
            (k, Vec::new())
        },
        Some(e) => {
            let n = seg.len();
            proof {
                lemma_find_byte(seg@, 0x3d);
                assert(e < n);
            }
            let k = percent_decode(vstd::slice::slice_subrange(seg, 0, e));
            let v = percent_decode(vstd::slice::slice_subrange(seg, e + 1, n));
            proof {
                assert(seg@.subrange(0, e as int) =~= seg@.take(e as int));
                assert(seg@.subrange(e + 1, seg@.len() as int) =~= seg@.skip(e + 1));
            }
            (k, v)
        },
    }
}

/// Parses a query string into its decoded `(key, value)` pairs, in order.
pub fn parse_query(q: &[u8]) -> (r: Vec<(Vec<u8>, Vec<u8>)>)
    ensures
        pairs_view(r@) == parse_query_pairs(q@),
{
    if q.len() == 0 {
        let r: Vec<(Vec<u8>, Vec<u8>)> = Vec::new();
        proof {
            assert(pairs_view(r@) =~= parse_query_pairs(q@));
        }
        return r;
    }
    let segs = split_on_exec(q, 0x26);
    let ghost spec_segs = split_on(q@, 0x26);
    let mut out: Vec<(Vec<u8>, Vec<u8>)> = Vec::new();
    let mut i: usize = 0;
    while i < segs.len()
        invariant
            i <= segs.len(),
            segs@.len() == spec_segs.len(),
            forall|j: int| 0 <= j < segs@.len() ==> segs@[j]@ == spec_segs[j],
            out@.len() == i,
            forall|j: int|
                0 <= j < i ==> (#[trigger] out@[j].0@, out@[j].1@) == pair_of_segment(spec_segs[j]),
        decreases segs.len() - i,
    {
        let p = parse_pair(segs[i].as_slice());
        out.push(p);
        i = i + 1;
    }
    proof {
        assert(pairs_view(out@) =~= parse_query_pairs(q@));
    }
    out
}

/// The value of the first pair whose key is `key`, if any.
pub open spec fn first_value(pairs: Seq<(Seq<u8>, Seq<u8>)>, key: Seq<u8>) -> Option<Seq<u8>>
    decreases pairs.len(),
{
    if pairs.len() == 0 {
        Option::None
    } else if pairs[0].0 == key {
        Option::Some(pairs[0].1)
    } else {
        first_value(pairs.drop_first(), key)
    }
}

/// Looks up the value of the first pair with the given key.
pub fn lookup_value(pairs: &Vec<(Vec<u8>, Vec<u8>)>, key: &[u8]) -> (r: Option<Vec<u8>>)
    ensures
        r is None ==> first_value(pairs_view(pairs@), key@) is None,
        r matches Some(v) ==> first_value(pairs_view(pairs@), key@) == Some(v@),
{
    let ghost pv = pairs_view(pairs@);
    let mut i: usize = 0;
    proof {
        assert(pv.skip(0) =~= pv);
    }
    while i < pairs.len()
        invariant
            i <= pairs.len(),
            pv == pairs_view(pairs@),
            pv.len() == pairs@.len(),
            first_value(pv, key@) == first_value(pv.skip(i as int), key@),
        decreases pairs.len() - i,
    {
        if crate::util::bytes_eq(pairs[i].0.as_slice(), key) {
            let v = copy_bytes(pairs[i].1.as_slice());
            proof {
                assert(pv.skip(i as int)[0] == pv[i as int]);
            }
            return Some(v);
        }
        proof {
            assert(pv.skip(i as int)[0] == pv[i as int]);
            assert(pv.skip(i as int).drop_first() =~= pv.skip(i + 1));
        }
        i = i + 1;
    }
    proof {
        assert(pv.skip(pairs@.len() as int) =~= Seq::<(Seq<u8>, Seq<u8>)>::empty());
    }
    None
}

/// Renders one pair as `key=value` with both sides percent-encoded.
pub open spec fn render_pair(p: (Seq<u8>, Seq<u8>)) -> Seq<u8> {
    pct_encode(p.0) + seq![0x3du8] + pct_encode(p.1)
}

/// Renders pairs as a query string, `&`-separated.
pub open spec fn render_query(pairs: Seq<(Seq<u8>, Seq<u8>)>) -> Seq<u8>
    decreases pairs.len(),
{
    if pairs.len() == 0 {
        Seq::empty()
    } else if pairs.len() == 1 {
        render_pair(pairs[0])
    } else {
        render_pair(pairs[0]) + seq![0x26u8] + render_query(pairs.drop_first())
    }
}

/// How many pairs carry the given key.
pub open spec fn key_count(pairs: Seq<(Seq<u8>, Seq<u8>)>, key: Seq<u8>) -> nat
    decreases pairs.len(),
{
    if pairs.len() == 0 {
        0
    } else {
        (if pairs[0].0 == key {
            1nat
        } else {
            0nat
        }) + key_count(pairs.drop_first(), key)
    }
}

/// A key that appears at exactly one index is counted exactly once.
pub proof fn lemma_key_count_unique(pairs: Seq<(Seq<u8>, Seq<u8>)>, key: Seq<u8>, i: int)
    requires
        0 <= i < pairs.len(),
        pairs[i].0 == key,
        forall|j: int| 0 <= j < pairs.len() && j != i ==> (#[trigger] pairs[j]).0 != key,
    ensures
        key_count(pairs, key) == 1,
    decreases pairs.len(),
{
    lemma_key_count_absent(pairs.skip(i + 1), key);
    if i == 0 {
        assert(pairs.drop_first() =~= pairs.skip(1));
    } else {
        assert(forall|j: int|
            0 <= j < pairs.drop_first().len() ==> pairs.drop_first()[j] == pairs[j + 1]);
        lemma_key_count_unique(pairs.drop_first(), key, i - 1);
    }
}

/// A key that appears at no index is counted zero times.
pub proof fn lemma_key_count_absent(pairs: Seq<(Seq<u8>, Seq<u8>)>, key: Seq<u8>)
    requires
        forall|j: int| 0 <= j < pairs.len() ==> (#[trigger] pairs[j]).0 != key,
    ensures
        key_count(pairs, key) == 0,
    decreases pairs.len(),
{
    if pairs.len() > 0 {
        assert(forall|j: int|
            0 <= j < pairs.drop_first().len() ==> pairs.drop_first()[j] == pairs[j + 1]);
        lemma_key_count_absent(pairs.drop_first(), key);
    }
}

/// Every byte of a rendered query string is an unreserved byte, `%`, `=`,
/// or the `&` separator — in particular it is ASCII.
pub proof fn lemma_render_query_bytes(pairs: Seq<(Seq<u8>, Seq<u8>)>)
    ensures
        forall|i: int|
            0 <= i < render_query(pairs).len() ==> (is_unreserved_byte(
                #[trigger] render_query(pairs)[i],
            ) || render_query(pairs)[i] == 0x25 || render_query(pairs)[i] == 0x3d || render_query(
                pairs,
            )[i] == 0x26),
    decreases pairs.len(),
{
    if pairs.len() == 0 {
    } else if pairs.len() == 1 {
        lemma_render_pair_bytes(pairs[0]);
    } else {
        lemma_render_pair_bytes(pairs[0]);
        lemma_render_query_bytes(pairs.drop_first());
        let hd = render_pair(pairs[0]);
        let rest = render_query(pairs.drop_first());
        let s = render_query(pairs);
        assert forall|i: int| 0 <= i < s.len() implies (is_unreserved_byte(#[trigger] s[i]) || s[i]
            == 0x25 || s[i] == 0x3d || s[i] == 0x26) by {
            if i < hd.len() {
                assert(s[i] == hd[i]);
            } else if i == hd.len() {
                assert(s[i] == 0x26);
            } else {
                assert(s[i] == rest[i - hd.len() - 1]);
            }
        }
    }
}

/// Every byte of a rendered pair is an unreserved byte, `%`, or the one `=`.
pub proof fn lemma_render_pair_bytes(p: (Seq<u8>, Seq<u8>))
    ensures
        forall|i: int|
            0 <= i < render_pair(p).len() ==> (is_unreserved_byte(#[trigger] render_pair(p)[i])
                || render_pair(p)[i] == 0x25 || render_pair(p)[i] == 0x3d),
        find_byte(render_pair(p), 0x3d) == pct_encode(p.0).len(),
{
    lemma_pct_encode_byte_range(p.0);
    lemma_pct_encode_byte_range(p.1);
    let a = pct_encode(p.0);
    let b = pct_encode(p.1);
    let s = render_pair(p);
    assert forall|i: int| 0 <= i < s.len() implies (is_unreserved_byte(#[trigger] s[i]) || s[i]
        == 0x25 || s[i] == 0x3d) by {
        if i < a.len() {
            assert(s[i] == a[i]);
        } else if i == a.len() {
            assert(s[i] == 0x3d);
        } else {
            assert(s[i] == b[i - a.len() - 1]);
        }
    }
    assert(s[a.len() as int] == 0x3d);
    assert forall|j: int| 0 <= j < a.len() implies s[j] != 0x3d by {
        assert(s[j] == a[j]);
    }
    lemma_find_byte_at(s, 0x3d, a.len() as int);
}

/// Parsing one rendered segment gives back the pair.
proof fn lemma_pair_of_render(p: (Seq<u8>, Seq<u8>))
    ensures
        pair_of_segment(render_pair(p)) == p,
{
    lemma_render_pair_bytes(p);
    let a = pct_encode(p.0);
    let b = pct_encode(p.1);
    let s = render_pair(p);
    let e = find_byte(s, 0x3d);
    assert(e == a.len());
    assert(s.take(e) =~= a);
    assert(s.skip(e + 1) =~= b);
    lemma_pct_decode_encode(p.0);
    lemma_pct_decode_encode(p.1);
}

/// Round trip: parsing a rendered query string yields exactly the pairs that
/// were rendered, in order — rendering loses nothing.
pub proof fn lemma_parse_render_query(pairs: Seq<(Seq<u8>, Seq<u8>)>)
    ensures
        parse_query_pairs(render_query(pairs)) == pairs,
    decreases pairs.len(),
{
    if pairs.len() == 0 {
        assert(parse_query_pairs(render_query(pairs)) =~= pairs);
    } else if pairs.len() == 1 {
        let s = render_query(pairs);
        lemma_render_pair_bytes(pairs[0]);
        lemma_pair_of_render(pairs[0]);
        assert(s.len() > 0);
        lemma_find_byte(s, 0x26);
        if find_byte(s, 0x26) >= 0 {
            assert(s[find_byte(s, 0x26)] == 0x26);
            assert(false);
        }
        lemma_split_on_step(s, 0x26);
        assert(split_on(s, 0x26) == seq![s]);
        assert(parse_query_pairs(s) =~= pairs);
    } else {
        let hd = render_pair(pairs[0]);
        let rest = render_query(pairs.drop_first());
        let s = render_query(pairs);
        lemma_render_pair_bytes(pairs[0]);
        lemma_pair_of_render(pairs[0]);
        lemma_parse_render_query(pairs.drop_first());
        // The first separator in the rendered string stands right after the
        // first rendered pair.
        assert(s[hd.len() as int] == 0x26);
        assert forall|j: int| 0 <= j < hd.len() implies s[j] != 0x26 by {
            assert(s[j] == hd[j]);
        }
        lemma_find_byte_at(s, 0x26, hd.len() as int);
        lemma_split_on_step(s, 0x26);
        assert(s.take(hd.len() as int) =~= hd);
        assert(s.skip(hd.len() as int + 1) =~= rest);
        assert(split_on(s, 0x26) == seq![hd] + split_on(rest, 0x26));
        assert(rest.len() > 0) by {
            if pairs.drop_first().len() == 1 {
                assert(rest == render_pair(pairs.drop_first()[0]));
            }
        }
        assert(parse_query_pairs(rest) == split_on(rest, 0x26).map_values(
            |seg: Seq<u8>| pair_of_segment(seg),
        ));
        let mapped = split_on(s, 0x26).map_values(|seg: Seq<u8>| pair_of_segment(seg));
        let mapped_rest = split_on(rest, 0x26).map_values(|seg: Seq<u8>| pair_of_segment(seg));
        assert(mapped.len() == split_on(s, 0x26).len());
        assert forall|i: int| 0 <= i < split_on(s, 0x26).len() implies #[trigger] mapped[i]
            == pairs[i] by {
            if i == 0 {
                assert(split_on(s, 0x26)[0] == hd);
            } else {
                assert(split_on(s, 0x26)[i] == split_on(rest, 0x26)[i - 1]);
                assert(mapped_rest[i - 1] == pair_of_segment(split_on(rest, 0x26)[i - 1]));
                assert(pairs.drop_first()[i - 1] == pairs[i]);
            }
        }
        assert(parse_query_pairs(s) =~= pairs);
    }
}

} // verus!
