use vstd::prelude::*;

verus! {

/// The fields of `s` split on every occurrence of `sep`, in order.
/// An empty input is one empty field; a separator always ends a field,
/// so `n` separators give `n + 1` fields.
pub open spec fn split_seq(s: Seq<u8>, sep: u8) -> Seq<Seq<u8>>
    decreases s.len(),
{
    if s.len() == 0 {
        seq![Seq::<u8>::empty()]
    } else if s[0] == sep {
        seq![Seq::<u8>::empty()] + split_seq(s.drop_first(), sep)
    } else {
        let rest = split_seq(s.drop_first(), sep);
        seq![seq![s[0]] + rest[0]] + rest.drop_first()
    }
}

pub proof fn lemma_split_len(s: Seq<u8>, sep: u8)
    ensures
        split_seq(s, sep).len() >= 1,
    decreases s.len(),
{
    if s.len() > 0 {
        lemma_split_len(s.drop_first(), sep);
    }
}

/// Without a separator the whole input is the single field.
pub proof fn lemma_split_no_sep(s: Seq<u8>, sep: u8)
    requires
        forall|j: int| 0 <= j < s.len() ==> s[j] != sep,
    ensures
        split_seq(s, sep) == seq![s],
    decreases s.len(),
{
    if s.len() == 0 {
        assert(split_seq(s, sep) =~~= seq![s]);
    } else {
        let t = s.drop_first();
        assert(forall|j: int| 0 <= j < t.len() ==> t[j] == s[j + 1]);
        lemma_split_no_sep(t, sep);
        lemma_split_len(t, sep);
        assert(seq![s[0]] + t =~= s);
        assert(split_seq(s, sep) =~~= seq![s]);
    }
}

/// Splitting at the first separator: the field before it, then the split
/// of everything after it.
pub proof fn lemma_split_at_first(s: Seq<u8>, sep: u8, i: int)
    requires
        0 <= i < s.len(),
        s[i] == sep,
        forall|j: int| 0 <= j < i ==> s[j] != sep,
    ensures
        split_seq(s, sep) == seq![s.subrange(0, i)] + split_seq(
            s.subrange(i + 1, s.len() as int),
            sep,
        ),
    decreases i,
{
    if i == 0 {
        assert(s.subrange(0, 0) =~= Seq::<u8>::empty());
        assert(s.drop_first() =~= s.subrange(1, s.len() as int));
        assert(split_seq(s, sep) =~~= seq![s.subrange(0, 0)] + split_seq(
            s.subrange(1, s.len() as int),
            sep,
        ));
    } else {
        let t = s.drop_first();
        assert(forall|j: int| 0 <= j < t.len() ==> t[j] == s[j + 1]);
        lemma_split_at_first(t, sep, i - 1);
        lemma_split_len(t.subrange(i, t.len() as int), sep);
        assert(seq![s[0]] + t.subrange(0, i - 1) =~= s.subrange(0, i));
        assert(t.subrange(i, t.len() as int) =~= s.subrange(i + 1, s.len() as int));
        assert((seq![t.subrange(0, i - 1)] + split_seq(
            t.subrange(i, t.len() as int),
            sep,
        )).drop_first() =~= split_seq(s.subrange(i + 1, s.len() as int), sep));
        assert(split_seq(s, sep) =~~= seq![s.subrange(0, i)] + split_seq(
            s.subrange(i + 1, s.len() as int),
            sep,
        ));
    }
}

/// The fields of `v` split on `sep`, as a vector of byte vectors.
pub fn split_bytes(v: &Vec<u8>, sep: u8) -> (r: Vec<Vec<u8>>)
    ensures
        r.deep_view() == split_seq(v@, sep),
{
    let mut r: Vec<Vec<u8>> = Vec::new();
    let mut cur: Vec<u8> = Vec::new();
    let ghost mut start: int = 0;
    let mut i: usize = 0;
    proof {
        assert(v@.subrange(0, v@.len() as int) =~= v@);
        assert(r.deep_view() + split_seq(v@, sep) =~~= split_seq(v@, sep));
        assert(cur@ =~= v@.subrange(0, 0));
    }
    while i < v.len()
        invariant
            0 <= start <= i <= v@.len(),
            cur@ == v@.subrange(start, i as int),
            forall|j: int| start <= j < i ==> v@[j] != sep,
            split_seq(v@, sep) == r.deep_view() + split_seq(
                v@.subrange(start, v@.len() as int),
                sep,
            ),
        decreases v@.len() - i,
    {
        if v[i] == sep {
            proof {
                let suffix = v@.subrange(start, v@.len() as int);
                assert(forall|j: int|
                    0 <= j < suffix.len() ==> suffix[j] == v@[start + j]);
                lemma_split_at_first(suffix, sep, i - start);
                assert(suffix.subrange(0, i - start) =~= v@.subrange(start, i as int));
                assert(suffix.subrange(i - start + 1, suffix.len() as int) =~= v@.subrange(
                    i + 1,
                    v@.len() as int,
                ));
            }
            let ghost r_old = r.deep_view();
            let ghost cur_old = cur@;
            r.push(cur);
            proof {
                assert(r.deep_view() =~~= r_old.push(cur_old));
                assert(r_old.push(cur_old) + split_seq(
                    v@.subrange(i + 1, v@.len() as int),
                    sep,
                ) =~~= r_old + (seq![cur_old] + split_seq(
                    v@.subrange(i + 1, v@.len() as int),
                    sep,
                )));
            }
            cur = Vec::new();
            proof {
                start = i + 1;
            }
            proof {
                assert(cur@ =~= v@.subrange(start, i + 1));
            }
        } else {
            cur.push(v[i]);
            proof {
                assert(cur@ =~= v@.subrange(start, i + 1));
            }
        }
        i = i + 1;
    }
    proof {
        let suffix = v@.subrange(start, v@.len() as int);
        assert(forall|j: int| 0 <= j < suffix.len() ==> suffix[j] == v@[start + j]);
        lemma_split_no_sep(suffix, sep);
    }
    let ghost r_old = r.deep_view();
    let ghost cur_old = cur@;
    r.push(cur);
    proof {
        assert(r.deep_view() =~~= r_old.push(cur_old));
        assert(r_old.push(cur_old) =~~= r_old + seq![cur_old]);
    }
    r
}

/// `p` is a prefix of `v`.
pub open spec fn has_prefix_spec(v: Seq<u8>, p: Seq<u8>) -> bool {
    v.len() >= p.len() && v.subrange(0, p.len() as int) == p
}

pub fn has_prefix(v: &Vec<u8>, p: &Vec<u8>) -> (r: bool)
    ensures
        r == has_prefix_spec(v@, p@),
{
    if p.len() > v.len() {
        return false;
    }
    let mut i: usize = 0;
    while i < p.len()
        invariant
            0 <= i <= p@.len() <= v@.len(),
            forall|j: int| 0 <= j < i ==> v@[j] == p@[j],
        decreases p@.len() - i,
    {
        if v[i] != p[i] {
            assert(v@.subrange(0, p@.len() as int)[i as int] != p@[i as int]);
            return false;
        }
        i = i + 1;
    }
    assert(v@.subrange(0, p@.len() as int) =~= p@);
    true
}

/// A copy of `v[from..to]`.
pub fn subvec(v: &Vec<u8>, from: usize, to: usize) -> (r: Vec<u8>)
    requires
        from <= to <= v@.len(),
    ensures
        r@ == v@.subrange(from as int, to as int),
{
    let mut r: Vec<u8> = Vec::new();
    let mut i: usize = from;
    while i < to
        invariant
            from <= i <= to <= v@.len(),
            r@ == v@.subrange(from as int, i as int),
        decreases to - i,
    {
        r.push(v[i]);
        proof {
            assert(r@ =~= v@.subrange(from as int, i + 1));
        }
        i = i + 1;
    }
    r
}

/// The byte pattern `pat` occurs in `s` at position `i`.
pub open spec fn match_at(s: Seq<u8>, pat: Seq<u8>, i: int) -> bool {
    0 <= i && i + pat.len() <= s.len() && s.subrange(i, i + pat.len() as int) == pat
}

fn matches_at(v: &Vec<u8>, pat: &Vec<u8>, i: usize) -> (r: bool)
    ensures
        r == match_at(v@, pat@, i as int),
{
    if i > v.len() || pat.len() > v.len() - i {
        return false;
    }
    let n = v.len();
    let mut k: usize = 0;
    while k < pat.len()
        invariant
            0 <= k <= pat@.len(),
            i + pat@.len() <= n,
            n == v@.len(),
            forall|j: int| 0 <= j < k ==> v@[i + j] == pat@[j],
        decreases pat@.len() - k,
    {
        if v[i + k] != pat[k] {
            assert(v@.subrange(i as int, i + pat@.len() as int)[k as int] != pat@[k as int]);
            return false;
        }
        k = k + 1;
    }
    assert(v@.subrange(i as int, i + pat@.len() as int) =~= pat@);
    true
}

/// The position of the last occurrence of `pat` in `v`, if any.
pub fn find_last_match(v: &Vec<u8>, pat: &Vec<u8>) -> (r: Option<usize>)
    requires
        pat@.len() >= 1,
    ensures
        match r {
            Some(i) => match_at(v@, pat@, i as int) && forall|j: int|
                i < j ==> !match_at(v@, pat@, j),
            None => forall|j: int| !match_at(v@, pat@, j),
        },
{
    if pat.len() > v.len() {
        assert(forall|j: int| match_at(v@, pat@, j) ==> j + pat@.len() <= v@.len());
        return None;
    }
    let mut i: usize = v.len() - pat.len() + 1;
    while i > 0
        invariant
            0 <= i <= v@.len() - pat@.len() + 1,
            forall|j: int| i <= j ==> !match_at(v@, pat@, j),
        decreases i,
    {
        i = i - 1;
        if matches_at(v, pat, i) {
            return Some(i);
        }
    }
    None
}

} // verus!
