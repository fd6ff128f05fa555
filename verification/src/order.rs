//! The deterministic order on validators used for selection and splitting:
//! ascending by `(bonded, address bytes)`.  Selection for a new bond takes the
//! least record under this order; the unbond split walks records in the
//! reverse (descending) order.  The address tie-break is the byte order of the
//! UTF-8 encoding, matching a storage index keyed by `(bonded, address)`.

use vstd::prelude::*;
use vstd::utf8::encode_utf8;

use crate::state::ValidatorRecord;

verus! {

/// Strict lexicographic order on byte strings.
pub open spec fn bytes_lt(a: Seq<u8>, b: Seq<u8>) -> bool
    decreases a.len(),
{
    if b.len() == 0 {
        false
    } else if a.len() == 0 {
        true
    } else if a[0] != b[0] {
        a[0] < b[0]
    } else {
        bytes_lt(a.drop_first(), b.drop_first())
    }
}

pub proof fn lemma_bytes_lt_irrefl(a: Seq<u8>)
    ensures
        !bytes_lt(a, a),
    decreases a.len(),
{
    if a.len() > 0 {
        lemma_bytes_lt_irrefl(a.drop_first());
    }
}

pub proof fn lemma_bytes_lt_trans(a: Seq<u8>, b: Seq<u8>, c: Seq<u8>)
    requires
        bytes_lt(a, b),
        bytes_lt(b, c),
    ensures
        bytes_lt(a, c),
    decreases a.len(),
{
    if a.len() != 0 && b.len() != 0 && c.len() != 0 {
        if a[0] == b[0] && b[0] == c[0] {
            lemma_bytes_lt_trans(a.drop_first(), b.drop_first(), c.drop_first());
        }
    }
}

/// Totality: two byte strings compare one way, the other, or are equal.
pub proof fn lemma_bytes_lt_total(a: Seq<u8>, b: Seq<u8>)
    ensures
        bytes_lt(a, b) || bytes_lt(b, a) || a == b,
    decreases a.len(),
{
    if a.len() != 0 && b.len() != 0 && a[0] == b[0] {
        lemma_bytes_lt_total(a.drop_first(), b.drop_first());
        if a.drop_first() == b.drop_first() {
            assert forall|i: int| 0 <= i < a.len() implies a[i] == b[i] by {
                if i > 0 {
                    assert(a.drop_first()[i - 1] == b.drop_first()[i - 1]);
                }
            }
            assert(a =~= b);
        }
    } else if a.len() == 0 && b.len() == 0 {
        assert(a =~= b);
    }
}

/// Strict byte-lexicographic comparison of two byte slices.
fn u8_slice_lt(a: &[u8], b: &[u8]) -> (r: bool)
    ensures
        r == bytes_lt(a@, b@),
    decreases a@.len(),
{
    let mut i: usize = 0;
    proof {
        assert(a@.skip(0) =~= a@);
        assert(b@.skip(0) =~= b@);
    }
    loop
        invariant
            i <= a@.len(),
            i <= b@.len(),
            bytes_lt(a@, b@) == bytes_lt(a@.skip(i as int), b@.skip(i as int)),
        decreases a@.len() - i,
    {
        if i >= b.len() {
            return false;
        }
        if i >= a.len() {
            return true;
        }
        let x = a[i];
        let y = b[i];
        if x != y {
            return x < y;
        }
        proof {
            assert(a@.skip(i as int).drop_first() =~= a@.skip(i + 1));
            assert(b@.skip(i as int).drop_first() =~= b@.skip(i + 1));
        }
        i = i + 1;
    }
}

/// Strict byte order of two strings (the order of a byte-keyed index).
pub fn str_bytes_lt(a: &String, b: &String) -> (r: bool)
    ensures
        r == bytes_lt(encode_utf8(a@), encode_utf8(b@)),
{
    u8_slice_lt(a.as_str().as_bytes(), b.as_str().as_bytes())
}

/// The selection key order on validator records: ascending `bonded`, ties
/// broken by ascending address bytes.
pub open spec fn vr_key_lt(a: ValidatorRecord, b: ValidatorRecord) -> bool {
    a.info.bonded < b.info.bonded || (a.info.bonded == b.info.bonded && bytes_lt(
        encode_utf8(a.address@),
        encode_utf8(b.address@),
    ))
}

/// Exec comparison deciding `vr_key_lt`.
pub fn vr_key_lt_exec(a: &ValidatorRecord, b: &ValidatorRecord) -> (r: bool)
    ensures
        r == vr_key_lt(*a, *b),
{
    if a.info.bonded < b.info.bonded {
        true
    } else if a.info.bonded == b.info.bonded {
        str_bytes_lt(&a.address, &b.address)
    } else {
        false
    }
}

pub proof fn lemma_vr_key_lt_irrefl(a: ValidatorRecord)
    ensures
        !vr_key_lt(a, a),
{
    lemma_bytes_lt_irrefl(encode_utf8(a.address@));
}

pub proof fn lemma_vr_key_lt_trans(a: ValidatorRecord, b: ValidatorRecord, c: ValidatorRecord)
    requires
        vr_key_lt(a, b),
        vr_key_lt(b, c),
    ensures
        vr_key_lt(a, c),
{
    if a.info.bonded == b.info.bonded && b.info.bonded == c.info.bonded {
        lemma_bytes_lt_trans(encode_utf8(a.address@), encode_utf8(b.address@), encode_utf8(c.address@));
    }
}

/// Totality of the key order: records with distinct addresses compare
/// strictly one way or the other.
pub proof fn lemma_vr_key_lt_total(a: ValidatorRecord, b: ValidatorRecord)
    ensures
        vr_key_lt(a, b) || vr_key_lt(b, a) || a.address@ == b.address@,
{
    if a.info.bonded == b.info.bonded {
        lemma_bytes_lt_total(encode_utf8(a.address@), encode_utf8(b.address@));
        if encode_utf8(a.address@) == encode_utf8(b.address@) {
            vstd::utf8::encode_utf8_decode_utf8(a.address@);
            vstd::utf8::encode_utf8_decode_utf8(b.address@);
        }
    }
}

/// `v` inserted into a descending-sorted sequence, just before the first
/// element smaller than `v` counted from the end.
pub open spec fn spec_insert_desc(s: Seq<ValidatorRecord>, v: ValidatorRecord) -> Seq<
    ValidatorRecord,
>
    decreases s.len(),
{
    if s.len() == 0 {
        seq![v]
    } else if vr_key_lt(v, s.last()) {
        s.push(v)
    } else {
        spec_insert_desc(s.drop_last(), v).push(s.last())
    }
}

/// The registry sorted descending by the selection key: the record with the
/// greatest `(bonded, address)` first.
pub open spec fn spec_sort_desc(s: Seq<ValidatorRecord>) -> Seq<ValidatorRecord>
    decreases s.len(),
{
    if s.len() == 0 {
        Seq::empty()
    } else {
        spec_insert_desc(spec_sort_desc(s.drop_last()), s.last())
    }
}

/// Where insertion puts `v`: some position `k`, everything before it kept in
/// place, everything after it shifted up by one.
pub open spec fn insert_splits_at(
    s: Seq<ValidatorRecord>,
    v: ValidatorRecord,
    k: int,
) -> bool {
    &&& 0 <= k <= s.len()
    &&& spec_insert_desc(s, v).len() == s.len() + 1
    &&& spec_insert_desc(s, v)[k] == v
    &&& forall|i: int| 0 <= i < k ==> spec_insert_desc(s, v)[i] == s[i]
    &&& forall|i: int| k < i <= s.len() ==> spec_insert_desc(s, v)[i] == s[i - 1]
}

/// Inserting splits the sequence at some position `k`.
pub proof fn lemma_insert_desc_structure(s: Seq<ValidatorRecord>, v: ValidatorRecord)
    ensures
        spec_insert_desc(s, v).len() == s.len() + 1,
        exists|k: int| insert_splits_at(s, v, k),
    decreases s.len(),
{
    if s.len() == 0 {
        assert(insert_splits_at(s, v, 0));
    } else if vr_key_lt(v, s.last()) {
        assert(insert_splits_at(s, v, s.len() as int));
    } else {
        lemma_insert_desc_structure(s.drop_last(), v);
        let k = choose|k: int| insert_splits_at(s.drop_last(), v, k);
        let r = spec_insert_desc(s.drop_last(), v);
        assert forall|i: int| 0 <= i < k implies spec_insert_desc(s, v)[i] == s[i] by {
            assert(r.push(s.last())[i] == r[i]);
            assert(s.drop_last()[i] == s[i]);
        }
        assert forall|i: int| k < i <= s.len() implies spec_insert_desc(s, v)[i] == s[i - 1] by {
            if i < s.len() {
                assert(r.push(s.last())[i] == r[i]);
                assert(s.drop_last()[i - 1] == s[i - 1]);
            } else {
                assert(r.push(s.last())[i] == s.last());
            }
        }
        assert(insert_splits_at(s, v, k));
    }
}

/// The sorted registry has the same length and the same elements.
pub proof fn lemma_sort_desc_elems(s: Seq<ValidatorRecord>)
    ensures
        spec_sort_desc(s).len() == s.len(),
        forall|x: ValidatorRecord| spec_sort_desc(s).contains(x) <==> s.contains(x),
    decreases s.len(),
{
    if s.len() > 0 {
        lemma_sort_desc_elems(s.drop_last());
        let sorted_prefix = spec_sort_desc(s.drop_last());
        lemma_insert_desc_structure(sorted_prefix, s.last());
        let k = choose|k: int| insert_splits_at(sorted_prefix, s.last(), k);
        assert forall|x: ValidatorRecord| spec_sort_desc(s).contains(x) implies s.contains(
            x,
        ) by {
            let i = choose|i: int| 0 <= i < spec_sort_desc(s).len() && spec_sort_desc(s)[i] == x;
            if i < k {
                assert(sorted_prefix[i] == x);
                assert(sorted_prefix.contains(x));
                assert(s.drop_last().contains(x));
                let p = choose|p: int| 0 <= p < s.drop_last().len() && s.drop_last()[p] == x;
                assert(s[p] == x);
            } else if i == k {
                assert(x == s.last());
            } else {
                assert(sorted_prefix[i - 1] == x);
                assert(sorted_prefix.contains(x));
                assert(s.drop_last().contains(x));
                let p = choose|p: int| 0 <= p < s.drop_last().len() && s.drop_last()[p] == x;
                assert(s[p] == x);
            }
        }
        assert forall|x: ValidatorRecord| s.contains(x) implies spec_sort_desc(s).contains(
            x,
        ) by {
            let p = choose|p: int| 0 <= p < s.len() && s[p] == x;
            if p == s.len() - 1 {
                assert(spec_sort_desc(s)[k] == x);
            } else {
                assert(s.drop_last()[p] == x);
                assert(s.drop_last().contains(x));
                let i = choose|i: int| 0 <= i < sorted_prefix.len() && sorted_prefix[i] == x;
                if i < k {
                    assert(spec_sort_desc(s)[i] == x);
                } else {
                    assert(spec_sort_desc(s)[i + 1] == x);
                }
            }
        }
    }
}

/// Sorting a registry with pairwise-distinct addresses yields pairwise
/// distinct addresses (no record is duplicated or dropped).
pub proof fn lemma_sort_desc_addr_unique(s: Seq<ValidatorRecord>)
    requires
        forall|p: int, q: int| 0 <= p < q < s.len() ==> s[p].address@ != s[q].address@,
    ensures
        forall|i: int, j: int|
            0 <= i < j < spec_sort_desc(s).len() ==> spec_sort_desc(s)[i].address@
                != spec_sort_desc(s)[j].address@,
    decreases s.len(),
{
    if s.len() > 0 {
        let sorted_prefix = spec_sort_desc(s.drop_last());
        assert(forall|p: int, q: int|
            0 <= p < q < s.drop_last().len() ==> s.drop_last()[p].address@
                != s.drop_last()[q].address@);
        lemma_sort_desc_addr_unique(s.drop_last());
        lemma_sort_desc_elems(s.drop_last());
        lemma_insert_desc_structure(sorted_prefix, s.last());
        let k = choose|k: int| insert_splits_at(sorted_prefix, s.last(), k);
        assert forall|i: int, j: int|
            0 <= i < j < spec_sort_desc(s).len() implies spec_sort_desc(s)[i].address@
            != spec_sort_desc(s)[j].address@ by {
            let a = spec_sort_desc(s)[i];
            let b = spec_sort_desc(s)[j];
            if a.address@ == b.address@ {
                if i == k {
                    // `a` is the newly inserted last record; `b` sits in the
                    // sorted prefix, so it is one of the earlier records.
                    assert(b == sorted_prefix[j - 1]);
                    assert(sorted_prefix.contains(b));
                    assert(s.drop_last().contains(b));
                    let p = choose|p: int| 0 <= p < s.drop_last().len() && s.drop_last()[p] == b;
                    assert(s[p].address@ == s.last().address@);
                } else if j == k {
                    assert(a == sorted_prefix[i]);
                    assert(sorted_prefix.contains(a));
                    assert(s.drop_last().contains(a));
                    let p = choose|p: int| 0 <= p < s.drop_last().len() && s.drop_last()[p] == a;
                    assert(s[p].address@ == s.last().address@);
                } else {
                    let i2: int = if i < k {
                        i
                    } else {
                        i - 1
                    };
                    let j2: int = if j < k {
                        j
                    } else {
                        j - 1
                    };
                    assert(sorted_prefix[i2] == a);
                    assert(sorted_prefix[j2] == b);
                }
            }
        }
    }
}

/// In a registry with pairwise-distinct addresses, two members that share an
/// address are the same record.
proof fn lemma_addr_unique_contains(s: Seq<ValidatorRecord>, a: ValidatorRecord, b: ValidatorRecord)
    requires
        forall|p: int, q: int| 0 <= p < q < s.len() ==> s[p].address@ != s[q].address@,
        s.contains(a),
        s.contains(b),
        a.address@ == b.address@,
    ensures
        a == b,
{
    let p = choose|p: int| 0 <= p < s.len() && s[p] == a;
    let q = choose|q: int| 0 <= q < s.len() && s[q] == b;
    if p != q {
        assert(s[p].address@ != s[q].address@);
    }
}

/// Insert `v` into the descending-sorted `s`.
fn insert_desc(s: Vec<ValidatorRecord>, v: ValidatorRecord) -> (r: Vec<ValidatorRecord>)
    ensures
        r@ == spec_insert_desc(s@, v),
    decreases s@.len(),
{
    let mut s = s;
    if s.len() == 0 {
        s.push(v);
        proof {
            assert(s@ =~= seq![v]);
        }
        s
    } else {
        let goes_last = vr_key_lt_exec(&v, &s[s.len() - 1]);
        if goes_last {
            s.push(v);
            s
        } else {
            let last = s.pop().unwrap();
            let mut r = insert_desc(s, v);
            r.push(last);
            r
        }
    }
}

/// A copy of the registry sorted descending by the selection key.
pub fn sort_validators_desc(vals: &Vec<ValidatorRecord>) -> (r: Vec<ValidatorRecord>)
    ensures
        r@ == spec_sort_desc(vals@),
{
    let n = vals.len();
    let mut out: Vec<ValidatorRecord> = Vec::new();
    let mut i: usize = 0;
    while i < n
        invariant
            i <= n,
            n == vals@.len(),
            out@ == spec_sort_desc(vals@.take(i as int)),
        decreases n - i,
    {
        let v = vals[i].clone();
        out = insert_desc(out, v);
        proof {
            assert(vals@.take(i + 1).drop_last() =~= vals@.take(i as int));
            assert(vals@.take(i + 1).last() == vals@[i as int]);
        }
        i = i + 1;
    }
    proof {
        assert(vals@.take(n as int) =~= vals@);
    }
    out
}

} // verus!
