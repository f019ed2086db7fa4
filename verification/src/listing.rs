use vstd::prelude::*;

use crate::fixed_str::{decode_string, decoded_chars};
use vstd::slice::slice_subrange;
use vstd::utf8::{encode_utf8, encode_utf8_decode_utf8};

verus! {

/// Byte-wise lexicographic order on byte sequences: a proper prefix comes
/// first, otherwise the first differing byte decides.
pub open spec fn lex_le(a: Seq<u8>, b: Seq<u8>) -> bool
    decreases a.len(),
{
    if a.len() == 0 {
        true
    } else if b.len() == 0 {
        false
    } else if a[0] < b[0] {
        true
    } else if a[0] > b[0] {
        false
    } else {
        lex_le(a.drop_first(), b.drop_first())
    }
}

/// The order strings sort in: lexicographic over their UTF-8 bytes, which
/// is exactly how strings compare in the host language.
pub open spec fn str_le(a: Seq<char>, b: Seq<char>) -> bool {
    lex_le(encode_utf8(a), encode_utf8(b))
}

pub open spec fn str_lt(a: Seq<char>, b: Seq<char>) -> bool {
    str_le(a, b) && a != b
}

/// Strictly ascending: sorted, with no duplicates.
pub open spec fn sorted_distinct(v: Seq<String>) -> bool {
    forall|i: int, j: int| 0 <= i < j < v.len() ==> str_lt(#[trigger] v[i]@, #[trigger] v[j]@)
}

/// Some entry of `v` reads as `name`.
pub open spec fn contains_name(v: Seq<String>, name: Seq<char>) -> bool {
    exists|i: int| 0 <= i < v.len() && (#[trigger] v[i])@ == name
}

/// The `i`-th four-byte table name in a raw listing buffer.
pub open spec fn chunk_name(b: Seq<u8>, i: int) -> Seq<char> {
    decoded_chars(b.subrange(4 * i, 4 * i + 4))
}

/// Every entry of `r` reads as one of the first `bound` four-byte table
/// names of the buffer: the listing invents nothing.
pub open spec fn names_from(r: Seq<String>, b: Seq<u8>, bound: int) -> bool {
    forall|j: int|
        0 <= j < r.len() ==> exists|i: int|
            0 <= i < bound && (#[trigger] r[j])@ == chunk_name(b, i)
}

proof fn lemma_lex_total(a: Seq<u8>, b: Seq<u8>)
    ensures
        lex_le(a, b) || lex_le(b, a),
    decreases a.len(),
{
    if a.len() > 0 && b.len() > 0 && a[0] == b[0] {
        lemma_lex_total(a.drop_first(), b.drop_first());
    }
}

proof fn lemma_lex_antisym(a: Seq<u8>, b: Seq<u8>)
    ensures
        lex_le(a, b) && lex_le(b, a) ==> a == b,
    decreases a.len(),
{
    if lex_le(a, b) && lex_le(b, a) && a.len() > 0 {
        assert(b.len() > 0);
        assert(a[0] == b[0]);
        lemma_lex_antisym(a.drop_first(), b.drop_first());
        assert(a.drop_first() == b.drop_first());
        assert forall|i: int| 0 <= i < a.len() implies a[i] == b[i] by {
            if i > 0 {
                assert(a[i] == a.drop_first()[i - 1]);
                assert(b[i] == b.drop_first()[i - 1]);
            }
        }
        assert(a =~= b);
    }
}

proof fn lemma_lex_trans(a: Seq<u8>, b: Seq<u8>, c: Seq<u8>)
    requires
        lex_le(a, b),
        lex_le(b, c),
    ensures
        lex_le(a, c),
    decreases a.len(),
{
    if a.len() > 0 && b.len() > 0 && c.len() > 0 && a[0] == b[0] && b[0] == c[0] {
        lemma_lex_trans(a.drop_first(), b.drop_first(), c.drop_first());
    }
}

/// `str_le` orders strings totally: antisymmetry rests on UTF-8 encoding
/// being injective.
proof fn lemma_str_order(a: Seq<char>, b: Seq<char>)
    ensures
        str_le(a, b) || str_le(b, a),
        str_le(a, b) && str_le(b, a) ==> a == b,
{
    lemma_lex_total(encode_utf8(a), encode_utf8(b));
    lemma_lex_antisym(encode_utf8(a), encode_utf8(b));
    if encode_utf8(a) == encode_utf8(b) {
        encode_utf8_decode_utf8(a);
        encode_utf8_decode_utf8(b);
    }
}

proof fn lemma_str_trans(a: Seq<char>, b: Seq<char>, c: Seq<char>)
    requires
        str_le(a, b),
        str_le(b, c),
    ensures
        str_le(a, c),
{
    lemma_lex_trans(encode_utf8(a), encode_utf8(b), encode_utf8(c));
}

/// Compares two strings in the order [`str_le`]: byte-wise over their
/// UTF-8 encodings.
fn str_le_exec(a: &str, b: &str) -> (r: bool)
    ensures
        r == str_le(a@, b@),
{
    let ab = a.as_bytes();
    let bb = b.as_bytes();
    let mut i: usize = 0;
    proof {
        assert(ab@.skip(0) =~= ab@);
        assert(bb@.skip(0) =~= bb@);
    }
    while i < ab.len() && i < bb.len()
        invariant
            i <= ab@.len(),
            i <= bb@.len(),
            ab@ == encode_utf8(a@),
            bb@ == encode_utf8(b@),
            lex_le(ab@, bb@) == lex_le(ab@.skip(i as int), bb@.skip(i as int)),
        decreases ab@.len() - i,
    {
        let x = ab[i];
        let y = bb[i];
        proof {
            assert(ab@.skip(i as int)[0] == ab@[i as int]);
            assert(bb@.skip(i as int)[0] == bb@[i as int]);
            assert(ab@.skip(i as int).drop_first() =~= ab@.skip(i as int + 1));
            assert(bb@.skip(i as int).drop_first() =~= bb@.skip(i as int + 1));
        }
        if x < y {
            return true;
        }
        if x > y {
            return false;
        }
        i = i + 1;
    }
    proof {
        if i >= ab@.len() {
            assert(ab@.skip(i as int) =~= Seq::<u8>::empty());
        } else {
            assert(bb@.skip(i as int) =~= Seq::<u8>::empty());
            assert(ab@.skip(i as int).len() > 0);
        }
    }
    i >= ab.len()
}

/// The index `name` belongs at in a strictly sorted vector: everything
/// before it is strictly below `name`, and the entry at it (if any) is at
/// or above `name`.
fn find_pos(r: &Vec<String>, name: &String) -> (pos: usize)
    requires
        sorted_distinct(r@),
    ensures
        pos <= r@.len(),
        forall|k: int| 0 <= k < pos ==> str_lt((#[trigger] r@[k])@, name@),
        pos < r@.len() ==> str_le(name@, r@[pos as int]@),
{
    let mut pos: usize = 0;
    loop
        invariant
            pos <= r@.len(),
            sorted_distinct(r@),
            forall|k: int| 0 <= k < pos ==> str_lt((#[trigger] r@[k])@, name@),
        decreases r@.len() - pos,
    {
        if pos >= r.len() {
            return pos;
        }
        let le = str_le_exec(r[pos].as_str(), name.as_str());
        proof {
            lemma_str_order(r@[pos as int]@, name@);
        }
        if le {
            if r[pos] == *name {
                return pos;
            }
            pos = pos + 1;
        } else {
            return pos;
        }
    }
}

/// Inserts `name` into a strictly sorted vector, keeping it strictly
/// sorted: a duplicate is dropped, everything else keeps its place.
fn insert_sorted(r: &mut Vec<String>, name: String)
    requires
        sorted_distinct(old(r)@),
    ensures
        sorted_distinct(final(r)@),
        forall|x: Seq<char>|
            #[trigger] contains_name(final(r)@, x) <==> (contains_name(old(r)@, x) || x
                == name@),
{
    let pos = find_pos(r, &name);
    if pos < r.len() {
        if r[pos] == name {
            proof {
                assert(r@[pos as int]@ == name@);
                assert(contains_name(r@, name@));
                assert forall|x: Seq<char>| #[trigger]
                    contains_name(r@, x) <==> (contains_name(old(r)@, x) || x == name@) by {
                    if x == name@ {
                        assert(contains_name(r@, x));
                    }
                }
            }
            return;
        }
    }
    proof {
        if (pos as int) < r@.len() {
            lemma_str_order(r@[pos as int]@, name@);
            assert(str_lt(name@, r@[pos as int]@));
        }
    }
    let ghost prev = r@;
    r.insert(pos, name);
    proof {
        let cur = r@;
        assert(cur == prev.insert(pos as int, name));
        assert(cur[pos as int]@ == name@);
        assert forall|i: int, j: int| 0 <= i < j < cur.len() implies str_lt(
            (#[trigger] cur[i])@,
            (#[trigger] cur[j])@,
        ) by {
            let iv = if i < pos {
                prev[i]
            } else if i == pos {
                name
            } else {
                prev[i - 1]
            };
            let jv = if j < pos {
                prev[j]
            } else if j == pos {
                name
            } else {
                prev[j - 1]
            };
            assert(cur[i] == iv);
            assert(cur[j] == jv);
            if i < pos && j == pos {
                // already str_lt(prev[i]@, name@)
            } else if i == pos && j > pos {
                // name < prev[pos] <= prev[j-1]
                if j - 1 > pos as int {
                    assert(str_lt(prev[pos as int]@, prev[j - 1]@));
                    lemma_str_trans(name@, prev[pos as int]@, prev[j - 1]@);
                    lemma_str_order(name@, prev[j - 1]@);
                    if name@ == prev[j - 1]@ {
                        lemma_str_order(prev[pos as int]@, prev[j - 1]@);
                    }
                }
            } else if i < pos && j > pos {
                if j - 1 > i {
                    // both from prev, order kept
                } else {
                    // j - 1 == i: prev[i] < name directly
                }
            }
        }
        assert forall|x: Seq<char>| #[trigger]
            contains_name(cur, x) implies (contains_name(prev, x) || x == name@) by {
            let k = choose|k: int| 0 <= k < cur.len() && (#[trigger] cur[k])@ == x;
            if k < pos as int {
                assert(prev[k]@ == x);
            } else if k > pos as int {
                assert(prev[k - 1]@ == x);
            }
        }
        assert forall|x: Seq<char>|
            (contains_name(prev, x) || x == name@) implies #[trigger] contains_name(
            cur,
            x,
        ) by {
            if x == name@ {
                assert(cur[pos as int]@ == x);
            } else {
                let k = choose|k: int| 0 <= k < prev.len() && (#[trigger] prev[k])@ == x;
                if k < pos as int {
                    assert(cur[k]@ == x);
                } else {
                    assert(cur[k + 1]@ == x);
                }
            }
        }
    }
}

/// Splits a raw listing buffer into four-byte table names, sorts them
/// lexicographically, and drops duplicates: every whole four-byte chunk is
/// represented exactly once, in strictly ascending order, and nothing
/// else appears. A trailing partial chunk is ignored.
pub fn table_types(buffer: &[u8]) -> (r: Vec<String>)
    ensures
        sorted_distinct(r@),
        forall|i: int| 0 <= i < buffer@.len() / 4 ==> contains_name(r@, chunk_name(buffer@, i)),
        names_from(r@, buffer@, buffer@.len() as int / 4),
{
    let blen = buffer.len();
    let n = blen / 4;
    proof {
        assert(4 * (buffer@.len() as int / 4) <= buffer@.len() as int) by (nonlinear_arith);
    }
    let mut r: Vec<String> = Vec::new();
    let mut idx: usize = 0;
    while idx < n
        invariant
            n == buffer@.len() as int / 4,
            4 * n <= buffer@.len(),
            buffer@.len() <= usize::MAX,
            idx <= n,
            sorted_distinct(r@),
            forall|i: int| 0 <= i < idx ==> contains_name(r@, chunk_name(buffer@, i)),
            names_from(r@, buffer@, idx as int),
        decreases n - idx,
    {
        let name = decode_string(slice_subrange(buffer, 4 * idx, 4 * idx + 4));
        proof {
            assert(name@ == chunk_name(buffer@, idx as int));
        }
        let ghost prev = r@;
        insert_sorted(&mut r, name);
        proof {
            assert forall|i: int| 0 <= i < idx + 1 implies contains_name(
                r@,
                chunk_name(buffer@, i),
            ) by {
                if i < idx {
                    assert(contains_name(prev, chunk_name(buffer@, i)));
                    assert(contains_name(r@, chunk_name(buffer@, i)));
                } else {
                    assert(contains_name(r@, name@));
                }
            }
            assert forall|j: int| 0 <= j < r@.len() implies exists|i: int|
                0 <= i < idx + 1 && (#[trigger] r@[j])@ == chunk_name(buffer@, i) by {
                assert(contains_name(r@, r@[j]@));
                assert(contains_name(prev, r@[j]@) || r@[j]@ == name@);
                if contains_name(prev, r@[j]@) {
                    let k = choose|k: int| 0 <= k < prev.len() && (#[trigger] prev[k])@ == r@[j]@;
                    let i0 = choose|i0: int|
                        0 <= i0 < idx && (#[trigger] prev[k])@ == chunk_name(buffer@, i0);
                    assert(r@[j]@ == chunk_name(buffer@, i0));
                } else {
                    assert(r@[j]@ == chunk_name(buffer@, idx as int));
                }
            }
            assert(names_from(r@, buffer@, idx + 1));
        }
        idx = idx + 1;
    }
    proof {
        assert(idx as int == buffer@.len() as int / 4);
        assert(names_from(r@, buffer@, buffer@.len() as int / 4));
    }
    r
}

} // verus!
