//! Deterministic ordering: lexicographic string comparison and a verified
//! insertion sort with deduplication for string lists.
//!
//! Every ordered output of the library is produced by a sort whose result
//! is a spec-level function of the input views, so ordering is always a
//! function of the snapshot and never of memory layout or hashing.

use vstd::prelude::*;

verus! {

use vstd::multiset::Multiset;
use vstd::string::StrSliceExecFns;
use vstd::string::StringExecFns;

/// Lexicographic order on character sequences by code point, the order
/// Rust gives string slices.
pub open spec fn char_seq_le(a: Seq<char>, b: Seq<char>) -> bool
    decreases a.len(),
{
    if a.len() == 0 {
        true
    } else if b.len() == 0 {
        false
    } else if a[0] != b[0] {
        (a[0] as u32) < (b[0] as u32)
    } else {
        char_seq_le(a.drop_first(), b.drop_first())
    }
}

/// String equality as view equality.
pub fn str_eq(a: &str, b: &str) -> (r: bool)
    ensures
        r == (a@ == b@),
{
    let x = String::from_str(a);
    let y = String::from_str(b);
    x == y
}

/// Lexicographic comparison of two string slices.
pub fn str_le(a: &str, b: &str) -> (r: bool)
    ensures
        r == char_seq_le(a@, b@),
{
    let la = a.unicode_len();
    let lb = b.unicode_len();
    let mut i: usize = 0;
    proof {
        assert(a@.skip(0) =~= a@);
        assert(b@.skip(0) =~= b@);
    }
    loop
        invariant
            i <= la,
            i <= lb,
            la == a@.len(),
            lb == b@.len(),
            char_seq_le(a@, b@) == char_seq_le(a@.skip(i as int), b@.skip(i as int)),
        decreases la - i,
    {
        if i >= la {
            proof {
                assert(a@.skip(i as int).len() == 0);
            }
            return true;
        }
        if i >= lb {
            proof {
                assert(b@.skip(i as int).len() == 0);
                assert(a@.skip(i as int).len() > 0);
            }
            return false;
        }
        let ca = a.get_char(i);
        let cb = b.get_char(i);
        proof {
            assert(a@.skip(i as int)[0] == a@[i as int]);
            assert(b@.skip(i as int)[0] == b@[i as int]);
        }
        if ca != cb {
            return (ca as u32) < (cb as u32);
        }
        proof {
            assert(a@.skip(i as int).drop_first() =~= a@.skip(i + 1));
            assert(b@.skip(i as int).drop_first() =~= b@.skip(i + 1));
        }
        i += 1;
    }
}

/// The lexicographic order is total.
pub proof fn lemma_char_seq_le_total(a: Seq<char>, b: Seq<char>)
    ensures
        char_seq_le(a, b) || char_seq_le(b, a),
    decreases a.len(),
{
    if a.len() != 0 && b.len() != 0 {
        if a[0] == b[0] {
            lemma_char_seq_le_total(a.drop_first(), b.drop_first());
        } else {
            // distinct characters have distinct scalar values
            vstd::utf8::char_u32_cast(a[0], a[0] as u32);
            vstd::utf8::char_u32_cast(b[0], b[0] as u32);
        }
    }
}

/// The lexicographic order is transitive.
pub proof fn lemma_char_seq_le_trans(a: Seq<char>, b: Seq<char>, c: Seq<char>)
    requires
        char_seq_le(a, b),
        char_seq_le(b, c),
    ensures
        char_seq_le(a, c),
    decreases a.len(),
{
    if a.len() != 0 && b.len() != 0 && c.len() != 0 && a[0] == b[0] && b[0] == c[0] {
        lemma_char_seq_le_trans(a.drop_first(), b.drop_first(), c.drop_first());
    }
}

/// Two sequences each at or below the other are equal.
pub proof fn lemma_char_seq_le_antisym(a: Seq<char>, b: Seq<char>)
    requires
        char_seq_le(a, b),
        char_seq_le(b, a),
    ensures
        a == b,
    decreases a.len(),
{
    if a.len() != 0 && b.len() != 0 && a[0] == b[0] {
        lemma_char_seq_le_antisym(a.drop_first(), b.drop_first());
        assert(a =~= seq![a[0]] + a.drop_first());
        assert(b =~= seq![b[0]] + b.drop_first());
    }
}

/// Inserts a string view into a sorted sequence, after any equal entries.
pub open spec fn spec_insert_str(s: Seq<Seq<char>>, x: Seq<char>) -> Seq<Seq<char>>
    decreases s.len(),
{
    if s.len() == 0 {
        seq![x]
    } else if char_seq_le(s.last(), x) {
        s.push(x)
    } else {
        spec_insert_str(s.drop_last(), x).push(s.last())
    }
}

/// Insertion sort of string views: stable and a function of its input.
pub open spec fn spec_sort_strs(s: Seq<Seq<char>>) -> Seq<Seq<char>>
    decreases s.len(),
{
    if s.len() == 0 {
        s
    } else {
        spec_insert_str(spec_sort_strs(s.drop_last()), s.last())
    }
}

/// Keeps the first entry of every run of equal neighbours.
pub open spec fn spec_dedup_strs(s: Seq<Seq<char>>) -> Seq<Seq<char>>
    decreases s.len(),
{
    if s.len() <= 1 {
        s
    } else if s[s.len() - 2] == s.last() {
        spec_dedup_strs(s.drop_last())
    } else {
        spec_dedup_strs(s.drop_last()).push(s.last())
    }
}

fn insert_string(acc: Vec<String>, x: String) -> (r: Vec<String>)
    ensures
        r.deep_view() == spec_insert_str(acc.deep_view(), x@),
    decreases acc.len(),
{
    let mut acc = acc;
    let ghost pre = acc.deep_view();
    if acc.len() == 0 {
        acc.push(x);
        proof {
            assert(acc.deep_view() =~= spec_insert_str(pre, x@));
        }
        return acc;
    }
    if str_le(acc[acc.len() - 1].as_str(), x.as_str()) {
        acc.push(x);
        proof {
            assert(acc.deep_view() =~= pre.push(x@));
        }
        return acc;
    }
    let last = acc.pop().unwrap();
    proof {
        assert(acc.deep_view() =~= pre.drop_last());
        assert(last@ == pre.last());
    }
    let mut out = insert_string(acc, x);
    let ghost mid = out.deep_view();
    out.push(last);
    proof {
        assert(out.deep_view() =~= mid.push(last@));
    }
    out
}

/// Sorts strings lexicographically; the result is the function of the
/// input views that `spec_sort_strs` gives.
pub fn sort_strings(v: Vec<String>) -> (r: Vec<String>)
    ensures
        r.deep_view() == spec_sort_strs(v.deep_view()),
    decreases v.len(),
{
    let mut v = v;
    let ghost pre = v.deep_view();
    if v.len() == 0 {
        return v;
    }
    let last = v.pop().unwrap();
    proof {
        assert(v.deep_view() =~= pre.drop_last());
        assert(last@ == pre.last());
    }
    let sorted = sort_strings(v);
    insert_string(sorted, last)
}

/// Drops every string equal to its predecessor.
pub fn dedup_strings(v: Vec<String>) -> (r: Vec<String>)
    ensures
        r.deep_view() == spec_dedup_strs(v.deep_view()),
    decreases v.len(),
{
    let mut v = v;
    let ghost pre = v.deep_view();
    if v.len() <= 1 {
        return v;
    }
    let last = v.pop().unwrap();
    proof {
        assert(v.deep_view() =~= pre.drop_last());
        assert(last@ == pre.last());
    }
    let keep = !str_eq(v[v.len() - 1].as_str(), last.as_str());
    let mut out = dedup_strings(v);
    let ghost mid = out.deep_view();
    if keep {
        out.push(last);
        proof {
            assert(out.deep_view() =~= mid.push(last@));
        }
    }
    out
}

/// Whether a sequence of string views is ordered.
pub open spec fn strs_sorted(s: Seq<Seq<char>>) -> bool {
    forall|i: int, j: int| 0 <= i < j < s.len() ==> char_seq_le(#[trigger] s[i], #[trigger] s[j])
}

/// Inserting into a sorted sequence keeps it sorted, and adds exactly the
/// new entry.
proof fn lemma_insert_str_sorted(s: Seq<Seq<char>>, x: Seq<char>)
    requires
        strs_sorted(s),
    ensures
        strs_sorted(spec_insert_str(s, x)),
        spec_insert_str(s, x).to_multiset() == s.to_multiset().insert(x),
    decreases s.len(),
{
    broadcast use vstd::seq_lib::group_seq_properties;

    if s.len() == 0 {
        assert(spec_insert_str(s, x) =~= seq![x]);
        assert(s.to_multiset() =~= Multiset::<Seq<char>>::empty());
        assert(seq![x].to_multiset() =~= Multiset::<Seq<char>>::empty().insert(x));
    } else if char_seq_le(s.last(), x) {
        let r = s.push(x);
        assert forall|i: int, j: int| 0 <= i < j < r.len() implies char_seq_le(r[i], r[j]) by {
            if j == r.len() - 1 {
                if i < s.len() - 1 {
                    lemma_char_seq_le_trans(r[i], s.last(), x);
                }
            }
        }
    } else {
        lemma_char_seq_le_total(s.last(), x);
        let head = s.drop_last();
        lemma_insert_str_sorted(head, x);
        let inner = spec_insert_str(head, x);
        let r = inner.push(s.last());
        assert forall|i: int, j: int| 0 <= i < j < r.len() implies char_seq_le(r[i], r[j]) by {
            if j == r.len() - 1 {
                assert(inner.to_multiset().contains(inner[i]));
                assert(head.to_multiset().insert(x).contains(inner[i]));
                if inner[i] == x {
                    assert(char_seq_le(x, s.last()));
                } else {
                    assert(head.to_multiset().contains(inner[i]));
                    let k = choose|k: int| 0 <= k < head.len() && head[k] == inner[i];
                    assert(s[k] == head[k]);
                    assert(char_seq_le(s[k], s.last()));
                }
            }
        }
        assert(s =~= head.push(s.last()));
        assert(s.to_multiset() =~= head.to_multiset().insert(s.last()));
        assert(r.to_multiset() =~= inner.to_multiset().insert(s.last()));
    }
}

/// The string sort orders its input and keeps exactly its entries.
pub proof fn lemma_sort_strs_sorted(s: Seq<Seq<char>>)
    ensures
        strs_sorted(spec_sort_strs(s)),
        spec_sort_strs(s).to_multiset() == s.to_multiset(),
    decreases s.len(),
{
    broadcast use vstd::seq_lib::group_seq_properties;

    if s.len() > 0 {
        lemma_sort_strs_sorted(s.drop_last());
        lemma_insert_str_sorted(spec_sort_strs(s.drop_last()), s.last());
        assert(s =~= s.drop_last().push(s.last()));
        assert(s.to_multiset() =~= s.drop_last().to_multiset().insert(s.last()));
    }
}


/// Deduplication keeps a sorted list sorted and leaves no equal
/// neighbours, with exactly the distinct entries.
pub proof fn lemma_dedup_strs_sorted(s: Seq<Seq<char>>)
    requires
        strs_sorted(s),
    ensures
        strs_sorted(spec_dedup_strs(s)),
        forall|i: int|
            0 < i < spec_dedup_strs(s).len() ==> spec_dedup_strs(s)[i - 1] != #[trigger] spec_dedup_strs(
                s,
            )[i],
        forall|x: Seq<char>| #[trigger] spec_dedup_strs(s).contains(x) <==> s.contains(x),
    decreases s.len(),
{
    let d = spec_dedup_strs(s);
    if s.len() <= 1 {
        assert(forall|x: Seq<char>| d.contains(x) <==> s.contains(x));
    } else {
        let head = s.drop_last();
        assert(strs_sorted(head));
        lemma_dedup_strs_sorted(head);
        let dh = spec_dedup_strs(head);
        if s[s.len() - 2] == s.last() {
            assert(head.contains(s.last())) by {
                assert(head[s.len() - 2] == s.last());
            }
            assert forall|x: Seq<char>| #[trigger] d.contains(x) <==> s.contains(x) by {
                if s.contains(x) {
                    let k = choose|k: int| 0 <= k < s.len() && s[k] == x;
                    if k == s.len() - 1 {
                        assert(head[s.len() - 2] == x);
                        assert(head.contains(x));
                    } else {
                        assert(head[k] == x);
                        assert(head.contains(x));
                    }
                }
                if d.contains(x) {
                    let k = choose|k: int| 0 <= k < head.len() && head[k] == x;
                    assert(s[k] == x);
                }
            }
        } else {
            assert forall|i: int, j: int| 0 <= i < j < d.len() implies char_seq_le(d[i], d[j]) by {
                if j == d.len() - 1 {
                    assert(dh.contains(d[i]));
                    assert(head.contains(d[i]));
                    let k = choose|k: int| 0 <= k < head.len() && head[k] == d[i];
                    assert(char_seq_le(s[k], s.last())) by {
                        assert(k < s.len() - 1);
                    }
                }
            }
            assert forall|i: int| 0 < i < d.len() implies #[trigger] d[i - 1] != d[i] by {
                if i == d.len() - 1 {
                    if d.len() >= 2 {
                        assert(dh.contains(d[i - 1]));
                        assert(head.contains(d[i - 1]));
                        let k = choose|k: int| 0 <= k < head.len() && head[k] == d[i - 1];
                        if d[i - 1] == s.last() {
                            assert(char_seq_le(s[k], s[s.len() - 2]));
                            assert(char_seq_le(s[s.len() - 2], s.last()));
                            assert(char_seq_le(s.last(), s[s.len() - 2])) by {
                                assert(char_seq_le(s[k], s[s.len() - 2]));
                            }
                            lemma_char_seq_le_antisym(s[s.len() - 2], s.last());
                        }
                    }
                }
            }
            assert forall|x: Seq<char>| #[trigger] d.contains(x) <==> s.contains(x) by {
                if s.contains(x) {
                    let k = choose|k: int| 0 <= k < s.len() && s[k] == x;
                    if k < s.len() - 1 {
                        assert(head[k] == x);
                        assert(head.contains(x));
                        assert(dh.contains(x));
                        assert(d[choose|m: int| 0 <= m < dh.len() && dh[m] == x] == x);
                    } else {
                        assert(d.last() == x);
                    }
                }
                if d.contains(x) {
                    let k = choose|k: int| 0 <= k < d.len() && d[k] == x;
                    if k < d.len() - 1 {
                        assert(dh.contains(x));
                        assert(head.contains(x));
                        let m = choose|m: int| 0 <= m < head.len() && head[m] == x;
                        assert(s[m] == x);
                    } else {
                        assert(s.last() == x);
                    }
                }
            }
        }
    }
}

/// Deduplication of a non-empty list leaves something.
pub proof fn lemma_dedup_strs_nonempty(s: Seq<Seq<char>>)
    requires
        s.len() >= 1,
    ensures
        spec_dedup_strs(s).len() >= 1,
    decreases s.len(),
{
    if s.len() > 1 && s[s.len() - 2] == s.last() {
        lemma_dedup_strs_nonempty(s.drop_last());
    }
}
} // verus!
