//! Ordering listings by the numeric value of their ids.
use vstd::prelude::*;
use vstd::string::*;
use crate::text::all_digits;

verus! {

/// The value of an ASCII digit.
pub open spec fn digit_value(c: char) -> nat {
    ((c as u32) - ('0' as u32)) as nat
}

/// The decimal value of a text of digits.
pub open spec fn digits_value(s: Seq<char>) -> nat
    decreases s.len(),
{
    if s.len() == 0 {
        0
    } else {
        digits_value(s.drop_last()) * 10 + digit_value(s.last())
    }
}

/// The id read as an unsigned 64-bit number, or 0 when it is not one: it
/// must be a non-empty text of digits whose value fits.
pub open spec fn numeric_key(s: Seq<char>) -> nat {
    if s.len() > 0 && all_digits(s) && digits_value(s) <= u64::MAX {
        digits_value(s)
    } else {
        0
    }
}

proof fn lemma_digits_grow(s: Seq<char>, i: int, j: int)
    requires
        0 <= i <= j <= s.len(),
        all_digits(s),
    ensures
        digits_value(s.subrange(0, i)) <= digits_value(s.subrange(0, j)),
    decreases j - i,
{
    if i < j {
        lemma_digits_grow(s, i, j - 1);
        assert(s.subrange(0, j).drop_last() =~= s.subrange(0, j - 1));
    }
}

/// The numeric value of an id (see `numeric_key`).
pub fn numeric_id(s: &str) -> (r: u64)
    ensures
        r == numeric_key(s@),
{
    let n = s.unicode_len();
    if n == 0 {
        return 0;
    }
    let mut v: u64 = 0;
    let mut i: usize = 0;
    proof {
        assert(s@.subrange(0, 0) =~= Seq::<char>::empty());
    }
    while i < n
        invariant
            n == s@.len(),
            i <= n,
            v == digits_value(s@.subrange(0, i as int)),
            forall|j: int| 0 <= j < i ==> '0' <= #[trigger] s@[j] && s@[j] <= '9',
        decreases n - i,
    {
        let c = s.get_char(i);
        if !('0' <= c && c <= '9') {
            assert(!all_digits(s@));
            return 0;
        }
        let d = (c as u32 - '0' as u32) as u64;
        proof {
            assert(s@.subrange(0, i + 1).drop_last() =~= s@.subrange(0, i as int));
        }
        if v > (u64::MAX - d) / 10 {
            proof {
                if all_digits(s@) {
                    lemma_digits_grow(s@, i + 1, n as int);
                    assert(s@.subrange(0, n as int) =~= s@);
                    assert(v * 10 + d > u64::MAX) by (nonlinear_arith)
                        requires
                            v > (u64::MAX - d) / 10,
                            d <= 9,
                    ;
                }
            }
            return 0;
        }
        assert(v * 10 + d <= u64::MAX) by (nonlinear_arith)
            requires
                v <= (u64::MAX - d) / 10,
                d <= 9,
        ;
        v = v * 10 + d;
        i = i + 1;
    }
    proof {
        assert(s@.subrange(0, n as int) =~= s@);
    }
    v
}

/// An item listed under a textual id.
pub trait NumericId {
    /// The id of the item.
    spec fn id_view(&self) -> Seq<char>;

    /// The id of the item.
    fn id_text(&self) -> (r: &str)
        ensures
            r@ == self.id_view();
}

impl NumericId for (String, Option<String>) {
    open spec fn id_view(&self) -> Seq<char> {
        self.0@
    }

    fn id_text(&self) -> (r: &str) {
        self.0.as_str()
    }
}

impl NumericId for (String, String, String) {
    open spec fn id_view(&self) -> Seq<char> {
        self.0@
    }

    fn id_text(&self) -> (r: &str) {
        self.0.as_str()
    }
}

impl NumericId for (String, crate::steam::vdf::LibraryEntry) {
    open spec fn id_view(&self) -> Seq<char> {
        self.0@
    }

    fn id_text(&self) -> (r: &str) {
        self.0.as_str()
    }
}

/// The items are in ascending order of the numeric value of their ids.
pub open spec fn sorted_by_id<T: NumericId>(v: Seq<T>) -> bool {
    forall|i: int, j: int|
        0 <= i < j < v.len() ==> numeric_key((#[trigger] v[i]).id_view()) <= numeric_key(
            (#[trigger] v[j]).id_view(),
        )
}

/// `p` lists each position below `n` exactly once.
pub open spec fn is_permutation(p: Seq<int>, n: int) -> bool {
    p.len() == n && (forall|k: int| 0 <= k < n ==> 0 <= #[trigger] p[k] < n) && p.no_duplicates()
}

/// `r` holds the items of `v`, each once, in some order.
pub open spec fn rearranges<T>(r: Seq<T>, v: Seq<T>) -> bool {
    exists|p: Seq<int>|
        is_permutation(p, v.len() as int) && forall|k: int|
            0 <= k < r.len() ==> #[trigger] r[k] == v[p[k]]
}

/// Sorts items by the numeric value of their ids; items with equal values
/// keep their order.
pub fn sort_by_numeric_id<T: NumericId>(v: Vec<T>) -> (r: Vec<T>)
    ensures
        r@.len() == v@.len(),
        rearranges(r@, v@),
        sorted_by_id(r@),
{
    let ghost all = v@;
    let ghost n = all.len() as int;
    let mut rest = v;
    let mut out: Vec<T> = Vec::new();
    let ghost mut out_idx: Seq<int> = Seq::empty();
    let ghost mut rest_idx: Seq<int> = Seq::new(n as nat, |k: int| k);
    while rest.len() > 0
        invariant
            n == all.len(),
            out@.len() == out_idx.len(),
            rest@.len() == rest_idx.len(),
            out_idx.len() + rest_idx.len() == n,
            (out_idx + rest_idx).no_duplicates(),
            forall|k: int| 0 <= k < out_idx.len() ==> 0 <= #[trigger] out_idx[k] < n,
            forall|k: int| 0 <= k < rest_idx.len() ==> 0 <= #[trigger] rest_idx[k] < n,
            forall|k: int| 0 <= k < out@.len() ==> #[trigger] out@[k] == all[out_idx[k]],
            forall|k: int| 0 <= k < rest@.len() ==> #[trigger] rest@[k] == all[rest_idx[k]],
            sorted_by_id(out@),
            forall|a: int, b: int|
                0 <= a < out@.len() && 0 <= b < rest@.len() ==> numeric_key(
                    (#[trigger] out@[a]).id_view(),
                ) <= numeric_key((#[trigger] rest@[b]).id_view()),
        decreases rest@.len(),
    {
        let mut m: usize = 0;
        let mut best = numeric_id(rest[0].id_text());
        let mut k: usize = 1;
        while k < rest.len()
            invariant
                1 <= k <= rest@.len(),
                m < k,
                best == numeric_key(rest@[m as int].id_view()),
                forall|j: int| 0 <= j < k ==> best <= numeric_key((#[trigger] rest@[j]).id_view()),
            decreases rest@.len() - k,
        {
            let key = numeric_id(rest[k].id_text());
            if key < best {
                best = key;
                m = k;
            }
            k = k + 1;
        }
        let ghost before_rest = rest@;
        let ghost before_idx = rest_idx;
        let ghost before_out_idx = out_idx;
        let x = rest.remove(m);
        out.push(x);
        proof {
            let moved = before_idx[m as int];
            out_idx = before_out_idx.push(moved);
            rest_idx = before_idx.remove(m as int);
            assert forall|a: int, b: int|
                0 <= a < (out_idx + rest_idx).len() && 0 <= b < (out_idx + rest_idx).len() && a
                    != b implies (out_idx + rest_idx)[a] != (out_idx + rest_idx)[b] by {
                let old_all = before_out_idx + before_idx;
                let o = before_out_idx.len() as int;
                let pos = |x: int|
                    if x < o {
                        x
                    } else if x == o {
                        o + m
                    } else if x <= o + m {
                        x - 1
                    } else {
                        x
                    };
                assert((out_idx + rest_idx)[a] == old_all[pos(a)]);
                assert((out_idx + rest_idx)[b] == old_all[pos(b)]);
            }
            assert forall|a: int, b: int|
                0 <= a < b < out@.len() implies numeric_key((#[trigger] out@[a]).id_view())
                    <= numeric_key((#[trigger] out@[b]).id_view()) by {
                if b == out@.len() - 1 {
                    assert(out@[b] == before_rest[m as int]);
                }
            }
            assert forall|a: int, b: int|
                0 <= a < out@.len() && 0 <= b < rest@.len() implies numeric_key(
                    (#[trigger] out@[a]).id_view(),
                ) <= numeric_key((#[trigger] rest@[b]).id_view()) by {
                let b2 = if b < m { b } else { b + 1 };
                assert(rest@[b] == before_rest[b2]);
                if a < out@.len() - 1 {
                } else {
                    assert(out@[a] == before_rest[m as int]);
                }
            }
            assert forall|k: int| 0 <= k < rest@.len() implies #[trigger] rest@[k] == all[rest_idx[k]] by {
                let k2 = if k < m { k } else { k + 1 };
                assert(rest@[k] == before_rest[k2]);
            }
        }
    }
    proof {
        assert(rest_idx.len() == 0);
        assert(out_idx + rest_idx =~= out_idx);
        assert(is_permutation(out_idx, n));
    }
    out
}

} // verus!
