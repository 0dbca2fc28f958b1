//! Character-level comparisons of strings.
use vstd::prelude::*;
use vstd::string::*;

verus! {

/// `a` and `b` agree on their first `k` characters.
pub open spec fn agree_below(a: Seq<char>, b: Seq<char>, k: int) -> bool {
    &&& 0 <= k <= a.len()
    &&& k <= b.len()
    &&& forall|j: int| 0 <= j < k ==> a[j] == b[j]
}

/// `a` comes before `b` when the two are compared character by character,
/// by code point, a proper prefix coming first.  This is the order of
/// `str`'s `Ord`, since UTF-8 keeps the order of code points.
pub open spec fn precedes(a: Seq<char>, b: Seq<char>) -> bool {
    exists|k: int|
        #![trigger agree_below(a, b, k)]
        agree_below(a, b, k) && (
            (k == a.len() && k < b.len())
            || (k < a.len() && k < b.len() && (a[k] as int) < (b[k] as int))
        )
}

/// Whether two strings hold the same characters.
pub fn str_eq(a: &str, b: &str) -> (r: bool)
    ensures
        r == (a@ == b@),
{
    let n = a.unicode_len();
    let m = b.unicode_len();
    if n != m {
        return false;
    }
    let mut i: usize = 0;
    while i < n
        invariant
            n == a@.len(),
            m == b@.len(),
            n == m,
            i <= n,
            forall|j: int| 0 <= j < i ==> a@[j] == b@[j],
        decreases n - i,
    {
        if a.get_char(i) != b.get_char(i) {
            return false;
        }
        i = i + 1;
    }
    assert(a@ =~= b@);
    true
}

/// Whether `a` comes strictly before `b` in the order of [`precedes`].
pub fn str_precedes(a: &str, b: &str) -> (r: bool)
    ensures
        r == precedes(a@, b@),
        forall|k: int|
            agree_below(a@, b@, k) && k < a@.len() && k < b@.len() && a@[k] != b@[k] ==> (r
                <==> (a@[k] as int) < (b@[k] as int)),
        agree_below(a@, b@, a@.len() as int) ==> (r <==> a@.len() < b@.len()),
{
    proof {
        assert forall|k: int|
            agree_below(a@, b@, k) && k < a@.len() && k < b@.len() && a@[k] != b@[k] implies (
            precedes(a@, b@) <==> (a@[k] as int) < (b@[k] as int)) by {
            lemma_precedes_at_first_difference(a@, b@, k);
        }
        if agree_below(a@, b@, a@.len() as int) {
            lemma_precedes_prefix(a@, b@);
        }
    }
    let n = a.unicode_len();
    let m = b.unicode_len();
    let mut i: usize = 0;
    while i < n && i < m
        invariant
            n == a@.len(),
            m == b@.len(),
            agree_below(a@, b@, i as int),
        decreases n - i,
    {
        let ca = a.get_char(i);
        let cb = b.get_char(i);
        if ca != cb {
            let r = (ca as u32) < (cb as u32);
            proof {
                if r {
                    assert(agree_below(a@, b@, i as int));
                } else {
                    assert forall|k: int| agree_below(a@, b@, k) implies !(
                        (k == a@.len() && k < b@.len())
                        || (k < a@.len() && k < b@.len() && (a@[k] as int) < (b@[k] as int))
                    ) by {
                        if k > i {
                            assert(a@[i as int] == b@[i as int]);
                        }
                    }
                }
            }
            return r;
        }
        i = i + 1;
    }
    let r = i == n && i < m;
    proof {
        if r {
            assert(agree_below(a@, b@, i as int));
        } else {
            assert forall|k: int| agree_below(a@, b@, k) implies !(
                (k == a@.len() && k < b@.len())
                || (k < a@.len() && k < b@.len() && (a@[k] as int) < (b@[k] as int))
            ) by {}
        }
    }
    r
}

/// Where two strings first differ, the one whose character there has the
/// smaller code point comes first.
pub proof fn lemma_precedes_at_first_difference(a: Seq<char>, b: Seq<char>, k: int)
    requires
        agree_below(a, b, k),
        k < a.len(),
        k < b.len(),
        a[k] != b[k],
    ensures
        precedes(a, b) <==> (a[k] as int) < (b[k] as int),
{
    if precedes(a, b) {
        let w = choose|w: int| #![trigger agree_below(a, b, w)]
            agree_below(a, b, w) && (
                (w == a.len() && w < b.len())
                || (w < a.len() && w < b.len() && (a[w] as int) < (b[w] as int))
            );
        if w > k {
            assert(a[k] == b[k]);
        }
    } else {
        assert(agree_below(a, b, k));
    }
}

/// Of two strings one of which extends the other, the shorter comes first:
/// a proper prefix comes before the string, and a string never comes before
/// a prefix of its own.
pub proof fn lemma_precedes_prefix(a: Seq<char>, b: Seq<char>)
    requires
        agree_below(a, b, a.len() as int),
    ensures
        precedes(a, b) <==> a.len() < b.len(),
{
    if a.len() < b.len() {
        assert(agree_below(a, b, a.len() as int));
    }
}

/// No string comes before itself.
pub proof fn lemma_precedes_irreflexive(a: Seq<char>)
    ensures
        !precedes(a, a),
{
}

/// The order of [`precedes`] is transitive.
pub proof fn lemma_precedes_transitive(a: Seq<char>, b: Seq<char>, c: Seq<char>)
    requires
        precedes(a, b),
        precedes(b, c),
    ensures
        precedes(a, c),
{
    let k1 = choose|k: int| #![trigger agree_below(a, b, k)]
        agree_below(a, b, k) && (
            (k == a.len() && k < b.len())
            || (k < a.len() && k < b.len() && (a[k] as int) < (b[k] as int))
        );
    let k2 = choose|k: int| #![trigger agree_below(b, c, k)]
        agree_below(b, c, k) && (
            (k == b.len() && k < c.len())
            || (k < b.len() && k < c.len() && (b[k] as int) < (c[k] as int))
        );
    if k1 <= k2 {
        assert(agree_below(a, c, k1));
    } else {
        assert(agree_below(a, c, k2));
    }
}

proof fn lemma_precedes_total_from(a: Seq<char>, b: Seq<char>, k: int)
    requires
        agree_below(a, b, k),
        a != b,
    ensures
        precedes(a, b) || precedes(b, a),
    decreases a.len() - k,
{
    if k == a.len() && k == b.len() {
        assert(a =~= b);
    } else if k == a.len() || k == b.len() {
        assert(agree_below(a, b, k));
        assert(agree_below(b, a, k));
    } else if a[k] != b[k] {
        assert(agree_below(a, b, k));
        assert(agree_below(b, a, k));
        assert((a[k] as int) != (b[k] as int));
    } else {
        lemma_precedes_total_from(a, b, k + 1);
    }
}

/// Of two different strings, one comes before the other.
pub proof fn lemma_precedes_total(a: Seq<char>, b: Seq<char>)
    requires
        a != b,
    ensures
        precedes(a, b) || precedes(b, a),
{
    lemma_precedes_total_from(a, b, 0);
}

/// No two strings come each before the other.
pub proof fn lemma_precedes_asymmetric(a: Seq<char>, b: Seq<char>)
    requires
        precedes(a, b),
    ensures
        !precedes(b, a),
{
    if precedes(b, a) {
        lemma_precedes_transitive(a, b, a);
    }
}

} // verus!
