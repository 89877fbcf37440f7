//! Element counts and dimensions of tensor shapes.

use vstd::prelude::*;

verus! {

/// The product of all dimensions.
pub open spec fn product_of(shape: Seq<i32>) -> int
    decreases shape.len(),
{
    if shape.len() == 0 {
        1
    } else {
        product_of(shape.drop_last()) * shape.last()
    }
}

/// Whether all dimensions are known and not empty.
pub open spec fn all_positive(shape: Seq<i32>) -> bool {
    forall|k: int| 0 <= k < shape.len() ==> #[trigger] shape[k] > 0
}

/// The number of elements of a tensor, saturated; zero where a dimension is
/// unknown or empty.
pub open spec fn element_count(shape: Seq<i32>) -> int {
    if !all_positive(shape) {
        0
    } else if product_of(shape) > usize::MAX {
        usize::MAX as int
    } else {
        product_of(shape)
    }
}

/// The last dimension; zero where it is absent, unknown or empty.
pub open spec fn channel_count(shape: Seq<i32>) -> int {
    if shape.len() > 0 && shape.last() > 0 {
        shape.last() as int
    } else {
        0
    }
}

/// A product of positive dimensions is positive.
pub proof fn lemma_product_positive(shape: Seq<i32>)
    requires
        all_positive(shape),
    ensures
        product_of(shape) >= 1,
    decreases shape.len(),
{
    if shape.len() > 0 {
        assert forall|k: int| 0 <= k < shape.drop_last().len() implies #[trigger] shape.drop_last()[k]
            > 0 by {
            assert(shape[k] > 0);
        }
        lemma_product_positive(shape.drop_last());
        let p = product_of(shape.drop_last());
        let d = shape.last() as int;
        assert(p * d >= 1) by (nonlinear_arith)
            requires
                p >= 1,
                d >= 1,
        ;
    }
}

/// The number of elements of a tensor, saturated; zero where a dimension is
/// unknown or empty.
pub fn flat_prod(shape: &Vec<i32>) -> (r: usize)
    ensures
        r == element_count(shape@),
{
    let mut acc: usize = 1;
    let mut k: usize = 0;
    while k < shape.len()
        invariant
            k <= shape@.len(),
            acc == element_count(shape@.take(k as int)),
        decreases shape@.len() - k,
    {
        let d: i32 = shape[k];
        let ghost head = shape@.take(k as int);
        let ghost next = shape@.take(k + 1);
        proof {
            assert(next.drop_last() =~= head);
            assert(next.last() == d);
            assert(all_positive(next) <==> (all_positive(head) && d > 0)) by {
                if all_positive(next) {
                    assert forall|m: int| 0 <= m < head.len() implies #[trigger] head[m] > 0 by {
                        assert(next[m] == head[m]);
                    }
                    assert(next[k as int] == d);
                }
                if all_positive(head) && d > 0 {
                    assert forall|m: int| 0 <= m < next.len() implies #[trigger] next[m] > 0 by {
                        if m < k {
                            assert(next[m] == head[m]);
                        }
                    }
                }
            }
            if all_positive(head) {
                lemma_product_positive(head);
            }
            if d > 0 {
                let p = product_of(head);
                assert(p >= 0 ==> p * d >= p) by (nonlinear_arith)
                    requires
                        d >= 1,
                ;
                assert(0 * d == 0);
                assert(p > usize::MAX ==> usize::MAX * d >= usize::MAX) by (nonlinear_arith)
                    requires
                        d >= 1,
                ;
            }
        }
        acc = if d <= 0 {
            0
        } else {
            match acc.checked_mul(d as usize) {
                Some(p) => p,
                None => usize::MAX,
            }
        };
        proof {
            if d > 0 && all_positive(head) && product_of(head) > usize::MAX {
                assert(product_of(next) > usize::MAX);
                if d == 1 {
                    assert(usize::MAX * 1 == usize::MAX);
                } else {
                    assert(usize::MAX * d > usize::MAX) by (nonlinear_arith)
                        requires
                            d >= 2,
                    ;
                }
            }
        }
        k = k + 1;
    }
    assert(shape@.take(shape@.len() as int) =~= shape@);
    acc
}

/// The last dimension; zero where it is absent, unknown or empty.
pub fn last_dim(shape: &Vec<i32>) -> (r: usize)
    ensures
        r == channel_count(shape@),
{
    if shape.len() > 0 && shape[shape.len() - 1] > 0 {
        shape[shape.len() - 1] as usize
    } else {
        0
    }
}

/// Counts go dimension by dimension: no dimension leaves one element, each
/// multiplies, up to the largest machine word, and one that is not positive
/// leaves none. The channels are the last dimension.
pub proof fn law_counts_multiply(shape: Seq<i32>, d: i32)
    ensures
        product_of(Seq::empty()) == 1,
        product_of(shape.push(d)) == product_of(shape) * d,
        all_positive(shape.push(d)) <==> all_positive(shape) && d > 0,
        all_positive(shape) && d > 0 && product_of(shape) * d <= usize::MAX ==> element_count(
            shape.push(d),
        ) == product_of(shape) * d,
        all_positive(shape) && d > 0 && product_of(shape) * d > usize::MAX ==> element_count(
            shape.push(d),
        ) == usize::MAX,
        d <= 0 ==> element_count(shape.push(d)) == 0 && channel_count(shape.push(d)) == 0,
        d > 0 ==> channel_count(shape.push(d)) == d,
{
    let longer = shape.push(d);
    assert(longer.drop_last() =~= shape);
    assert(longer.last() == d);
    if all_positive(longer) {
        assert forall|k: int| 0 <= k < shape.len() implies #[trigger] shape[k] > 0 by {
            assert(longer[k] > 0);
        }
        assert(longer[shape.len() as int] > 0);
    }
    if d <= 0 {
        assert(!(longer[shape.len() as int] > 0));
    }
}

} // verus!
