//! Splitting an ordered list into consecutive batches of a fixed size.
use vstd::arithmetic::div_mod::lemma_fundamental_div_mod_converse;
use vstd::prelude::*;

verus! {

/// The contents of each batch.
pub open spec fn views<T>(batches: Seq<Vec<T>>) -> Seq<Seq<T>> {
    batches.map_values(|b: Vec<T>| b@)
}

/// `batches` cut `items` into consecutive non-empty pieces of `size` items,
/// the last of which may be shorter.
pub open spec fn is_partition<T>(batches: Seq<Seq<T>>, items: Seq<T>, size: nat) -> bool {
    &&& batches.flatten() == items
    &&& forall|i: int| 0 <= i < batches.len() ==> 0 < #[trigger] batches[i].len() <= size
    &&& forall|i: int| 0 <= i < batches.len() - 1 ==> #[trigger] batches[i].len() == size
}

/// The number of batches of `size` items that `n` items fill: `n / size`, rounded up.
pub open spec fn batch_count(n: nat, size: nat) -> nat {
    ((n + size - 1) as nat / size) as nat
}

/// Cuts `items` into consecutive batches of `size`, keeping their order; the
/// last batch may be shorter, and no items give no batches.
pub fn partition<T>(items: Vec<T>, size: usize) -> (r: Vec<Vec<T>>)
    requires
        size > 0,
    ensures
        is_partition(views(r@), items@, size as nat),
        r@.len() == batch_count(items@.len(), size as nat),
{
    let ghost all = items@;
    let mut rest = items;
    let mut batches: Vec<Vec<T>> = Vec::new();
    while rest.len() > 0
        invariant
            size > 0,
            views(batches@).flatten() + rest@ == all,
            forall|i: int|
                0 <= i < batches@.len() ==> 0 < #[trigger] batches@[i]@.len() <= size,
            forall|i: int| 0 <= i < batches@.len() - 1 ==> #[trigger] batches@[i]@.len() == size,
            rest@.len() > 0 && batches@.len() > 0 ==> batches@.last()@.len() == size,
        decreases rest@.len(),
    {
        let tail = if rest.len() > size {
            rest.split_off(size)
        } else {
            Vec::new()
        };
        let ghost before = batches@;
        let ghost piece = rest@;
        batches.push(rest);
        rest = tail;
        proof {
            assert(views(batches@) =~= views(before).push(piece));
            views(before).lemma_flatten_push(piece);
            assert(views(batches@).flatten() + rest@ =~= all);
        }
    }
    proof {
        assert(views(batches@).flatten() + rest@ == views(batches@).flatten());
        lemma_batch_count(views(batches@), all, size as nat);
    }
    batches
}

/// No items give no batches: an empty ledger submits nothing.
pub proof fn lemma_no_items_no_batches<T>(batches: Seq<Seq<T>>, size: nat)
    requires
        size > 0,
        is_partition(batches, Seq::<T>::empty(), size),
    ensures
        batches.len() == 0,
{
    if batches.len() > 0 {
        assert(batches.drop_first().flatten().len() >= 0);
        assert(batches.flatten() == batches[0] + batches.drop_first().flatten());
        assert(batches[0].len() > 0);
    }
}

/// Batches that are all full hold `size` items each.
proof fn lemma_full_len<T>(b: Seq<Seq<T>>, size: nat)
    requires
        forall|i: int| 0 <= i < b.len() ==> #[trigger] b[i].len() == size,
    ensures
        b.flatten().len() == b.len() * size,
    decreases b.len(),
{
    if b.len() > 0 {
        assert forall|i: int| 0 <= i < b.drop_first().len() implies #[trigger] b.drop_first()[i].len()
            == size by {
            assert(b.drop_first()[i] == b[i + 1]);
        }
        lemma_full_len(b.drop_first(), size);
        assert(b.len() * size == size + (b.len() - 1) * size) by (nonlinear_arith);
    }
}

/// A partition into batches of `size` has exactly `batch_count` batches; in
/// particular no items give no batches.
pub proof fn lemma_batch_count<T>(batches: Seq<Seq<T>>, items: Seq<T>, size: nat)
    requires
        size > 0,
        is_partition(batches, items, size),
    ensures
        batches.len() == batch_count(items.len(), size),
{
    let k = batches.len();
    if k == 0 {
        assert(items.len() == 0);
        lemma_fundamental_div_mod_converse((size - 1) as int, size as int, 0, (size - 1) as int);
    } else {
        let front = batches.drop_last();
        let l = batches.last().len();
        assert(front.push(batches.last()) =~= batches);
        front.lemma_flatten_push(batches.last());
        assert forall|i: int| 0 <= i < front.len() implies #[trigger] front[i].len() == size by {
            assert(front[i] == batches[i]);
        }
        lemma_full_len(front, size);
        let m = (k - 1) as nat;
        assert(items.len() == m * size + l);
        assert(0 < l <= size);
        assert(m * size + l + size - 1 == (m + 1) * size + (l - 1)) by (nonlinear_arith);
        lemma_fundamental_div_mod_converse(
            (m * size + l + size - 1) as int,
            size as int,
            (m + 1) as int,
            (l - 1) as int,
        );
    }
}

} // verus!
