//! Conversion of stakes into bounded voting weights.

use crate::keys::PublicKey;
use crate::motes::{limb_radix, u512_as_u64, u512_div, u512_gt, Motes, motes_bound};
use vstd::prelude::*;

verus! {

/// Half of `u64::MAX`: when stakes are scaled, total weight stays near it.
pub const HALF_MAX_WEIGHT: u64 = 9223372036854775807;

/// Sum of the stakes of a list of validators.
pub open spec fn stake_sum(s: Seq<(PublicKey, Motes)>) -> nat
    decreases s.len(),
{
    if s.len() == 0 {
        0
    } else {
        stake_sum(s.drop_last()) + s.last().1.value()
    }
}

/// Sum of the weights of a weight table.
pub open spec fn weight_sum(w: Seq<(PublicKey, u64)>) -> nat
    decreases w.len(),
{
    if w.len() == 0 {
        0
    } else {
        weight_sum(w.drop_last()) + w.last().1 as nat
    }
}

/// The divisor applied to each stake when the total does not fit in a `u64`.
pub open spec fn scale_divisor(total: nat) -> nat {
    total / (HALF_MAX_WEIGHT as nat)
}

/// The weight of a validator with stake `stake`, when all stakes sum to `total`.
pub open spec fn weight_of(stake: nat, total: nat) -> nat {
    if total <= u64::MAX {
        stake
    } else {
        stake / scale_divisor(total)
    }
}

/// The weight table that normalisation gives for `stakes`.
pub open spec fn normalized_weights(stakes: Seq<(PublicKey, Motes)>) -> Seq<(PublicKey, u64)> {
    Seq::new(
        stakes.len(),
        |i: int| (stakes[i].0, weight_of(stakes[i].1.value(), stake_sum(stakes)) as u64),
    )
}

/// Validators of one era with their voting weights, in the order of the
/// stake list they were built from.
pub struct Validators {
    pub weights: Vec<(PublicKey, u64)>,
    pub total_weight: u64,
}

impl Validators {
    pub open spec fn wf(&self) -> bool {
        self.total_weight as nat == weight_sum(self.weights@)
    }

    /// Whether this table is the normalisation of `stakes`.
    pub open spec fn normalizes(&self, stakes: Seq<(PublicKey, Motes)>) -> bool {
        &&& self.wf()
        &&& self.weights@.len() == stakes.len()
        &&& forall|i: int|
            0 <= i < stakes.len() ==> {
                &&& (#[trigger] self.weights@[i]).0 == stakes[i].0
                &&& self.weights@[i].1 as nat == weight_of(stakes[i].1.value(), stake_sum(stakes))
            }
    }

    /// The weight of the validator at `index`.
    pub fn weight_at(&self, index: usize) -> (r: u64)
        requires
            index < self.weights@.len(),
        ensures
            r == self.weights@[index as int].1,
    {
        self.weights[index].1
    }
}

proof fn lemma_stake_sum_prefix(s: Seq<(PublicKey, Motes)>, i: int)
    requires
        0 <= i < s.len(),
    ensures
        stake_sum(s.subrange(0, i + 1)) == stake_sum(s.subrange(0, i)) + s[i].1.value(),
{
    assert(s.subrange(0, i + 1).drop_last() =~= s.subrange(0, i));
}

proof fn lemma_stake_sum_monotone(s: Seq<(PublicKey, Motes)>, i: int)
    requires
        0 <= i <= s.len(),
    ensures
        stake_sum(s.subrange(0, i)) <= stake_sum(s),
    decreases s.len() - i,
{
    if i < s.len() {
        lemma_stake_sum_prefix(s, i);
        lemma_stake_sum_monotone(s, i + 1);
    } else {
        assert(s.subrange(0, i) =~= s);
    }
}

proof fn lemma_stake_le_sum(s: Seq<(PublicKey, Motes)>, i: int)
    requires
        0 <= i < s.len(),
    ensures
        s[i].1.value() <= stake_sum(s),
{
    lemma_stake_sum_prefix(s, i);
    lemma_stake_sum_monotone(s, i + 1);
}

proof fn lemma_weight_sum_push(w: Seq<(PublicKey, u64)>, x: (PublicKey, u64))
    ensures
        weight_sum(w.push(x)) == weight_sum(w) + x.1 as nat,
{
    assert(w.push(x).drop_last() =~= w);
}

proof fn lemma_floor_sum(a: nat, b: nat, d: nat)
    requires
        d > 0,
    ensures
        a / d + b / d <= (a + b) / d,
{
    assert((a / d) * d <= a) by (nonlinear_arith)
        requires
            d > 0,
    ;
    assert((b / d) * d <= b) by (nonlinear_arith)
        requires
            d > 0,
    ;
    assert((a / d + b / d) * d <= a + b) by (nonlinear_arith)
        requires
            (a / d) * d <= a,
            (b / d) * d <= b,
    ;
    assert(a / d + b / d <= (a + b) / d) by (nonlinear_arith)
        requires
            d > 0,
            (a / d + b / d) * d <= a + b,
    ;
}

proof fn lemma_div_monotone(a: nat, b: nat, d: nat)
    requires
        d > 0,
        a <= b,
    ensures
        a / d <= b / d,
{
    assert(a / d <= b / d) by (nonlinear_arith)
        requires
            d > 0,
            a <= b,
    ;
}

/// Once the stakes are scaled, their total divided by the divisor stays
/// below `u64::MAX`.
proof fn lemma_scaled_total(total: nat)
    requires
        total > u64::MAX,
    ensures
        scale_divisor(total) >= 1,
        total / scale_divisor(total) < u64::MAX,
{
    let h = HALF_MAX_WEIGHT as nat;
    let d = total / h;
    assert(d >= 1) by (nonlinear_arith)
        requires
            total > 2 * h,
            d == total / h,
            h > 0,
    ;
    assert(total < (d + 1) * h) by (nonlinear_arith)
        requires
            d == total / h,
            h > 0,
    ;
    assert(total / d < 2 * h) by (nonlinear_arith)
        requires
            total < (d + 1) * h,
            d >= 1,
            h > 0,
    ;
}

/// Converts stakes into voting weights. Where the stakes sum to at most
/// `u64::MAX` each weight is the stake itself; otherwise every stake is
/// divided, truncating, by `sum / HALF_MAX_WEIGHT`. Validators with no
/// stake keep their place with weight 0.
pub fn normalize_weights(stakes: &Vec<(PublicKey, Motes)>) -> (r: Validators)
    requires
        stake_sum(stakes@) < motes_bound(),
    ensures
        r.normalizes(stakes@),
        r.weights@ == normalized_weights(stakes@),
        stake_sum(stakes@) <= u64::MAX ==> {
            &&& forall|i: int|
                0 <= i < stakes@.len() ==> #[trigger] r.weights@[i].1 == stakes@[i].1.value()
            &&& r.total_weight == stake_sum(stakes@)
        },
        stake_sum(stakes@) > u64::MAX ==> {
            &&& r.total_weight < u64::MAX
            &&& forall|i: int, j: int|
                0 <= i < stakes@.len() && 0 <= j < stakes@.len() && stakes@[i].1.value()
                    > stakes@[j].1.value() ==> #[trigger] r.weights@[i].1 >= #[trigger] r.weights@[j].1
        },
{
    let ghost s = stakes@;
    let mut sum = Motes::from_u64(0);
    let mut i: usize = 0;
    while i < stakes.len()
        invariant
            s == stakes@,
            i <= s.len(),
            sum.value() == stake_sum(s.subrange(0, i as int)),
            stake_sum(s) < motes_bound(),
        decreases s.len() - i,
    {
        proof {
            lemma_stake_sum_prefix(s, i as int);
            lemma_stake_sum_monotone(s, i as int + 1);
        }
        let next = sum.checked_add(&stakes[i].1);
        match next {
            Some(n) => {
                sum = n;
            },
            None => {},
        }
        i = i + 1;
    }
    proof {
        assert(s.subrange(0, s.len() as int) =~= s);
    }
    let ghost total = stake_sum(s);
    let scaled = u512_gt(&sum, &Motes::from_u64(u64::MAX));
    let divisor = if scaled {
        proof {
            lemma_scaled_total(total);
        }
        let d = u512_div(&sum, &Motes::from_u64(HALF_MAX_WEIGHT));
        d
    } else {
        Motes::from_u64(1)
    };
    assert(divisor.value() >= 1);
    let mut weights: Vec<(PublicKey, u64)> = Vec::new();
    let mut total_weight: u64 = 0;
    let mut k: usize = 0;
    while k < stakes.len()
        invariant
            s == stakes@,
            k <= s.len(),
            total == stake_sum(s),
            scaled == (total > u64::MAX),
            scaled ==> divisor.value() == scale_divisor(total),
            !scaled ==> divisor.value() == 1,
            scaled ==> total / divisor.value() < u64::MAX,
            weights@.len() == k,
            total_weight as nat == weight_sum(weights@),
            total_weight as nat <= stake_sum(s.subrange(0, k as int)) / divisor.value(),
            forall|j: int|
                0 <= j < k ==> {
                    &&& (#[trigger] weights@[j]).0 == s[j].0
                    &&& weights@[j].1 as nat == weight_of(s[j].1.value(), total)
                },
            !scaled ==> total_weight as nat == stake_sum(s.subrange(0, k as int)),
        decreases s.len() - k,
    {
        let stake = stakes[k].1;
        let q = u512_div(&stake, &divisor);
        let w = u512_as_u64(&q);
        proof {
            let d = divisor.value();
            let pre = stake_sum(s.subrange(0, k as int));
            lemma_stake_le_sum(s, k as int);
            lemma_stake_sum_prefix(s, k as int);
            lemma_stake_sum_monotone(s, k as int + 1);
            lemma_floor_sum(pre, stake.value(), d);
            lemma_div_monotone(pre + stake.value(), total, d);
            lemma_div_monotone(stake.value(), total, d);
            assert(total / 1 == total);
            assert(stake.value() / d < limb_radix());
            assert(w as nat == stake.value() / d);
            assert(stake.value() / 1 == stake.value());
            assert(w as nat == weight_of(stake.value(), total));
            lemma_weight_sum_push(weights@, (s[k as int].0, w));
        }
        weights.push((stakes[k].0, w));
        total_weight = total_weight + w;
        k = k + 1;
    }
    proof {
        assert(s.subrange(0, s.len() as int) =~= s);
        assert forall|i: int, j: int|
            0 <= i < s.len() && 0 <= j < s.len() && s[i].1.value() > s[j].1.value() && scaled
            implies weights@[i].1 >= weights@[j].1 by {
            lemma_div_monotone(s[j].1.value(), s[i].1.value(), divisor.value());
            lemma_stake_le_sum(s, i);
            lemma_div_monotone(s[i].1.value(), total, divisor.value());
        }
        assert forall|i: int| 0 <= i < s.len() && !scaled implies weights@[i].1 == s[i].1.value() by {
            lemma_stake_le_sum(s, i);
        }
    }
    assert(weights@ =~= normalized_weights(s));
    Validators { weights, total_weight }
}

} // verus!
