//! Normalization statistics of a dataset: mean, population variance and its
//! square root, and the untrained model they seed.

use vstd::prelude::*;

use crate::fx::{
    abs_i, fx_add_spec, fx_mul_spec, fx_of_u64, fx_sub_spec, lemma_mul_bound, sat, tdiv, Fx, SCALE,
};
use crate::model::{Field, Model, RegressionError};

verus! {

/// Saturating sum of the fixed-point images of the feature values.
pub open spec fn sum_feat_spec(data: Seq<Field>) -> int
    decreases data.len(),
{
    if data.len() == 0 {
        0
    } else {
        fx_add_spec(sum_feat_spec(data.drop_last()), fx_of_u64(data.last().km))
    }
}

/// The arithmetic mean of the feature values.
pub open spec fn mean_spec(data: Seq<Field>) -> int
    recommends
        data.len() > 0,
{
    tdiv(sum_feat_spec(data), data.len() as int)
}

/// The squared deviation of one feature value from the mean.
pub open spec fn sq_dev_spec(f: Field, mean: int) -> int {
    fx_mul_spec(
        fx_sub_spec(fx_of_u64(f.km), mean),
        fx_sub_spec(fx_of_u64(f.km), mean),
    )
}

/// Saturating sum of the squared deviations from `mean`.
pub open spec fn sum_sq_dev_spec(data: Seq<Field>, mean: int) -> int
    decreases data.len(),
{
    if data.len() == 0 {
        0
    } else {
        fx_add_spec(sum_sq_dev_spec(data.drop_last(), mean), sq_dev_spec(data.last(), mean))
    }
}

/// The population variance of the feature values around `mean`: the sum of
/// squared deviations divided by the sample count, not count minus one.
pub open spec fn variance_given_mean_spec(data: Seq<Field>, mean: int) -> int
    recommends
        data.len() > 0,
{
    tdiv(sum_sq_dev_spec(data, mean), data.len() as int)
}

/// `r` is the integer square root of `x`.
pub open spec fn is_sqrt(r: int, x: int) -> bool {
    0 <= r && r * r <= x && x < (r + 1) * (r + 1)
}

/// The integer square root.
pub open spec fn sqrt_floor(x: int) -> int
    recommends
        x >= 0,
{
    choose|r: int| is_sqrt(r, x)
}

/// The fixed-point square root of a non-negative fixed-point value: the
/// integer square root of the raw value brought back to scale.
pub open spec fn fx_sqrt_spec(v: int) -> int
    recommends
        v >= 0,
{
    sqrt_floor(v * (SCALE as int))
}

/// The population standard deviation of the feature values around `mean`.
pub open spec fn sd_given_mean_spec(data: Seq<Field>, mean: int) -> int
    recommends
        data.len() > 0,
{
    fx_sqrt_spec(variance_given_mean_spec(data, mean))
}

/// The population standard deviation of the feature values.
pub open spec fn sd_spec(data: Seq<Field>) -> int
    recommends
        data.len() > 0,
{
    sd_given_mean_spec(data, mean_spec(data))
}

/// The untrained model seeded from a dataset: zero line parameters and the
/// dataset's normalization statistics.
pub open spec fn init_model_spec(data: Seq<Field>) -> Model
    recommends
        data.len() > 0,
{
    Model {
        theta0: Fx { raw: 0 },
        theta1: Fx { raw: 0 },
        mean: Fx { raw: sat(mean_spec(data)) as i64 },
        standard_deviation: Fx { raw: sat(sd_spec(data)) as i64 },
    }
}

/// There is only one integer square root.
proof fn lemma_sqrt_unique(x: int, r: int, c: int)
    by (nonlinear_arith)
    requires
        0 <= r,
        r * r <= x,
        x < (r + 1) * (r + 1),
        0 <= c,
        c * c <= x,
        x < (c + 1) * (c + 1),
    ensures
        c == r,
{
}

/// Any witness of `is_sqrt` is the value of `sqrt_floor`.
pub proof fn lemma_sqrt_floor_is(x: int, r: int)
    requires
        is_sqrt(r, x),
    ensures
        sqrt_floor(x) == r,
{
    assert(exists|c: int| is_sqrt(c, x));
    let c = choose|c: int| is_sqrt(c, x);
    lemma_sqrt_unique(x, r, c);
}

/// A square is never negative.
pub proof fn lemma_square_nonneg(a: int)
    by (nonlinear_arith)
    ensures
        a * a >= 0,
{
}

/// A squared deviation is never negative.
pub proof fn lemma_sq_dev_nonneg(f: Field, mean: int)
    ensures
        sq_dev_spec(f, mean) >= 0,
{
    let d = fx_sub_spec(fx_of_u64(f.km), mean);
    lemma_square_nonneg(d);
}

/// The integer square root of a bounded non-negative value, by binary
/// search.
pub(crate) fn isqrt(x: u128) -> (r: u64)
    requires
        x as int <= 0x7fff_ffff_ffff_ffff * 1_000_000,
    ensures
        is_sqrt(r as int, x as int),
        r <= 3_100_000_000_000,
{
    let mut lo: u64 = 0;
    let mut hi: u64 = 3_100_000_000_000;
    proof {
        assert((hi as int) * (hi as int) == 9_610_000_000_000_000_000_000_000);
    }
    while lo + 1 < hi
        invariant
            lo < hi,
            hi <= 3_100_000_000_000,
            (lo as int) * (lo as int) <= x as int,
            (x as int) < (hi as int) * (hi as int),
        decreases hi - lo,
    {
        let mid: u64 = lo + (hi - lo) / 2;
        proof {
            lemma_mul_bound(mid as int, mid as int, 3_100_000_000_000, 3_100_000_000_000);
        }
        let sq: u128 = (mid as u128) * (mid as u128);
        if sq <= x {
            lo = mid;
        } else {
            hi = mid;
        }
    }
    lo
}

/// The arithmetic mean of the feature values of a dataset. Fails exactly on
/// an empty dataset, whose statistics are undefined.
pub fn mean_km(data: &Vec<Field>) -> (r: Result<Fx, RegressionError>)
    ensures
        data@.len() == 0 ==> r == Err::<Fx, RegressionError>(RegressionError::UndefinedStatistics),
        data@.len() > 0 ==> (r matches Ok(v) && v.raw as int == mean_spec(data@)),
{
    if data.len() == 0 {
        return Err(RegressionError::UndefinedStatistics);
    }
    let mut acc = Fx { raw: 0 };
    let mut i: usize = 0;
    while i < data.len()
        invariant
            i <= data@.len(),
            acc.raw as int == sum_feat_spec(data@.subrange(0, i as int)),
        decreases data@.len() - i,
    {
        acc = acc.add(Fx::from_u64(data[i].km));
        i = i + 1;
        proof {
            assert(data@.subrange(0, i as int).drop_last() =~= data@.subrange(0, i as int - 1));
            assert(data@.subrange(0, i as int).last() == data@[i as int - 1]);
        }
    }
    proof {
        assert(data@.subrange(0, data@.len() as int) =~= data@);
    }
    Ok(acc.avg(data.len()))
}

/// The population standard deviation of the feature values around a given
/// mean. Fails exactly on an empty dataset.
pub fn standard_deviation(mean: Fx, data: &Vec<Field>) -> (r: Result<Fx, RegressionError>)
    ensures
        data@.len() == 0 ==> r == Err::<Fx, RegressionError>(RegressionError::UndefinedStatistics),
        data@.len() > 0 ==> (r matches Ok(v) && v.raw as int == sd_given_mean_spec(
            data@,
            mean.raw as int,
        ) && v.raw >= 0),
{
    if data.len() == 0 {
        return Err(RegressionError::UndefinedStatistics);
    }
    let mut acc = Fx { raw: 0 };
    let mut i: usize = 0;
    while i < data.len()
        invariant
            i <= data@.len(),
            acc.raw as int == sum_sq_dev_spec(data@.subrange(0, i as int), mean.raw as int),
            acc.raw >= 0,
        decreases data@.len() - i,
    {
        let d = Fx::from_u64(data[i].km).sub(mean);
        let sq = d.mul(d);
        proof {
            lemma_sq_dev_nonneg(data@[i as int], mean.raw as int);
        }
        acc = acc.add(sq);
        i = i + 1;
        proof {
            assert(data@.subrange(0, i as int).drop_last() =~= data@.subrange(0, i as int - 1));
            assert(data@.subrange(0, i as int).last() == data@[i as int - 1]);
        }
    }
    proof {
        assert(data@.subrange(0, data@.len() as int) =~= data@);
    }
    let variance = acc.avg(data.len());
    let vu: u128 = (variance.raw as u128) * (SCALE as u128);
    let root = isqrt(vu);
    proof {
        lemma_sqrt_floor_is(vu as int, root as int);
    }
    Ok(Fx { raw: root as i64 })
}

/// The untrained model a dataset seeds: zero line parameters plus the
/// dataset's mean and standard deviation. Fails exactly on an empty
/// dataset.
pub fn get_data_parameters(data: &Vec<Field>) -> (r: Result<Model, RegressionError>)
    ensures
        data@.len() == 0 ==> r == Err::<Model, RegressionError>(
            RegressionError::UndefinedStatistics,
        ),
        data@.len() > 0 ==> r == Ok::<Model, RegressionError>(init_model_spec(data@)),
{
    let mean = match mean_km(data) {
        Ok(m) => m,
        Err(e) => {
            return Err(e);
        },
    };
    let sd = match standard_deviation(mean, data) {
        Ok(s) => s,
        Err(e) => {
            return Err(e);
        },
    };
    Ok(Model { theta0: Fx { raw: 0 }, theta1: Fx { raw: 0 }, mean, standard_deviation: sd })
}

} // verus!
