//! Batch gradient descent over a dataset: a fixed number of simultaneous
//! updates of the line parameters, each from the average prediction error of
//! the whole dataset.

use vstd::prelude::*;

use crate::fx::{fx_add_spec, fx_mul_spec, fx_sub_spec, tdiv, Fx};
use crate::model::{normalize_at, normalize_spec, predict_spec, Field, Model, RegressionError};
use crate::stats::{get_data_parameters, init_model_spec, sd_spec};

verus! {

/// The number of gradient-descent iterations a default training run makes.
pub const DEFAULT_EPOCHS: u64 = 1000;

/// The default learning rate, 0.01, in fixed-point raw units.
pub const DEFAULT_LEARNING_RATE_RAW: i64 = 10_000;

/// The prediction error of the model on one sample.
pub open spec fn err_spec(f: Field, m: Model) -> int {
    fx_sub_spec(predict_spec(f.km, m), f.price.raw as int)
}

/// Saturating sum of the prediction errors over a dataset.
pub open spec fn sum_err_spec(data: Seq<Field>, m: Model) -> int
    decreases data.len(),
{
    if data.len() == 0 {
        0
    } else {
        fx_add_spec(sum_err_spec(data.drop_last(), m), err_spec(data.last(), m))
    }
}

/// Saturating sum of prediction error times normalized feature over a
/// dataset.
pub open spec fn sum_err_norm_spec(data: Seq<Field>, m: Model) -> int
    decreases data.len(),
{
    if data.len() == 0 {
        0
    } else {
        fx_add_spec(
            sum_err_norm_spec(data.drop_last(), m),
            fx_mul_spec(err_spec(data.last(), m), normalize_spec(data.last().km, m)),
        )
    }
}

/// One simultaneous gradient-descent update: both parameters move by the
/// learning rate times the average gradient of the pre-update model; the
/// normalization statistics never change.
pub open spec fn step_spec(data: Seq<Field>, lr: int, m: Model) -> Model
    recommends
        data.len() > 0,
{
    let n = data.len() as int;
    Model {
        theta0: Fx {
            raw: fx_sub_spec(m.theta0.raw as int, fx_mul_spec(lr, tdiv(sum_err_spec(data, m), n)))
                as i64,
        },
        theta1: Fx {
            raw: fx_sub_spec(
                m.theta1.raw as int,
                fx_mul_spec(lr, tdiv(sum_err_norm_spec(data, m), n)),
            ) as i64,
        },
        mean: m.mean,
        standard_deviation: m.standard_deviation,
    }
}

/// `k` gradient-descent updates in a row.
pub open spec fn iterate_spec(data: Seq<Field>, lr: int, m: Model, k: nat) -> Model
    recommends
        data.len() > 0,
    decreases k,
{
    if k == 0 {
        m
    } else {
        step_spec(data, lr, iterate_spec(data, lr, m, (k - 1) as nat))
    }
}

/// What training returns on every dataset: the errors the specification
/// owes, or the model after exactly `epochs` updates of the seeded one.
pub open spec fn train_spec(data: Seq<Field>, epochs: nat, lr: int) -> Result<
    Model,
    RegressionError,
> {
    if data.len() == 0 {
        Err(RegressionError::UndefinedStatistics)
    } else if sd_spec(data) == 0 {
        Err(RegressionError::DivisionByDegenerateStatistic)
    } else {
        Ok(iterate_spec(data, lr, init_model_spec(data), epochs))
    }
}

/// Gradient descent never touches the normalization statistics.
pub proof fn lemma_iterate_keeps_stats(data: Seq<Field>, lr: int, m: Model, k: nat)
    ensures
        iterate_spec(data, lr, m, k).mean == m.mean,
        iterate_spec(data, lr, m, k).standard_deviation == m.standard_deviation,
    decreases k,
{
    if k > 0 {
        lemma_iterate_keeps_stats(data, lr, m, (k - 1) as nat);
    }
}

/// Law: training is deterministic. It is a pure function of the dataset and
/// the hyperparameters, so two runs on identical input give identical
/// models.
pub proof fn lemma_train_deterministic(d1: Seq<Field>, d2: Seq<Field>, epochs: nat, lr: int)
    requires
        d1 == d2,
    ensures
        train_spec(d1, epochs, lr) == train_spec(d2, epochs, lr),
{
}

/// One gradient-descent update of `m`, exactly `step_spec`.
fn gradient_step(data: &Vec<Field>, lr: Fx, m: &Model) -> (r: Model)
    requires
        data@.len() > 0,
        m.standard_deviation.raw != 0,
    ensures
        r == step_spec(data@, lr.raw as int, *m),
{
    let mut se = Fx { raw: 0 };
    let mut sen = Fx { raw: 0 };
    let mut i: usize = 0;
    while i < data.len()
        invariant
            i <= data@.len(),
            m.standard_deviation.raw != 0,
            se.raw as int == sum_err_spec(data@.subrange(0, i as int), *m),
            sen.raw as int == sum_err_norm_spec(data@.subrange(0, i as int), *m),
        decreases data@.len() - i,
    {
        let f = data[i];
        let nf = normalize_at(f.km, m);
        let pr = m.theta0.add(m.theta1.mul(nf));
        let e = pr.sub(f.price);
        se = se.add(e);
        sen = sen.add(e.mul(nf));
        i = i + 1;
        proof {
            assert(data@.subrange(0, i as int).drop_last() =~= data@.subrange(0, i as int - 1));
            assert(data@.subrange(0, i as int).last() == data@[i as int - 1]);
        }
    }
    proof {
        assert(data@.subrange(0, data@.len() as int) =~= data@);
    }
    let avg0 = se.avg(data.len());
    let avg1 = sen.avg(data.len());
    Model {
        theta0: m.theta0.sub(lr.mul(avg0)),
        theta1: m.theta1.sub(lr.mul(avg1)),
        mean: m.mean,
        standard_deviation: m.standard_deviation,
    }
}

/// Trains a model on a dataset with the given hyperparameters: computes the
/// normalization statistics, then runs exactly `epochs` batch
/// gradient-descent updates at the given learning rate. Fails exactly on an
/// empty dataset, and on one whose features all agree, whose standard
/// deviation would be zero.
pub fn train_with(data: &Vec<Field>, epochs: u64, learning_rate: Fx) -> (r: Result<
    Model,
    RegressionError,
>)
    ensures
        r == train_spec(data@, epochs as nat, learning_rate.raw as int),
{
    let m0 = match get_data_parameters(data) {
        Ok(m) => m,
        Err(e) => {
            return Err(e);
        },
    };
    if m0.standard_deviation.raw == 0 {
        return Err(RegressionError::DivisionByDegenerateStatistic);
    }
    let ghost lr = learning_rate.raw as int;
    let mut model = m0;
    let mut epoch: u64 = 0;
    while epoch < epochs
        invariant
            epoch <= epochs,
            data@.len() > 0,
            m0 == init_model_spec(data@),
            m0.standard_deviation.raw != 0,
            model == iterate_spec(data@, lr, m0, epoch as nat),
            lr == learning_rate.raw as int,
        decreases epochs - epoch,
    {
        proof {
            lemma_iterate_keeps_stats(data@, lr, m0, epoch as nat);
        }
        model = gradient_step(data, learning_rate, &model);
        epoch = epoch + 1;
    }
    Ok(model)
}

/// Trains a model with the documented defaults: 1000 epochs at learning
/// rate 0.01. Fails exactly on an empty dataset, and on one with zero
/// feature variance; it never returns a model whose standard deviation is
/// zero.
pub fn train(data: &Vec<Field>) -> (r: Result<Model, RegressionError>)
    ensures
        r == train_spec(data@, DEFAULT_EPOCHS as nat, DEFAULT_LEARNING_RATE_RAW as int),
        data@.len() == 0 ==> r == Err::<Model, RegressionError>(
            RegressionError::UndefinedStatistics,
        ),
        data@.len() > 0 && sd_spec(data@) == 0 ==> r == Err::<Model, RegressionError>(
            RegressionError::DivisionByDegenerateStatistic,
        ),
        r matches Ok(m) ==> m.standard_deviation.raw != 0,
{
    let r = train_with(data, DEFAULT_EPOCHS, Fx { raw: DEFAULT_LEARNING_RATE_RAW });
    proof {
        if data@.len() > 0 && sd_spec(data@) != 0 {
            lemma_iterate_keeps_stats(
                data@,
                DEFAULT_LEARNING_RATE_RAW as int,
                init_model_spec(data@),
                DEFAULT_EPOCHS as nat,
            );
        }
    }
    r
}

} // verus!
