//! Model accuracy: an exponentially-weighted running average, seeded at
//! 100, of the percentage ratio of predicted to expected value. The
//! recurrence is part of the observable behaviour and is reproduced
//! exactly; it is not a standard error metric.

use vstd::prelude::*;

use crate::fx::{fx_add_spec, fx_div_spec, fx_mul_spec, tdiv, Fx};
use crate::model::{predict_at, predict_spec, Field, Model, RegressionError};

verus! {

/// The percentage ratio of the model's prediction to the sample's target:
/// `predict(km) * 100 / price` in fixed-point arithmetic.
pub open spec fn ratio_spec(f: Field, m: Model) -> int
    recommends
        f.price.raw != 0,
{
    fx_div_spec(fx_mul_spec(predict_spec(f.km, m), 100_000_000), f.price.raw as int)
}

/// One update of the accumulator: the average of its old value and the
/// sample's percentage ratio.
pub open spec fn eval_step_spec(m: Model, acc: int, f: Field) -> int {
    tdiv(fx_add_spec(acc, ratio_spec(f, m)), 2)
}

/// The accumulator after folding a dataset over `eval_step_spec`, in
/// dataset order, starting from `acc`.
pub open spec fn eval_from_spec(m: Model, data: Seq<Field>, acc: int) -> int
    decreases data.len(),
{
    if data.len() == 0 {
        acc
    } else {
        eval_from_spec(m, data.drop_first(), eval_step_spec(m, acc, data[0]))
    }
}

/// Whether some sample's target is zero, which would divide by zero.
pub open spec fn has_zero_target(data: Seq<Field>) -> bool {
    exists|j: int| 0 <= j < data.len() && data[j].price.raw == 0
}

/// The accuracy score of a model against a dataset: the recurrence above
/// seeded at 100. Fails exactly when the model's standard deviation is zero
/// (prediction would be undefined), and otherwise exactly when some sample's
/// target is zero.
pub fn evaluate_accuracy(data: &Vec<Field>, model: &Model) -> (r: Result<Fx, RegressionError>)
    ensures
        model.standard_deviation.raw == 0 ==> r == Err::<Fx, RegressionError>(
            RegressionError::DivisionByDegenerateStatistic,
        ),
        model.standard_deviation.raw != 0 && has_zero_target(data@) ==> r == Err::<
            Fx,
            RegressionError,
        >(RegressionError::InvalidTarget),
        model.standard_deviation.raw != 0 && !has_zero_target(data@) ==> (r matches Ok(v)
            && v.raw as int == eval_from_spec(*model, data@, 100_000_000)),
{
    if model.standard_deviation.raw == 0 {
        return Err(RegressionError::DivisionByDegenerateStatistic);
    }
    let mut acc = Fx::from_int(100);
    let mut i: usize = 0;
    proof {
        assert(data@.subrange(0, data@.len() as int) =~= data@);
    }
    while i < data.len()
        invariant
            i <= data@.len(),
            model.standard_deviation.raw != 0,
            forall|j: int| 0 <= j < i ==> data@[j].price.raw != 0,
            eval_from_spec(*model, data@.subrange(i as int, data@.len() as int), acc.raw as int)
                == eval_from_spec(*model, data@, 100_000_000),
        decreases data@.len() - i,
    {
        let f = data[i];
        if f.price.raw == 0 {
            return Err(RegressionError::InvalidTarget);
        }
        let pr = predict_at(f.km, model);
        let ratio = pr.mul(Fx { raw: 100_000_000 }).div(f.price);
        proof {
            assert(data@.subrange(i as int, data@.len() as int).drop_first() =~= data@.subrange(
                i as int + 1,
                data@.len() as int,
            ));
            assert(data@.subrange(i as int, data@.len() as int)[0] == data@[i as int]);
        }
        acc = acc.add(ratio).avg(2);
        i = i + 1;
    }
    proof {
        assert(data@.subrange(data@.len() as int, data@.len() as int) =~= Seq::<Field>::empty());
    }
    Ok(acc)
}

} // verus!
