//! The persisted parameter record and the two pure functions over it:
//! feature normalization and prediction.

use vstd::prelude::*;

use crate::fx::{fx_add_spec, fx_div_spec, fx_mul_spec, fx_of_u64, fx_sub_spec, Fx};

verus! {

/// The fitted parameters of the line together with the normalization
/// statistics of the training run. Immutable once training completes.
#[derive(Clone, Copy, PartialEq, Eq, Structural, Debug)]
pub struct Model {
    /// Additive term of the fitted line.
    pub theta0: Fx,
    /// Multiplicative term applied to the normalized feature.
    pub theta1: Fx,
    /// Arithmetic mean of the raw feature values seen during training.
    pub mean: Fx,
    /// Population standard deviation of those values.
    pub standard_deviation: Fx,
}

/// One input row: a raw mileage measurement and the price it fetched.
#[derive(Clone, Copy, PartialEq, Eq, Structural, Debug)]
pub struct Field {
    pub km: u64,
    pub price: Fx,
}

/// Every way an operation of this library can fail.
#[derive(Clone, Copy, PartialEq, Eq, Structural, Debug)]
pub enum RegressionError {
    /// The dataset is empty: mean and variance are undefined.
    UndefinedStatistics,
    /// The standard deviation of the features is zero: normalization would
    /// divide by it.
    DivisionByDegenerateStatistic,
    /// A target value of zero was met while evaluating accuracy.
    InvalidTarget,
    /// An input row did not have the expected shape.
    MalformedInput,
    /// A stored model could not be read back.
    PersistenceFailure,
}

impl Default for Model {
    /// A freshly constructed, untrained model: every statistic zero.
    fn default() -> (r: Model)
        ensures
            r == (Model {
                theta0: Fx { raw: 0 },
                theta1: Fx { raw: 0 },
                mean: Fx { raw: 0 },
                standard_deviation: Fx { raw: 0 },
            }),
    {
        Model {
            theta0: Fx { raw: 0 },
            theta1: Fx { raw: 0 },
            mean: Fx { raw: 0 },
            standard_deviation: Fx { raw: 0 },
        }
    }
}

/// The standardized image of a raw feature value:
/// `(km - mean) / standard_deviation` in fixed-point arithmetic.
pub open spec fn normalize_spec(km: u64, m: Model) -> int {
    fx_div_spec(
        fx_sub_spec(fx_of_u64(km), m.mean.raw as int),
        m.standard_deviation.raw as int,
    )
}

/// The estimated target for a raw feature value:
/// `theta0 + theta1 * normalize(km)` in fixed-point arithmetic.
pub open spec fn predict_spec(km: u64, m: Model) -> int {
    fx_add_spec(
        m.theta0.raw as int,
        fx_mul_spec(m.theta1.raw as int, normalize_spec(km, m)),
    )
}

/// Normalization for callers that have already ruled the degenerate
/// statistic out.
pub(crate) fn normalize_at(km: u64, m: &Model) -> (r: Fx)
    requires
        m.standard_deviation.raw != 0,
    ensures
        r.raw as int == normalize_spec(km, *m),
{
    Fx::from_u64(km).sub(m.mean).div(m.standard_deviation)
}

/// Prediction for callers that have already ruled the degenerate
/// statistic out.
pub(crate) fn predict_at(km: u64, m: &Model) -> (r: Fx)
    requires
        m.standard_deviation.raw != 0,
    ensures
        r.raw as int == predict_spec(km, *m),
{
    m.theta0.add(m.theta1.mul(normalize_at(km, m)))
}

/// Standardizes a raw feature value with the model's training statistics.
/// Fails, rather than divide by the degenerate statistic, exactly when the
/// stored standard deviation is zero.
pub fn normalize(km: u64, model: &Model) -> (r: Result<Fx, RegressionError>)
    ensures
        model.standard_deviation.raw == 0 ==> r == Err::<Fx, RegressionError>(
            RegressionError::DivisionByDegenerateStatistic,
        ),
        model.standard_deviation.raw != 0 ==> (r matches Ok(v) && v.raw as int
            == normalize_spec(km, *model)),
{
    if model.standard_deviation.raw == 0 {
        Err(RegressionError::DivisionByDegenerateStatistic)
    } else {
        Ok(normalize_at(km, model))
    }
}

/// Estimates the target for a raw feature value: the intercept plus the
/// slope applied to the normalized feature. Fails exactly when the stored
/// standard deviation is zero.
pub fn predict(km: u64, model: &Model) -> (r: Result<Fx, RegressionError>)
    ensures
        model.standard_deviation.raw == 0 ==> r == Err::<Fx, RegressionError>(
            RegressionError::DivisionByDegenerateStatistic,
        ),
        model.standard_deviation.raw != 0 ==> (r matches Ok(v) && v.raw as int
            == predict_spec(km, *model)),
{
    if model.standard_deviation.raw == 0 {
        Err(RegressionError::DivisionByDegenerateStatistic)
    } else {
        Ok(predict_at(km, model))
    }
}

/// Law: a prediction is the intercept plus the slope applied to the
/// normalized feature, for every feature value and every model.
pub proof fn lemma_predict_is_affine_in_normalized(km: u64, m: Model)
    ensures
        predict_spec(km, m) == fx_add_spec(
            m.theta0.raw as int,
            fx_mul_spec(m.theta1.raw as int, normalize_spec(km, m)),
        ),
{
}

} // verus!
