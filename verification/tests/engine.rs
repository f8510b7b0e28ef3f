use linreg::eval::evaluate_accuracy;
use linreg::fx::{Fx, SCALE};
use linreg::model::{normalize, predict, Field, Model, RegressionError};
use linreg::stats::{get_data_parameters, mean_km, standard_deviation};
use linreg::train::{train, train_with};

fn fx(v: i64) -> Fx {
    Fx::from_int(v)
}

fn sample(km: u64, price: i64) -> Field {
    Field { km, price: fx(price) }
}

fn toy_model() -> Model {
    Model { theta0: fx(3), theta1: fx(2), mean: fx(10), standard_deviation: fx(5) }
}

fn training_data() -> Vec<Field> {
    vec![sample(10, 100), sample(20, 200), sample(30, 300)]
}

#[test]
fn scale_is_a_million() {
    assert_eq!(SCALE, 1_000_000);
    assert_eq!(fx(100).raw, 100_000_000);
}

#[test]
fn normalize_is_exactly_centered_and_rescaled() {
    // (20 - 10) / 5 == 2
    let r = normalize(20, &toy_model()).unwrap();
    assert_eq!(r.raw, 2_000_000);
    // (5 - 10) / 5 == -1
    let r = normalize(5, &toy_model()).unwrap();
    assert_eq!(r.raw, -1_000_000);
}

#[test]
fn normalize_fails_on_zero_standard_deviation() {
    let mut m = toy_model();
    m.standard_deviation = Fx { raw: 0 };
    assert_eq!(normalize(20, &m), Err(RegressionError::DivisionByDegenerateStatistic));
}

#[test]
fn predict_is_intercept_plus_slope_times_normalized() {
    // 3 + 2 * ((20 - 10) / 5) == 7
    let r = predict(20, &toy_model()).unwrap();
    assert_eq!(r.raw, 7_000_000);
}

#[test]
fn predict_fails_on_zero_standard_deviation() {
    let mut m = toy_model();
    m.standard_deviation = Fx { raw: 0 };
    assert_eq!(predict(20, &m), Err(RegressionError::DivisionByDegenerateStatistic));
}

#[test]
fn mean_of_the_scenario_dataset_is_twenty() {
    let m = mean_km(&training_data()).unwrap();
    assert_eq!(m.raw, 20_000_000);
}

#[test]
fn mean_of_empty_dataset_is_undefined() {
    assert_eq!(mean_km(&Vec::new()), Err(RegressionError::UndefinedStatistics));
}

#[test]
fn standard_deviation_of_the_scenario_dataset() {
    // population variance of {10, 20, 30} around 20 is 66.666666;
    // the fixed-point square root of that is 8.164965.
    let sd = standard_deviation(fx(20), &training_data()).unwrap();
    assert_eq!(sd.raw, 8_164_965);
}

#[test]
fn data_parameters_seed_an_untrained_model() {
    let m = get_data_parameters(&training_data()).unwrap();
    assert_eq!(m.theta0.raw, 0);
    assert_eq!(m.theta1.raw, 0);
    assert_eq!(m.mean.raw, 20_000_000);
    assert_eq!(m.standard_deviation.raw, 8_164_965);
}

#[test]
fn training_on_empty_dataset_fails() {
    assert_eq!(train(&Vec::new()), Err(RegressionError::UndefinedStatistics));
}

#[test]
fn training_on_zero_variance_fails() {
    let data = vec![sample(7, 100), sample(7, 200), sample(7, 300)];
    assert_eq!(train(&data), Err(RegressionError::DivisionByDegenerateStatistic));
}

#[test]
fn training_fits_the_scenario_dataset() {
    let model = train(&training_data()).unwrap();
    assert_eq!(model.mean.raw, 20_000_000);
    assert_eq!(model.standard_deviation.raw, 8_164_965);
    // Regression fixture: the exact parameters the documented schedule of
    // 1000 epochs at learning rate 0.01 reaches on this dataset.
    assert_eq!(model.theta0.raw, 199_991_316);
    assert_eq!(model.theta1.raw, 81_646_144);
    // The data lie on target == 10 * feature, so the fitted line puts
    // predict(40) close to 400.
    let p = predict(40, &model).unwrap();
    assert_eq!(p.raw, 399_982_647);
    assert!((p.raw - 400_000_000).abs() < 500_000);
}

#[test]
fn training_for_zero_epochs_returns_the_seeded_model() {
    let model = train_with(&training_data(), 0, Fx { raw: 10_000 }).unwrap();
    assert_eq!(model.theta0.raw, 0);
    assert_eq!(model.theta1.raw, 0);
    assert_eq!(model.mean.raw, 20_000_000);
    assert_eq!(model.standard_deviation.raw, 8_164_965);
}

#[test]
fn prediction_on_the_fitted_model_is_the_affine_combination() {
    let model = train(&training_data()).unwrap();
    let n = normalize(40, &model).unwrap();
    let manual = model.theta0.add(model.theta1.mul(n));
    assert_eq!(predict(40, &model).unwrap(), manual);
}

#[test]
fn evaluation_preserves_dataset_order() {
    // Prediction for km == 20 on the toy model is 7, so target 14 gives
    // ratio 50 and target 7 gives ratio 100; the recurrence weights the
    // later sample more.
    let half_then_exact = vec![sample(20, 14), sample(20, 7)];
    let exact_then_half = vec![sample(20, 7), sample(20, 14)];
    let a = evaluate_accuracy(&half_then_exact, &toy_model()).unwrap();
    let b = evaluate_accuracy(&exact_then_half, &toy_model()).unwrap();
    assert_eq!(a.raw, 87_500_000);
    assert_eq!(b.raw, 75_000_000);
}

#[test]
fn training_is_deterministic() {
    let a = train(&training_data()).unwrap();
    let b = train(&training_data()).unwrap();
    assert_eq!(a, b);
}

#[test]
fn evaluation_follows_the_halving_recurrence() {
    // One sample, prediction 7, target 14: ratio is 50%, so the
    // accumulator moves from 100 to (100 + 50) / 2 == 75.
    let data = vec![sample(20, 14)];
    let acc = evaluate_accuracy(&data, &toy_model()).unwrap();
    assert_eq!(acc.raw, 75_000_000);
}

#[test]
fn evaluation_of_the_fitted_scenario_model_approaches_100() {
    let data = training_data();
    let model = train(&data).unwrap();
    let acc = evaluate_accuracy(&data, &model).unwrap();
    assert_eq!(acc.raw, 99_996_199);
    assert!((acc.raw - 100_000_000).abs() < 500_000);
}

#[test]
fn evaluation_fails_on_a_zero_target() {
    let data = vec![sample(20, 14), sample(30, 0)];
    assert_eq!(evaluate_accuracy(&data, &toy_model()), Err(RegressionError::InvalidTarget));
}

#[test]
fn evaluation_fails_on_zero_standard_deviation() {
    let mut m = toy_model();
    m.standard_deviation = Fx { raw: 0 };
    assert_eq!(
        evaluate_accuracy(&training_data(), &m),
        Err(RegressionError::DivisionByDegenerateStatistic)
    );
}

#[test]
fn fixed_point_division_truncates_toward_zero() {
    assert_eq!(fx(1).div(fx(3)).raw, 333_333);
    assert_eq!(fx(-1).div(fx(3)).raw, -333_333);
    assert_eq!(Fx { raw: -3 }.avg(2).raw, -1);
}

#[test]
fn fixed_point_arithmetic_saturates() {
    assert_eq!(Fx::from_int(i64::MAX).raw, i64::MAX);
    assert_eq!(Fx { raw: i64::MAX }.add(Fx { raw: 1 }).raw, i64::MAX);
    assert_eq!(Fx { raw: i64::MIN }.sub(Fx { raw: 1 }).raw, i64::MIN);
}

#[test]
fn untrained_model_is_all_zero() {
    let m = Model::default();
    assert_eq!(m.theta0.raw, 0);
    assert_eq!(m.theta1.raw, 0);
    assert_eq!(m.mean.raw, 0);
    assert_eq!(m.standard_deviation.raw, 0);
}
