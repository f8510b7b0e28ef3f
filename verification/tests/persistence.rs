use linreg::codec::{deserialize, serialize};
use linreg::fx::Fx;
use linreg::model::{Model, RegressionError};

fn model(theta0: i64, theta1: i64, mean: i64, sd: i64) -> Model {
    Model {
        theta0: Fx { raw: theta0 },
        theta1: Fx { raw: theta1 },
        mean: Fx { raw: mean },
        standard_deviation: Fx { raw: sd },
    }
}

#[test]
fn serialized_record_has_the_documented_text_shape() {
    let m = model(0, -42, 20_000_000, 8_164_965);
    let text =
        "theta0=+0000000000000000000\ntheta1=-0000000000000000042\nmean=+0000000000020000000\nsd=+0000000000008164965\n";
    assert_eq!(serialize(&m), text.as_bytes().to_vec());
}

#[test]
fn round_trip_is_identity() {
    let m = model(199_991_316, 81_646_144, 20_000_000, 8_164_965);
    assert_eq!(deserialize(&serialize(&m)), Ok(m));
}

#[test]
fn round_trip_keeps_negative_fields() {
    let m = model(-1, -999_999_999_999, 5, -8);
    assert_eq!(deserialize(&serialize(&m)), Ok(m));
}

#[test]
fn round_trip_keeps_extreme_fields() {
    let m = model(i64::MIN, i64::MAX, 0, 1);
    assert_eq!(deserialize(&serialize(&m)), Ok(m));
}

#[test]
fn wrong_length_is_a_persistence_failure() {
    let mut bytes = serialize(&model(1, 2, 3, 4));
    bytes.pop();
    assert_eq!(deserialize(&bytes), Err(RegressionError::PersistenceFailure));
    assert_eq!(deserialize(&Vec::new()), Err(RegressionError::PersistenceFailure));
}

#[test]
fn tampered_field_name_is_a_persistence_failure() {
    let mut bytes = serialize(&model(1, 2, 3, 4));
    bytes[0] = b'x';
    assert_eq!(deserialize(&bytes), Err(RegressionError::PersistenceFailure));
}

#[test]
fn tampered_sign_is_a_persistence_failure() {
    let mut bytes = serialize(&model(1, 2, 3, 4));
    bytes[7] = b'*';
    assert_eq!(deserialize(&bytes), Err(RegressionError::PersistenceFailure));
}

#[test]
fn tampered_digit_is_a_persistence_failure() {
    let mut bytes = serialize(&model(1, 2, 3, 4));
    bytes[8] = b'a';
    assert_eq!(deserialize(&bytes), Err(RegressionError::PersistenceFailure));
}

#[test]
fn negative_zero_is_not_a_canonical_spelling() {
    let good = serialize(&model(0, 0, 0, 0));
    let mut bad = good.clone();
    bad[7] = b'-';
    assert_eq!(deserialize(&good), Ok(model(0, 0, 0, 0)));
    assert_eq!(deserialize(&bad), Err(RegressionError::PersistenceFailure));
}

#[test]
fn magnitude_overflowing_the_sign_is_a_persistence_failure() {
    // +9223372036854775808 is one past i64::MAX.
    let mut bytes = serialize(&model(i64::MAX, 0, 0, 0));
    let line: &mut [u8] = &mut bytes[7..27];
    line.copy_from_slice(b"+9223372036854775808");
    assert_eq!(deserialize(&bytes), Err(RegressionError::PersistenceFailure));
}
