//! The persisted representation of a model: a structured text record of the
//! four fields, one `name=value` line each, every value a sign and nineteen
//! decimal digits of the raw fixed-point units. Serialization and parsing
//! are exact inverses: the round trip loses nothing.

use vstd::prelude::*;

use crate::fx::Fx;
use crate::model::{Model, RegressionError};

verus! {

/// Powers of ten.
pub open spec fn pow10(k: nat) -> int
    decreases k,
{
    if k == 0 {
        1
    } else {
        10 * pow10((k - 1) as nat)
    }
}

/// The `k` low decimal digits of a non-negative value, most significant
/// first, as ASCII bytes.
pub open spec fn digits_of(v: int, k: nat) -> Seq<u8>
    recommends
        v >= 0,
    decreases k,
{
    if k == 0 {
        Seq::empty()
    } else {
        digits_of(v / 10, (k - 1) as nat).push((48 + v % 10) as u8)
    }
}

/// The value of a string of ASCII decimal digits, most significant first.
pub open spec fn val_of(s: Seq<u8>) -> int
    decreases s.len(),
{
    if s.len() == 0 {
        0
    } else {
        val_of(s.drop_last()) * 10 + (s.last() as int - 48)
    }
}

/// Every byte is an ASCII decimal digit.
pub open spec fn all_digits(s: Seq<u8>) -> bool {
    forall|j: int| 0 <= j < s.len() ==> 48 <= #[trigger] s[j] <= 57
}

/// One serialized field: an explicit sign and nineteen digits of the
/// magnitude of the raw fixed-point value.
pub open spec fn render_field_spec(v: i64) -> Seq<u8> {
    if v >= 0 {
        seq![43u8] + digits_of(v as int, 19)
    } else {
        seq![45u8] + digits_of(-(v as int), 19)
    }
}

/// Reading one serialized field back. `None` on anything but a sign byte,
/// nineteen digits, and a magnitude that fits the sign's range; a negative
/// sign with magnitude zero is rejected, so every accepted spelling is the
/// canonical one.
pub open spec fn parse_field_spec(w: Seq<u8>) -> Option<i64>
    recommends
        w.len() == 20,
{
    let ds = w.subrange(1, 20);
    if !all_digits(ds) {
        None
    } else if w[0] == 43 {
        if val_of(ds) <= i64::MAX as int {
            Some(val_of(ds) as i64)
        } else {
            None
        }
    } else if w[0] == 45 {
        if 1 <= val_of(ds) && val_of(ds) <= 0x8000_0000_0000_0000 {
            Some((-val_of(ds)) as i64)
        } else {
            None
        }
    } else {
        None
    }
}

/// The bytes of `theta0=`.
pub open spec fn hdr_theta0() -> Seq<u8> {
    seq![116u8, 104u8, 101u8, 116u8, 97u8, 48u8, 61u8]
}

/// The bytes of `theta1=`.
pub open spec fn hdr_theta1() -> Seq<u8> {
    seq![116u8, 104u8, 101u8, 116u8, 97u8, 49u8, 61u8]
}

/// The bytes of `mean=`.
pub open spec fn hdr_mean() -> Seq<u8> {
    seq![109u8, 101u8, 97u8, 110u8, 61u8]
}

/// The bytes of `sd=`.
pub open spec fn hdr_sd() -> Seq<u8> {
    seq![115u8, 100u8, 61u8]
}

/// The whole persisted record: four `name=value` lines.
pub open spec fn spec_serialize(m: Model) -> Seq<u8> {
    hdr_theta0() + render_field_spec(m.theta0.raw) + seq![10u8] + hdr_theta1()
        + render_field_spec(m.theta1.raw) + seq![10u8] + hdr_mean() + render_field_spec(m.mean.raw)
        + seq![10u8] + hdr_sd() + render_field_spec(m.standard_deviation.raw) + seq![10u8]
}

/// Whether the fixed framing of the record is present: the exact length,
/// the four field names, and the line ends.
pub open spec fn frame_ok(s: Seq<u8>) -> bool {
    s.len() == 106 && s.subrange(0, 7) == hdr_theta0() && s[27] == 10 && s.subrange(28, 35)
        == hdr_theta1() && s[55] == 10 && s.subrange(56, 61) == hdr_mean() && s[81] == 10
        && s.subrange(82, 85) == hdr_sd() && s[105] == 10
}

/// What reading a persisted record returns: the model whose fields the four
/// lines carry, or `PersistenceFailure` on any malformed text.
pub open spec fn deserialize_spec(s: Seq<u8>) -> Result<Model, RegressionError> {
    if !frame_ok(s) {
        Err(RegressionError::PersistenceFailure)
    } else {
        match (
            parse_field_spec(s.subrange(7, 27)),
            parse_field_spec(s.subrange(35, 55)),
            parse_field_spec(s.subrange(61, 81)),
            parse_field_spec(s.subrange(85, 105)),
        ) {
            (Some(t0), Some(t1), Some(mu), Some(sd)) => Ok(
                Model {
                    theta0: Fx { raw: t0 },
                    theta1: Fx { raw: t1 },
                    mean: Fx { raw: mu },
                    standard_deviation: Fx { raw: sd },
                },
            ),
            _ => Err(RegressionError::PersistenceFailure),
        }
    }
}

/// Ten to any power is positive.
proof fn lemma_pow10_pos(k: nat)
    ensures
        pow10(k) >= 1,
    decreases k,
{
    if k > 0 {
        lemma_pow10_pos((k - 1) as nat);
    }
}

/// Powers of ten grow with the exponent.
proof fn lemma_pow10_mono(a: nat, b: nat)
    requires
        a <= b,
    ensures
        pow10(a) <= pow10(b),
    decreases b,
{
    lemma_pow10_pos(a);
    if a < b {
        lemma_pow10_mono(a, (b - 1) as nat);
    }
}

/// The two powers of ten the fixed field width rests on.
proof fn lemma_pow10_vals()
    ensures
        pow10(18) == 1_000_000_000_000_000_000,
        pow10(19) == 10_000_000_000_000_000_000,
{
    reveal_with_fuel(pow10, 21);
}

/// A digit string has one byte per digit.
proof fn lemma_digits_len(v: int, k: nat)
    ensures
        digits_of(v, k).len() == k,
    decreases k,
{
    if k > 0 {
        lemma_digits_len(v / 10, (k - 1) as nat);
    }
}

/// Rendering a value below `pow10(k)` into `k` digits is faithful: the
/// bytes are digits and they read back as the value.
proof fn lemma_digits_of_props(v: int, k: nat)
    requires
        0 <= v < pow10(k),
    ensures
        digits_of(v, k).len() == k,
        all_digits(digits_of(v, k)),
        val_of(digits_of(v, k)) == v,
    decreases k,
{
    lemma_digits_len(v, k);
    if k == 0 {
    } else {
        lemma_digits_of_props(v / 10, (k - 1) as nat);
        let d = digits_of(v / 10, (k - 1) as nat);
        let b = (48 + v % 10) as u8;
        assert(digits_of(v, k) == d.push(b));
        assert(d.push(b).drop_last() =~= d);
        assert(forall|j: int|
            0 <= j < k ==> (#[trigger] d.push(b)[j]) == if j < k - 1 {
                d[j]
            } else {
                b
            });
    }
}

/// A string of `k` digits reads back below `pow10(k)`.
proof fn lemma_val_of_bound(s: Seq<u8>)
    requires
        all_digits(s),
    ensures
        0 <= val_of(s) < pow10(s.len()),
    decreases s.len(),
{
    if s.len() > 0 {
        assert(all_digits(s.drop_last()));
        lemma_val_of_bound(s.drop_last());
    }
}

/// Parsing undoes rendering on every field value.
pub proof fn lemma_field_round_trip(v: i64)
    ensures
        render_field_spec(v).len() == 20,
        parse_field_spec(render_field_spec(v)) == Some(v),
{
    lemma_pow10_vals();
    let w = render_field_spec(v);
    let mag: int = if v >= 0 {
        v as int
    } else {
        -(v as int)
    };
    lemma_digits_of_props(mag, 19);
    assert(w.subrange(1, 20) =~= digits_of(mag, 19));
    assert(val_of(w.subrange(1, 20)) == mag);
}

/// Appends the `k` low decimal digits of `v`, most significant first.
fn push_digits(out: &mut Vec<u8>, v: u64, k: u64)
    ensures
        final(out)@ == old(out)@ + digits_of(v as int, k as nat),
    decreases k,
{
    if k == 0 {
        proof {
            assert(old(out)@ + digits_of(v as int, 0) =~= old(out)@);
        }
    } else {
        push_digits(out, v / 10, k - 1);
        let d: u8 = 48 + (v % 10) as u8;
        out.push(d);
        proof {
            assert((old(out)@ + digits_of((v / 10) as int, (k - 1) as nat)).push(d) =~= old(out)@
                + digits_of(v as int, k as nat));
        }
    }
}

/// Appends one serialized field: sign byte, then nineteen digits.
fn push_field(out: &mut Vec<u8>, v: i64)
    ensures
        final(out)@ == old(out)@ + render_field_spec(v),
{
    if v >= 0 {
        out.push(43);
        push_digits(out, v as u64, 19);
        proof {
            assert(old(out)@.push(43u8) + digits_of(v as int, 19) =~= old(out)@
                + render_field_spec(v));
        }
    } else {
        out.push(45);
        let mag: u64 = (-(v as i128)) as u64;
        push_digits(out, mag, 19);
        proof {
            assert(old(out)@.push(45u8) + digits_of(mag as int, 19) =~= old(out)@
                + render_field_spec(v));
        }
    }
}

/// Writes a model out as the structured text record above.
pub fn serialize(m: &Model) -> (r: Vec<u8>)
    ensures
        r@ == spec_serialize(*m),
{
    let mut out: Vec<u8> = Vec::new();
    out.push(116);
    out.push(104);
    out.push(101);
    out.push(116);
    out.push(97);
    out.push(48);
    out.push(61);
    push_field(&mut out, m.theta0.raw);
    out.push(10);
    out.push(116);
    out.push(104);
    out.push(101);
    out.push(116);
    out.push(97);
    out.push(49);
    out.push(61);
    push_field(&mut out, m.theta1.raw);
    out.push(10);
    out.push(109);
    out.push(101);
    out.push(97);
    out.push(110);
    out.push(61);
    push_field(&mut out, m.mean.raw);
    out.push(10);
    out.push(115);
    out.push(100);
    out.push(61);
    push_field(&mut out, m.standard_deviation.raw);
    out.push(10);
    proof {
        lemma_digits_len(if m.theta0.raw >= 0 { m.theta0.raw as int } else { -(m.theta0.raw as int) }, 19);
        lemma_digits_len(if m.theta1.raw >= 0 { m.theta1.raw as int } else { -(m.theta1.raw as int) }, 19);
        lemma_digits_len(if m.mean.raw >= 0 { m.mean.raw as int } else { -(m.mean.raw as int) }, 19);
        lemma_digits_len(
            if m.standard_deviation.raw >= 0 { m.standard_deviation.raw as int } else { -(m.standard_deviation.raw as int) },
            19,
        );
        assert(out@ =~= spec_serialize(*m));
    }
    out
}

/// Reads nineteen digits at `start` into their value; `None` as soon as a
/// byte is not a digit.
fn parse_mag(s: &Vec<u8>, start: usize) -> (r: Option<u64>)
    requires
        start + 19 <= s@.len(),
    ensures
        ({
            let ds = s@.subrange(start as int, start as int + 19);
            match r {
                Some(v) => all_digits(ds) && v as int == val_of(ds) && (v as int) < pow10(19),
                None => !all_digits(ds),
            }
        }),
{
    proof {
        lemma_pow10_vals();
    }
    let n: usize = s.len();
    let mut acc: u64 = 0;
    let mut j: usize = 0;
    while j < 19
        invariant
            j <= 19,
            n == s@.len(),
            start + 19 <= s@.len(),
            all_digits(s@.subrange(start as int, start as int + j)),
            acc as int == val_of(s@.subrange(start as int, start as int + j)),
            (acc as int) < pow10(j as nat),
            pow10(18) == 1_000_000_000_000_000_000,
            pow10(19) == 10_000_000_000_000_000_000,
        decreases 19 - j,
    {
        let b = s[start + j];
        if b < 48 || b > 57 {
            proof {
                let ds = s@.subrange(start as int, start as int + 19);
                assert(ds[j as int] == b);
            }
            return None;
        }
        proof {
            lemma_pow10_mono(j as nat, 18);
            assert(pow10((j + 1) as nat) == 10 * pow10(j as nat));
            assert(s@.subrange(start as int, start as int + j + 1).drop_last() =~= s@.subrange(
                start as int,
                start as int + j,
            ));
            assert(s@.subrange(start as int, start as int + j + 1).last() == s@[start as int + j]);
        }
        acc = acc * 10 + ((b - 48) as u64);
        j = j + 1;
    }
    proof {
        assert(s@.subrange(start as int, start as int + 19) =~= s@.subrange(
            start as int,
            start as int + j as int,
        ));
    }
    Some(acc)
}

/// Reads one serialized field at `start`, exactly `parse_field_spec`.
fn parse_field(s: &Vec<u8>, start: usize) -> (r: Option<i64>)
    requires
        start + 20 <= s@.len(),
    ensures
        r == parse_field_spec(s@.subrange(start as int, start as int + 20)),
{
    proof {
        lemma_pow10_vals();
        let w = s@.subrange(start as int, start as int + 20);
        assert(w.subrange(1, 20) =~= s@.subrange(start as int + 1, start as int + 21 - 1));
    }
    let _n: usize = s.len();
    let sign = s[start];
    let mag = match parse_mag(s, start + 1) {
        Some(v) => v,
        None => {
            return None;
        },
    };
    if sign == 43 {
        if mag <= 0x7fff_ffff_ffff_ffffu64 {
            Some(mag as i64)
        } else {
            None
        }
    } else if sign == 45 {
        if mag == 0 {
            None
        } else if mag > 0x8000_0000_0000_0000u64 {
            None
        } else if mag == 0x8000_0000_0000_0000u64 {
            Some(i64::MIN)
        } else {
            Some(-(mag as i64))
        }
    } else {
        None
    }
}

/// Reads a persisted record back into a model. Exactly the canonical
/// spellings that `serialize` writes are accepted; anything else fails with
/// `PersistenceFailure`.
pub fn deserialize(s: &Vec<u8>) -> (r: Result<Model, RegressionError>)
    ensures
        r == deserialize_spec(s@),
{
    if s.len() != 106 {
        return Err(RegressionError::PersistenceFailure);
    }
    let frame = s[0] == 116 && s[1] == 104 && s[2] == 101 && s[3] == 116 && s[4] == 97 && s[5]
        == 48 && s[6] == 61 && s[27] == 10 && s[28] == 116 && s[29] == 104 && s[30] == 101 && s[31]
        == 116 && s[32] == 97 && s[33] == 49 && s[34] == 61 && s[55] == 10 && s[56] == 109 && s[57]
        == 101 && s[58] == 97 && s[59] == 110 && s[60] == 61 && s[81] == 10 && s[82] == 115 && s[83]
        == 100 && s[84] == 61 && s[105] == 10;
    if !frame {
        proof {
            if frame_ok(s@) {
                assert(s@.subrange(0, 7)[0] == s@[0]);
                assert(s@.subrange(0, 7)[1] == s@[1]);
                assert(s@.subrange(0, 7)[2] == s@[2]);
                assert(s@.subrange(0, 7)[3] == s@[3]);
                assert(s@.subrange(0, 7)[4] == s@[4]);
                assert(s@.subrange(0, 7)[5] == s@[5]);
                assert(s@.subrange(0, 7)[6] == s@[6]);
                assert(s@.subrange(28, 35)[0] == s@[28]);
                assert(s@.subrange(28, 35)[1] == s@[29]);
                assert(s@.subrange(28, 35)[2] == s@[30]);
                assert(s@.subrange(28, 35)[3] == s@[31]);
                assert(s@.subrange(28, 35)[4] == s@[32]);
                assert(s@.subrange(28, 35)[5] == s@[33]);
                assert(s@.subrange(28, 35)[6] == s@[34]);
                assert(s@.subrange(56, 61)[0] == s@[56]);
                assert(s@.subrange(56, 61)[1] == s@[57]);
                assert(s@.subrange(56, 61)[2] == s@[58]);
                assert(s@.subrange(56, 61)[3] == s@[59]);
                assert(s@.subrange(56, 61)[4] == s@[60]);
                assert(s@.subrange(82, 85)[0] == s@[82]);
                assert(s@.subrange(82, 85)[1] == s@[83]);
                assert(s@.subrange(82, 85)[2] == s@[84]);
                assert(false);
            }
        }
        return Err(RegressionError::PersistenceFailure);
    }
    proof {
        assert(s@.subrange(0, 7) =~= hdr_theta0());
        assert(s@.subrange(28, 35) =~= hdr_theta1());
        assert(s@.subrange(56, 61) =~= hdr_mean());
        assert(s@.subrange(82, 85) =~= hdr_sd());
    }
    let f0 = parse_field(s, 7);
    let f1 = parse_field(s, 35);
    let f2 = parse_field(s, 61);
    let f3 = parse_field(s, 85);
    match (f0, f1, f2, f3) {
        (Some(t0), Some(t1), Some(mu), Some(sd)) => Ok(
            Model {
                theta0: Fx { raw: t0 },
                theta1: Fx { raw: t1 },
                mean: Fx { raw: mu },
                standard_deviation: Fx { raw: sd },
            },
        ),
        _ => Err(RegressionError::PersistenceFailure),
    }
}

/// Law: the round trip is the identity. Reading back what `serialize`
/// writes gives the model again, field for field, with no loss.
pub proof fn lemma_model_round_trip(m: Model)
    ensures
        deserialize_spec(spec_serialize(m)) == Ok::<Model, RegressionError>(m),
{
    let s = spec_serialize(m);
    lemma_field_round_trip(m.theta0.raw);
    lemma_field_round_trip(m.theta1.raw);
    lemma_field_round_trip(m.mean.raw);
    lemma_field_round_trip(m.standard_deviation.raw);
    assert(s.len() == 106);
    assert(s.subrange(0, 7) =~= hdr_theta0());
    assert(s.subrange(28, 35) =~= hdr_theta1());
    assert(s.subrange(56, 61) =~= hdr_mean());
    assert(s.subrange(82, 85) =~= hdr_sd());
    assert(s[27] == 10 && s[55] == 10 && s[81] == 10 && s[105] == 10);
    assert(s.subrange(7, 27) =~= render_field_spec(m.theta0.raw));
    assert(s.subrange(35, 55) =~= render_field_spec(m.theta1.raw));
    assert(s.subrange(61, 81) =~= render_field_spec(m.mean.raw));
    assert(s.subrange(85, 105) =~= render_field_spec(m.standard_deviation.raw));
}

} // verus!
