//! Input validation shared by every indicator.
//!
//! Each helper states exactly when it accepts and which error it
//! returns otherwise, so callers can propagate validation failures
//! with `?` while their own contracts stay precise.

use vstd::prelude::*;
use crate::error::TechnicalIndicatorError;
use crate::fp::F_ZERO;

verus! {

/// Accepts exactly the non-empty slices; otherwise `EmptyData` carrying
/// the given name.
pub fn assert_non_empty<T>(name: &str, slice: &[T]) -> (r: Result<
    (),
    TechnicalIndicatorError,
>)
    ensures
        r is Ok <==> slice@.len() > 0,
        slice@.len() == 0 ==> (r matches Err(TechnicalIndicatorError::EmptyData { name: n })
            && n@ == name@),
{
    if slice.len() == 0 {
        Err(TechnicalIndicatorError::EmptyData { name: name.to_owned() })
    } else {
        Ok(())
    }
}

/// Accepts exactly when all the named slices share one length (an empty
/// list of slices is accepted); otherwise `MismatchedLength` listing
/// every name with its length.
pub fn assert_same_len<T>(slices: &[(&str, &[T])]) -> (r: Result<(), TechnicalIndicatorError>)
    ensures
        r is Ok <==> (forall|i: int|
            0 <= i < slices@.len() ==> #[trigger] slices@[i].1@.len() == slices@[0].1@.len()),
        r matches Err(TechnicalIndicatorError::MismatchedLength { names }) ==> {
            &&& names@.len() == slices@.len()
            &&& forall|i: int|
                0 <= i < slices@.len() ==> #[trigger] names@[i].1 == slices@[i].1@.len()
                    && names@[i].0@ == slices@[i].0@
        },
        r is Err ==> r matches Err(TechnicalIndicatorError::MismatchedLength { names: _ }),
{
    if slices.len() == 0 {
        return Ok(());
    }
    let expected_len = slices[0].1.len();
    let mut k: usize = 0;
    let mut mismatch = false;
    while k < slices.len()
        invariant
            k <= slices@.len(),
            slices@.len() > 0,
            expected_len == slices@[0].1@.len(),
            mismatch <==> exists|i: int|
                0 <= i < k && #[trigger] slices@[i].1@.len() != expected_len,
        decreases slices@.len() - k,
    {
        if slices[k].1.len() != expected_len {
            mismatch = true;
        }
        k = k + 1;
    }
    if !mismatch {
        return Ok(());
    }
    let mut names: Vec<(String, usize)> = Vec::new();
    let mut j: usize = 0;
    while j < slices.len()
        invariant
            j <= slices@.len(),
            names@.len() == j,
            forall|i: int|
                0 <= i < j ==> #[trigger] names@[i].1 == slices@[i].1@.len() && names@[i].0@
                    == slices@[i].0@,
        decreases slices@.len() - j,
    {
        let pair = (slices[j].0.to_owned(), slices[j].1.len());
        names.push(pair);
        j = j + 1;
    }
    Err(TechnicalIndicatorError::MismatchedLength { names })
}

/// Accepts exactly the periods from one through the data length;
/// otherwise `InvalidPeriod` repeating the period and the length.
pub fn assert_period(period: usize, data_len: usize) -> (r: Result<(), TechnicalIndicatorError>)
    ensures
        r is Ok <==> (0 < period && period <= data_len),
        period == 0 ==> (r matches Err(TechnicalIndicatorError::InvalidPeriod {
            period: p,
            data_len: d,
            reason,
        }) && p == period && d == data_len && reason@ == "must be greater than 0"@),
        period > data_len ==> (r matches Err(TechnicalIndicatorError::InvalidPeriod {
            period: p,
            data_len: d,
            reason,
        }) && p == period && d == data_len && reason@ == "cannot be longer than data length"@),
{
    if period == 0 {
        return Err(TechnicalIndicatorError::InvalidPeriod {
            period,
            data_len,
            reason: "must be greater than 0".to_owned(),
        });
    }
    if period > data_len {
        return Err(TechnicalIndicatorError::InvalidPeriod {
            period,
            data_len,
            reason: "cannot be longer than data length".to_owned(),
        });
    }
    Ok(())
}

/// Accepts exactly when the period reaches the given minimum and also
/// passes `assert_period`; the reason names which bound failed.
pub fn assert_min_period(period: usize, min_period: usize, data_len: usize) -> (r: Result<
    (),
    TechnicalIndicatorError,
>)
    ensures
        r is Ok <==> (min_period <= period && 0 < period && period <= data_len),
        period < min_period ==> (r matches Err(TechnicalIndicatorError::InvalidPeriod {
            period: p,
            data_len: d,
            reason,
        }) && p == period && d == data_len && reason@ == "must be at least the required minimum"@),
        r is Err ==> r matches Err(TechnicalIndicatorError::InvalidPeriod { .. }),
{
    if period < min_period {
        return Err(TechnicalIndicatorError::InvalidPeriod {
            period,
            data_len,
            reason: "must be at least the required minimum".to_owned(),
        });
    }
    assert_period(period, data_len)?;
    Ok(())
}

/// Accepts exactly when the actual length reaches the minimum;
/// otherwise `InvalidPeriod` with the minimum in the period field.
pub fn assert_min_length(name: &str, min_length: usize, actual_length: usize) -> (r: Result<
    (),
    TechnicalIndicatorError,
>)
    ensures
        r is Ok <==> actual_length >= min_length,
        actual_length < min_length ==> (r matches Err(TechnicalIndicatorError::InvalidPeriod {
            period: p,
            data_len: d,
            reason,
        }) && p == min_length && d == actual_length && reason@
            == "is shorter than the required minimum length"@),
{
    let _ = name;
    if actual_length < min_length {
        return Err(TechnicalIndicatorError::InvalidPeriod {
            period: min_length,
            data_len: actual_length,
            reason: "is shorter than the required minimum length".to_owned(),
        });
    }
    Ok(())
}

/// Accepts exactly the nonzero counts; otherwise `InvalidValue` with
/// the bits of `0.0` in the value field.
pub fn assert_positive_usize(name: &str, value: usize) -> (r: Result<
    (),
    TechnicalIndicatorError,
>)
    ensures
        r is Ok <==> value > 0,
        value == 0 ==> (r matches Err(TechnicalIndicatorError::InvalidValue {
            name: n,
            value: v,
            reason,
        }) && n@ == name@ && v == F_ZERO && reason@ == "must be greater than 0"@),
{
    if value == 0 {
        return Err(TechnicalIndicatorError::InvalidValue {
            name: name.to_owned(),
            value: F_ZERO,
            reason: "must be greater than 0".to_owned(),
        });
    }
    Ok(())
}

/// Builds the error that reports an unsupported enum variant.
pub fn unsupported_type(name: &str) -> (r: TechnicalIndicatorError)
    ensures
        r matches TechnicalIndicatorError::UnsupportedType { name: n } && n@ == name@,
{
    TechnicalIndicatorError::UnsupportedType { name: name.to_owned() }
}

} // verus!
