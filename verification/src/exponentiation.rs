//! The exponentiation request: three decimal texts in, one decimal text
//! out.

use crate::big_integer::{decimal_text, decimal_value, BigInteger};
use crate::modular_power::modular_power;
use crate::number_theory_service::{NumberTheoryService, NumberTheoryServiceSpeed};
use crate::serializable_models::{number_view, ExponentiationRequest, SingleStringResponse};
use vstd::prelude::*;

verus! {

/// Why an exponentiation request was turned down.
#[derive(Clone, Copy, Debug, PartialEq, Eq, Structural)]
pub enum ExponentiationError {
    /// The exponent is no decimal number.
    MalformedExponent,
    /// The base is no decimal number.
    MalformedBase,
    /// The modulus is no decimal number.
    MalformedModulus,
    /// The exponent is below zero.
    NegativeExponent,
    /// The modulus is zero.
    ZeroModulus,
}

/// The answer to a request whose operands were read as `exponent`, `base`
/// and `modulus`. The first operand that is missing, in this order, names
/// the error; then a negative exponent, then a zero modulus. Every other
/// request has the result of the chosen strategy.
pub open spec fn requested_power(
    exponent: Option<int>,
    base: Option<int>,
    modulus: Option<int>,
    use_fast: bool,
) -> Result<int, ExponentiationError> {
    match (exponent, base, modulus) {
        (None, _, _) => Err(ExponentiationError::MalformedExponent),
        (Some(_), None, _) => Err(ExponentiationError::MalformedBase),
        (Some(_), Some(_), None) => Err(ExponentiationError::MalformedModulus),
        (Some(e), Some(b), Some(m)) => if e < 0 {
            Err(ExponentiationError::NegativeExponent)
        } else if m == 0 {
            Err(ExponentiationError::ZeroModulus)
        } else {
            Ok(modular_power(b, e as nat, m, use_fast))
        },
    }
}

/// The value of a result, or its error.
pub open spec fn outcome_view(outcome: Result<BigInteger, ExponentiationError>) -> Result<
    int,
    ExponentiationError,
> {
    match outcome {
        Ok(number) => Ok(number@),
        Err(error) => Err(error),
    }
}

/// Answers a request whose operands have been read: picks the service by
/// the flag and lets it compute, or names what is wrong with the operands.
pub fn exponentiation_of(
    exponent: Option<BigInteger>,
    base: Option<BigInteger>,
    modulus: Option<BigInteger>,
    use_fast: bool,
) -> (outcome: Result<BigInteger, ExponentiationError>)
    ensures
        outcome_view(outcome) == requested_power(
            number_view(exponent),
            number_view(base),
            number_view(modulus),
            use_fast,
        ),
{
    let exponent = match exponent {
        Some(exponent) => exponent,
        None => {
            return Err(ExponentiationError::MalformedExponent);
        },
    };
    let base = match base {
        Some(base) => base,
        None => {
            return Err(ExponentiationError::MalformedBase);
        },
    };
    let modulus = match modulus {
        Some(modulus) => modulus,
        None => {
            return Err(ExponentiationError::MalformedModulus);
        },
    };
    if exponent.is_negative() {
        return Err(ExponentiationError::NegativeExponent);
    }
    if modulus.is_zero() {
        return Err(ExponentiationError::ZeroModulus);
    }
    let number_theory_service = match use_fast {
        true => NumberTheoryService::new(NumberTheoryServiceSpeed::Fast),
        false => NumberTheoryService::new(NumberTheoryServiceSpeed::Slow),
    };
    Ok(number_theory_service.fast_exponentiation(&base, &exponent, &modulus))
}

/// Answers an exponentiation request: reads the three operands as decimal
/// numbers, computes the power with the strategy that `use_fast` selects
/// and writes the result in decimal.
pub fn exponentiation(request: &ExponentiationRequest, use_fast: bool) -> (response: Result<
    SingleStringResponse,
    ExponentiationError,
>)
    ensures
        match requested_power(
            decimal_value(request.exponent@),
            decimal_value(request.base@),
            decimal_value(request.modulus@),
            use_fast,
        ) {
            Ok(power) => response matches Ok(answer) && answer.message@ == decimal_text(power),
            Err(error) => response matches Err(reason) && reason == error,
        },
{
    let exponent = BigInteger::parse_decimal(request.exponent.as_str());
    let base = BigInteger::parse_decimal(request.base.as_str());
    let modulus = BigInteger::parse_decimal(request.modulus.as_str());
    match exponentiation_of(exponent, base, modulus, use_fast) {
        Ok(power) => Ok(SingleStringResponse { message: power.to_decimal() }),
        Err(error) => Err(error),
    }
}

} // verus!
