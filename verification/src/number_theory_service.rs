//! The number theory service: exponentiation behind a speed chosen once, at
//! construction.

use crate::big_integer::BigInteger;
use crate::fast_exponentiation::FastExponentiation;
use crate::modular_power::modular_power;
use vstd::arithmetic::power::pow;
use vstd::prelude::*;

verus! {

/// Which strategy a service runs.
#[derive(Clone, Copy, Debug, PartialEq, Eq, Structural)]
pub enum NumberTheoryServiceSpeed {
    /// The optimized library primitive.
    Fast,
    /// The iterative algorithm written out in this crate.
    Slow,
}

/// Exposes exponentiation with the strategy fixed at construction. The
/// service holds nothing else and never changes.
#[derive(Clone, Copy, Debug)]
pub struct NumberTheoryService {
    speed: NumberTheoryServiceSpeed,
}

impl NumberTheoryService {
    /// The speed that the service was made with.
    pub closed spec fn speed(&self) -> NumberTheoryServiceSpeed {
        self.speed
    }

    /// Whether the service runs the library primitive.
    pub open spec fn uses_fast(&self) -> bool {
        self.speed() == NumberTheoryServiceSpeed::Fast
    }

    pub fn new(speed: NumberTheoryServiceSpeed) -> (service: NumberTheoryService)
        ensures
            service.speed() == speed,
    {
        NumberTheoryService { speed }
    }

    /// Computes `base` to the power `exponent`, reduced by `modulus`, with
    /// the strategy of this service.
    pub fn fast_exponentiation(
        &self,
        base: &BigInteger,
        exponent: &BigInteger,
        modulus: &BigInteger,
    ) -> (result: BigInteger)
        requires
            exponent@ >= 0,
            modulus@ != 0,
        ensures
            result@ == modular_power(base@, exponent@ as nat, modulus@, self.uses_fast()),
            modulus@ > 0 ==> result@ == pow(base@, exponent@ as nat) % modulus@,
            modulus@ > 0 ==> 0 <= result@ < modulus@,
            modulus@ == 1 ==> result@ == 0,
            exponent@ == 0 && modulus@ > 1 ==> result@ == 1,
            base@ == 0 && exponent@ > 0 ==> result@ == 0,
    {
        match self.speed {
            NumberTheoryServiceSpeed::Fast => FastExponentiation::calculate(
                base,
                exponent,
                modulus,
                true,
            ),
            NumberTheoryServiceSpeed::Slow => FastExponentiation::calculate(
                base,
                exponent,
                modulus,
                false,
            ),
        }
    }
}

} // verus!
