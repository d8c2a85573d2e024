//! The line speeds a port can be opened at.

use vstd::prelude::*;

verus! {

/// A line speed, in bits per second.
#[derive(Clone, Copy, Debug, PartialEq, Eq, Structural)]
pub enum BaudRate {
    BaudRate9600,
    BaudRate115200,
}

impl BaudRate {
    /// The speed in bits per second.
    pub open spec fn bits_per_second(self) -> u32 {
        match self {
            BaudRate::BaudRate9600 => 9600,
            BaudRate::BaudRate115200 => 115200,
        }
    }

    /// Every speed, slowest first.
    pub fn iter() -> (r: Vec<BaudRate>)
        ensures
            r@ == seq![BaudRate::BaudRate9600, BaudRate::BaudRate115200],
    {
        let mut rates: Vec<BaudRate> = Vec::new();
        rates.push(BaudRate::BaudRate9600);
        rates.push(BaudRate::BaudRate115200);
        rates
    }

    /// The speed in bits per second.
    pub fn value(&self) -> (r: u32)
        ensures
            r == self.bits_per_second(),
    {
        match self {
            BaudRate::BaudRate9600 => 9600,
            BaudRate::BaudRate115200 => 115200,
        }
    }

    /// The speed in decimal digits.
    pub fn to_string(&self) -> (r: String)
        ensures
            *self == BaudRate::BaudRate9600 ==> r@ == "9600"@,
            *self == BaudRate::BaudRate115200 ==> r@ == "115200"@,
    {
        match self {
            BaudRate::BaudRate9600 => "9600".to_owned(),
            BaudRate::BaudRate115200 => "115200".to_owned(),
        }
    }
}

impl Default for BaudRate {
    fn default() -> (r: Self)
        ensures
            r == BaudRate::BaudRate115200,
    {
        BaudRate::BaudRate115200
    }
}

} // verus!
