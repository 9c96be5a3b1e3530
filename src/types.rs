use vstd::prelude::*;

verus! {

/// Largest magnitude of a decimal mantissa (96 bits), exclusive.
pub const MANTISSA_LIMIT: i128 = 79228162514264337593543950336;

/// Largest scale of a decimal amount.
pub const MAX_SCALE: u32 = 28;

/// A raw decimal amount as the provider writes it: `mantissa / 10^scale`.
#[derive(Debug)]
pub struct Amount {
    mantissa: i128,
    scale: u32,
}

impl Amount {
    #[verifier::type_invariant]
    pub closed spec fn inv(self) -> bool {
        -MANTISSA_LIMIT < self.mantissa < MANTISSA_LIMIT && self.scale <= MAX_SCALE
    }

    pub closed spec fn spec_mantissa(self) -> int {
        self.mantissa as int
    }

    pub closed spec fn spec_scale(self) -> nat {
        self.scale as nat
    }

    /// The amount `mantissa / 10^scale`; `None` where the mantissa needs more
    /// than 96 bits or the scale exceeds 28.
    pub fn new(mantissa: i128, scale: u32) -> (r: Option<Amount>)
        ensures
            r is Some <==> (-MANTISSA_LIMIT < mantissa < MANTISSA_LIMIT && scale <= MAX_SCALE),
            r matches Some(a) ==> a.spec_mantissa() == mantissa && a.spec_scale() == scale,
    {
        if -MANTISSA_LIMIT < mantissa && mantissa < MANTISSA_LIMIT && scale <= MAX_SCALE {
            Some(Amount { mantissa, scale })
        } else {
            None
        }
    }

    pub fn mantissa(&self) -> (r: i128)
        ensures
            r == self.spec_mantissa(),
    {
        self.mantissa
    }

    pub fn scale(&self) -> (r: u32)
        ensures
            r == self.spec_scale(),
    {
        self.scale
    }

    /// The price per kWh of this amount per MWh.
    pub fn per_kwh(&self) -> (r: Price)
        ensures
            r == per_kwh(*self),
    {
        proof {
            use_type_invariant(self);
        }
        Price { mantissa: self.mantissa, scale: self.scale + 3 }
    }

    /// The tax on the price per kWh of this amount per MWh.
    pub fn tax_per_kwh(&self) -> (r: Price)
        ensures
            r == tax_per_kwh(*self),
    {
        proof {
            use_type_invariant(self);
        }
        Price { mantissa: self.mantissa * 21, scale: self.scale + 5 }
    }
}

impl Clone for Amount {
    fn clone(&self) -> (r: Amount)
        ensures
            r == *self,
    {
        proof {
            use_type_invariant(self);
        }
        Amount { mantissa: self.mantissa, scale: self.scale }
    }
}

impl Copy for Amount {}

/// An exact fixed-point price: `mantissa / 10^scale` currency units.
#[derive(Clone, Copy, Debug, PartialEq, Eq, Structural)]
pub struct Price {
    pub mantissa: i128,
    pub scale: u32,
}

/// Fixed sourcing markup per kWh: 0.0182.
pub open spec fn sourcing_markup() -> Price {
    Price { mantissa: 182, scale: 4 }
}

/// Fixed energy tax per kWh: 0.1316.
pub open spec fn energy_tax() -> Price {
    Price { mantissa: 1316, scale: 4 }
}

pub fn sourcing_markup_price() -> (r: Price)
    ensures
        r == sourcing_markup(),
{
    Price { mantissa: 182, scale: 4 }
}

pub fn energy_tax_price() -> (r: Price)
    ensures
        r == energy_tax(),
{
    Price { mantissa: 1316, scale: 4 }
}

/// The provider's price per MWh as a price per kWh: the amount divided by 1000.
pub open spec fn per_kwh(a: Amount) -> Price {
    Price { mantissa: a.spec_mantissa() as i128, scale: (a.spec_scale() + 3) as u32 }
}

/// The tax on the price per kWh of an amount: that price times 0.21.
pub open spec fn tax_per_kwh(a: Amount) -> Price {
    Price { mantissa: (a.spec_mantissa() * 21) as i128, scale: (a.spec_scale() + 5) as u32 }
}

/// One priced interval `[from, till)`, instants in seconds since the Unix epoch.
#[derive(Debug)]
pub struct SpotPrice {
    pub id: Option<String>,
    pub source: Option<String>,
    pub from: i64,
    pub till: i64,
    pub market_price: Price,
    pub market_price_tax: Price,
    pub sourcing_markup_price: Price,
    pub energy_tax_price: Price,
}

impl SpotPrice {
    /// A field-by-field copy.
    pub fn copy(&self) -> (r: SpotPrice)
        ensures
            r == *self,
    {
        let id = match &self.id {
            Some(s) => Some(s.clone()),
            None => None,
        };
        let source = match &self.source {
            Some(s) => Some(s.clone()),
            None => None,
        };
        SpotPrice {
            id,
            source,
            from: self.from,
            till: self.till,
            market_price: self.market_price,
            market_price_tax: self.market_price_tax,
            sourcing_markup_price: self.sourcing_markup_price,
            energy_tax_price: self.energy_tax_price,
        }
    }
}

/// The checkpoint kept between runs.
#[derive(Debug)]
pub struct State {
    pub future_spot_prices: Vec<SpotPrice>,
    pub last_from: i64,
}

#[derive(Debug)]
pub struct SpotPriceData {
    pub market_prices_electricity: Vec<SpotPrice>,
}

#[derive(Debug)]
pub struct SpotPriceResponse {
    pub data: SpotPriceData,
}

#[derive(Debug)]
pub struct SpotPriceRequestVariables {
    pub start_date: String,
    pub end_date: String,
}

#[derive(Debug)]
pub struct SpotPriceRequest {
    pub query: String,
    pub variables: SpotPriceRequestVariables,
    pub operation_name: String,
}

/// Why a run, or one of its steps, failed.
#[derive(Debug)]
pub enum ExportError {
    /// The market data source could not be read, or answered with a failure status.
    FetchFailed { reason: String },
    /// A period names a resolution code that is not recognized.
    UnknownResolution { code: String },
    /// A timestamp or a price amount could not be read.
    ParseFailed { input: String },
    /// The end of an interval lies outside the representable range of instants.
    OutOfRange { start: i64 },
    /// A row could not be written to the analytical sink.
    SinkWriteFailed { reason: String },
    /// The checkpoint could not be read or stored.
    CheckpointIOFailed { reason: String },
}

} // verus!
