//! Unit-safe physical quantities: energy, power, duration and efficiency.

use vstd::prelude::*;
use crate::fixed::{MAX_VALUE, MIN_VALUE, SCALE, spec_times, spec_over, scale};
use crate::scalar::Scalar;
use std::cmp::Ordering;
use std::ops::{Add, Sub, Mul, Div, Neg};
use vstd::std_specs::cmp::PartialOrdSpecImpl;
use vstd::std_specs::convert::TryFromSpecImpl;
use vstd::std_specs::ops::{AddSpecImpl, SubSpecImpl, MulSpecImpl, DivSpecImpl, NegSpecImpl};

verus! {

/// Whether a count of `10^-12` lies within the magnitude every quantity must respect.
pub open spec fn spec_in_range(units: int) -> bool {
    -MAX_VALUE <= units <= MAX_VALUE
}

/// The count carried by a reading that is finite and within the magnitude bound.
pub open spec fn spec_checked(raw: Scalar) -> Option<int> {
    match raw {
        Scalar::Finite(v) if spec_in_range(v as int) => Some(v as int),
        _ => None,
    }
}

/// A product of two in-range counts is small enough for [`scale`].
proof fn lemma_product_fits(a: int, b: int)
    requires
        spec_in_range(a),
        0 <= b <= MAX_VALUE,
    ensures
        -crate::fixed::SCALE_LIMIT <= a <= crate::fixed::SCALE_LIMIT,
        -crate::fixed::SCALE_LIMIT <= a * b <= crate::fixed::SCALE_LIMIT,
{
    assert(-1_000_000_000_000_000_000 * 1_000_000_000_000_000_000 <= a * b
        <= 1_000_000_000_000_000_000 * 1_000_000_000_000_000_000) by (nonlinear_arith)
        requires
            -1_000_000_000_000_000_000 <= a <= 1_000_000_000_000_000_000,
            0 <= b <= 1_000_000_000_000_000_000,
    ;
}

/* --------------- ENERGY ------------------- */

/// An amount of energy in kilowatt-hours, as a count of `10^-12` kWh.
#[derive(Debug, Clone, Copy, PartialEq, Eq, Structural)]
pub struct Energy(i64);

impl View for Energy {
    type V = int;

    closed spec fn view(&self) -> int {
        self.0 as int
    }
}

impl Energy {
    #[verifier::type_invariant]
    spec fn bounded(self) -> bool {
        spec_in_range(self.0 as int)
    }

    /// The count of a reading that is a valid energy: finite and within the magnitude bound.
    pub open spec fn spec_accepts(raw: Scalar) -> Option<int> {
        spec_checked(raw)
    }

    /// Validates a raw reading as an energy: it must be finite and within the magnitude bound.
    pub fn from_kwh(energy_kwh: Scalar) -> (r: Result<Self, Scalar>)
        ensures
            match Self::spec_accepts(energy_kwh) {
                Some(units) => r matches Ok(e) && e@ == units,
                None => r == Err::<Self, Scalar>(energy_kwh),
            },
    {
        match energy_kwh {
            Scalar::Finite(v) => {
                if v < -MAX_VALUE || v > MAX_VALUE {
                    Err(energy_kwh)
                } else {
                    Ok(Self(v))
                }
            },
            _ => Err(energy_kwh),
        }
    }

    /// Builds an energy from a reading known to be valid.
    pub fn from_kwh_const(energy_kwh: Scalar) -> (r: Self)
        requires
            Self::spec_accepts(energy_kwh) is Some,
        ensures
            Some(r@) == Self::spec_accepts(energy_kwh),
    {
        match energy_kwh {
            Scalar::Finite(v) => Self(v),
            _ => Self(0),
        }
    }

    /// The energy as a count of `10^-12` kWh.
    pub fn as_kwh(&self) -> (r: i64)
        ensures
            r == self@,
            spec_in_range(r as int),
    {
        proof {
            use_type_invariant(self);
        }
        self.0
    }

    /// The smaller of two energies.
    pub fn min(self, other: Energy) -> (r: Energy)
        ensures
            r@ == if self@ <= other@ { self@ } else { other@ },
    {
        if self.0 <= other.0 {
            self
        } else {
            other
        }
    }

    /// The larger of two energies.
    pub fn max(self, other: Energy) -> (r: Energy)
        ensures
            r@ == if self@ >= other@ { self@ } else { other@ },
    {
        if self.0 >= other.0 {
            self
        } else {
            other
        }
    }

    /// No energy at all.
    pub fn zero() -> (r: Energy)
        ensures
            r@ == 0,
    {
        Energy(0)
    }

    /// The unit that follows an energy in text.
    pub open spec fn spec_unit() -> Seq<char> {
        seq!['k', 'W', 'h']
    }

    /// The text of the quantity with two decimal places.
    pub fn to_string(&self) -> (r: String)
        ensures
            r@ == crate::text::spec_text(self@, 2, Self::spec_unit()),
    {
        self.to_string_with_precision(2)
    }

    /// The text of the quantity with the given number of decimal places,
    /// rounded to the nearest and, where two are equally near, to the even one.
    pub fn to_string_with_precision(&self, precision: usize) -> (r: String)
        ensures
            r@ == crate::text::spec_text(self@, precision as nat, Self::spec_unit()),
    {
        crate::text::text(self.0, precision, vec!['k', 'W', 'h'])
    }
}

impl PartialOrdSpecImpl for Energy {
    open spec fn obeys_partial_cmp_spec() -> bool {
        true
    }

    open spec fn partial_cmp_spec(&self, other: &Energy) -> Option<Ordering> {
        if self@ < other@ {
            Some(Ordering::Less)
        } else if self@ > other@ {
            Some(Ordering::Greater)
        } else {
            Some(Ordering::Equal)
        }
    }
}

impl PartialOrd for Energy {
    /// Energies are ordered as their counts are.
    fn partial_cmp(&self, other: &Energy) -> (r: Option<Ordering>) {
        if self.0 < other.0 {
            Some(Ordering::Less)
        } else if self.0 > other.0 {
            Some(Ordering::Greater)
        } else {
            Some(Ordering::Equal)
        }
    }
}

impl AddSpecImpl<Energy> for Energy {
    open spec fn obeys_add_spec() -> bool {
        true
    }

    open spec fn add_req(self, rhs: Energy) -> bool {
        spec_in_range(self@ + rhs@)
    }

    closed spec fn add_spec(self, rhs: Energy) -> Energy {
        Energy((self.0 + rhs.0) as i64)
    }
}

impl Add<Energy> for Energy {
    type Output = Energy;

    /// The sum of two energies, which must itself be within the magnitude bound.
    fn add(self, rhs: Energy) -> (r: Energy)
        ensures
            r@ == self@ + rhs@,
    {
        proof {
            use_type_invariant(self);
            use_type_invariant(rhs);
        }
        Energy(self.0 + rhs.0)
    }
}

impl SubSpecImpl<Energy> for Energy {
    open spec fn obeys_sub_spec() -> bool {
        true
    }

    open spec fn sub_req(self, rhs: Energy) -> bool {
        spec_in_range(self@ - rhs@)
    }

    closed spec fn sub_spec(self, rhs: Energy) -> Energy {
        Energy((self.0 - rhs.0) as i64)
    }
}

impl Sub<Energy> for Energy {
    type Output = Energy;

    /// The difference of two energies, which must itself be within the magnitude bound.
    fn sub(self, rhs: Energy) -> (r: Energy)
        ensures
            r@ == self@ - rhs@,
    {
        proof {
            use_type_invariant(self);
            use_type_invariant(rhs);
        }
        Energy(self.0 - rhs.0)
    }
}

/// The reading that could not be taken as an energy.
#[derive(Debug, Clone, Copy, PartialEq, Eq, Structural)]
pub struct EnergyConversionError(pub Scalar);

/// Readings that can be taken as an energy, in one of three unit sizes.
pub trait AsEnergy: Sized {
    /// The reading as a raw scalar.
    spec fn as_scalar(self) -> Scalar;

    /// Takes the reading as megawatt-hours.
    fn mwh(self) -> (r: Result<Energy, EnergyConversionError>)
        ensures
            match Energy::spec_accepts(self.as_scalar().spec_times(1000)) {
                Some(units) => r matches Ok(q) && q@ == units,
                None => r == Err::<Energy, EnergyConversionError>(
                    EnergyConversionError(self.as_scalar().spec_times(1000)),
                ),
            },
    ;

    /// Takes the reading as kilowatt-hours.
    fn kwh(self) -> (r: Result<Energy, EnergyConversionError>)
        ensures
            match Energy::spec_accepts(self.as_scalar()) {
                Some(units) => r matches Ok(q) && q@ == units,
                None => r == Err::<Energy, EnergyConversionError>(
                    EnergyConversionError(self.as_scalar()),
                ),
            },
    ;

    /// Takes the reading as watt-hours.
    fn wh(self) -> (r: Result<Energy, EnergyConversionError>)
        ensures
            match Energy::spec_accepts(self.as_scalar().spec_over(1000)) {
                Some(units) => r matches Ok(q) && q@ == units,
                None => r == Err::<Energy, EnergyConversionError>(
                    EnergyConversionError(self.as_scalar().spec_over(1000)),
                ),
            },
    ;
}

impl AsEnergy for Scalar {
    open spec fn as_scalar(self) -> Scalar {
        self
    }

    fn mwh(self) -> (r: Result<Energy, EnergyConversionError>) {
        match Energy::from_kwh(self.times(1000)) {
            Ok(q) => Ok(q),
            Err(raw) => Err(EnergyConversionError(raw)),
        }
    }

    fn kwh(self) -> (r: Result<Energy, EnergyConversionError>) {
        match Energy::from_kwh(self) {
            Ok(q) => Ok(q),
            Err(raw) => Err(EnergyConversionError(raw)),
        }
    }

    fn wh(self) -> (r: Result<Energy, EnergyConversionError>) {
        match Energy::from_kwh(self.over(1000)) {
            Ok(q) => Ok(q),
            Err(raw) => Err(EnergyConversionError(raw)),
        }
    }
}

/* --------------- POWER ------------------- */

/// A power in kilowatts, as a count of `10^-12` kW. Positive power flows into
/// storage, negative power out of it.
#[derive(Debug, Clone, Copy, PartialEq, Eq, Structural)]
pub struct Power(i64);

impl View for Power {
    type V = int;

    closed spec fn view(&self) -> int {
        self.0 as int
    }
}

impl Power {
    #[verifier::type_invariant]
    spec fn bounded(self) -> bool {
        spec_in_range(self.0 as int)
    }

    /// The count of a reading that is a valid power: finite and within the magnitude bound.
    pub open spec fn spec_accepts(raw: Scalar) -> Option<int> {
        spec_checked(raw)
    }

    /// Validates a raw reading as a power: it must be finite and within the magnitude bound.
    pub fn from_kw(power_kw: Scalar) -> (r: Result<Self, Scalar>)
        ensures
            match Self::spec_accepts(power_kw) {
                Some(units) => r matches Ok(p) && p@ == units,
                None => r == Err::<Self, Scalar>(power_kw),
            },
    {
        match power_kw {
            Scalar::Finite(v) => {
                if v < -MAX_VALUE || v > MAX_VALUE {
                    Err(power_kw)
                } else {
                    Ok(Self(v))
                }
            },
            _ => Err(power_kw),
        }
    }

    /// Builds a power from a reading known to be valid.
    pub fn from_kw_const(power_kw: Scalar) -> (r: Self)
        requires
            Self::spec_accepts(power_kw) is Some,
        ensures
            Some(r@) == Self::spec_accepts(power_kw),
    {
        match power_kw {
            Scalar::Finite(v) => Self(v),
            _ => Self(0),
        }
    }

    /// The power as a count of `10^-12` kW.
    pub fn as_kw(&self) -> (r: i64)
        ensures
            r == self@,
            spec_in_range(r as int),
    {
        proof {
            use_type_invariant(self);
        }
        self.0
    }

    /// The magnitude of the power.
    pub fn abs(self) -> (r: Power)
        ensures
            r@ == if self@ >= 0 { self@ } else { -self@ },
    {
        proof {
            use_type_invariant(self);
        }
        if self.0 >= 0 {
            self
        } else {
            Power(-self.0)
        }
    }

    /// The smaller of two powers.
    pub fn min(self, other: Power) -> (r: Power)
        ensures
            r@ == if self@ <= other@ { self@ } else { other@ },
    {
        if self.0 <= other.0 {
            self
        } else {
            other
        }
    }

    /// No power at all.
    pub fn zero() -> (r: Self)
        ensures
            r@ == 0,
    {
        Self(0)
    }

    /// The unit that follows a power in text.
    pub open spec fn spec_unit() -> Seq<char> {
        seq!['k', 'W']
    }

    /// The text of the quantity with two decimal places.
    pub fn to_string(&self) -> (r: String)
        ensures
            r@ == crate::text::spec_text(self@, 2, Self::spec_unit()),
    {
        self.to_string_with_precision(2)
    }

    /// The text of the quantity with the given number of decimal places,
    /// rounded to the nearest and, where two are equally near, to the even one.
    pub fn to_string_with_precision(&self, precision: usize) -> (r: String)
        ensures
            r@ == crate::text::spec_text(self@, precision as nat, Self::spec_unit()),
    {
        crate::text::text(self.0, precision, vec!['k', 'W'])
    }
}

impl PartialOrdSpecImpl for Power {
    open spec fn obeys_partial_cmp_spec() -> bool {
        true
    }

    open spec fn partial_cmp_spec(&self, other: &Power) -> Option<Ordering> {
        if self@ < other@ {
            Some(Ordering::Less)
        } else if self@ > other@ {
            Some(Ordering::Greater)
        } else {
            Some(Ordering::Equal)
        }
    }
}

impl PartialOrd for Power {
    /// Powers are ordered as their counts are.
    fn partial_cmp(&self, other: &Power) -> (r: Option<Ordering>) {
        if self.0 < other.0 {
            Some(Ordering::Less)
        } else if self.0 > other.0 {
            Some(Ordering::Greater)
        } else {
            Some(Ordering::Equal)
        }
    }
}

impl TryFromSpecImpl<Scalar> for Power {
    open spec fn obeys_try_from_spec() -> bool {
        true
    }

    closed spec fn try_from_spec(value: Scalar) -> Result<Power, Scalar> {
        match Power::spec_accepts(value) {
            Some(units) => Ok(Power(units as i64)),
            None => Err(value),
        }
    }
}

impl TryFrom<Scalar> for Power {
    type Error = Scalar;

    /// Validates a raw reading, as [`Power::from_kw`] does.
    fn try_from(value: Scalar) -> (r: Result<Power, Scalar>)
        ensures
            match Power::spec_accepts(value) {
                Some(units) => r matches Ok(q) && q@ == units,
                None => r == Err::<Power, Scalar>(value),
            },
    {
        Power::from_kw(value)
    }
}

impl NegSpecImpl for Power {
    open spec fn obeys_neg_spec() -> bool {
        true
    }

    open spec fn neg_req(self) -> bool {
        true
    }

    closed spec fn neg_spec(self) -> Power {
        Power((-self.0) as i64)
    }
}

impl Neg for Power {
    type Output = Power;

    /// The same power in the opposite direction.
    fn neg(self) -> (r: Power)
        ensures
            r@ == -self@,
    {
        proof {
            use_type_invariant(self);
        }
        Power(-self.0)
    }
}

impl SubSpecImpl<Power> for Power {
    open spec fn obeys_sub_spec() -> bool {
        true
    }

    open spec fn sub_req(self, rhs: Power) -> bool {
        spec_in_range(self@ - rhs@)
    }

    closed spec fn sub_spec(self, rhs: Power) -> Power {
        Power((self.0 - rhs.0) as i64)
    }
}

impl Sub<Power> for Power {
    type Output = Power;

    /// The difference of two powers, which must itself be within the magnitude bound.
    fn sub(self, rhs: Power) -> (r: Power)
        ensures
            r@ == self@ - rhs@,
    {
        proof {
            use_type_invariant(self);
            use_type_invariant(rhs);
        }
        Power(self.0 - rhs.0)
    }
}

/// The reading that could not be taken as a power.
#[derive(Debug, Clone, Copy, PartialEq, Eq, Structural)]
pub struct PowerConversionError(pub Scalar);

/// Readings that can be taken as a power, in one of three unit sizes.
pub trait AsPower: Sized {
    /// The reading as a raw scalar.
    spec fn as_scalar(self) -> Scalar;

    /// Takes the reading as megawatts.
    fn mw(self) -> (r: Result<Power, PowerConversionError>)
        ensures
            match Power::spec_accepts(self.as_scalar().spec_times(1000)) {
                Some(units) => r matches Ok(q) && q@ == units,
                None => r == Err::<Power, PowerConversionError>(
                    PowerConversionError(self.as_scalar().spec_times(1000)),
                ),
            },
    ;

    /// Takes the reading as kilowatts.
    fn kw(self) -> (r: Result<Power, PowerConversionError>)
        ensures
            match Power::spec_accepts(self.as_scalar()) {
                Some(units) => r matches Ok(q) && q@ == units,
                None => r == Err::<Power, PowerConversionError>(
                    PowerConversionError(self.as_scalar()),
                ),
            },
    ;

    /// Takes the reading as watts.
    fn watt(self) -> (r: Result<Power, PowerConversionError>)
        ensures
            match Power::spec_accepts(self.as_scalar().spec_over(1000)) {
                Some(units) => r matches Ok(q) && q@ == units,
                None => r == Err::<Power, PowerConversionError>(
                    PowerConversionError(self.as_scalar().spec_over(1000)),
                ),
            },
    ;
}

impl AsPower for Scalar {
    open spec fn as_scalar(self) -> Scalar {
        self
    }

    fn mw(self) -> (r: Result<Power, PowerConversionError>) {
        match Power::from_kw(self.times(1000)) {
            Ok(q) => Ok(q),
            Err(raw) => Err(PowerConversionError(raw)),
        }
    }

    fn kw(self) -> (r: Result<Power, PowerConversionError>) {
        match Power::from_kw(self) {
            Ok(q) => Ok(q),
            Err(raw) => Err(PowerConversionError(raw)),
        }
    }

    fn watt(self) -> (r: Result<Power, PowerConversionError>) {
        match Power::from_kw(self.over(1000)) {
            Ok(q) => Ok(q),
            Err(raw) => Err(PowerConversionError(raw)),
        }
    }
}

/* --------------- DURATION ------------------- */

/// A length of time in hours, as a count of `10^-12` h; always strictly
/// above the smallest admissible value, so it can divide.
#[derive(Debug, Clone, Copy, PartialEq, Eq, Structural)]
pub struct Duration(i64);

impl View for Duration {
    type V = int;

    closed spec fn view(&self) -> int {
        self.0 as int
    }
}

impl Duration {
    #[verifier::type_invariant]
    spec fn bounded(self) -> bool {
        MIN_VALUE < self.0 <= MAX_VALUE
    }

    /// The count of a reading that is a valid duration: finite, strictly
    /// above the smallest admissible value and within the magnitude bound.
    pub open spec fn spec_accepts(raw: Scalar) -> Option<int> {
        match raw {
            Scalar::Finite(v) if MIN_VALUE < v <= MAX_VALUE => Some(v as int),
            _ => None,
        }
    }

    /// Validates a raw reading as a duration.
    pub fn from_hour(duration_hour: Scalar) -> (r: Result<Self, Scalar>)
        ensures
            match Self::spec_accepts(duration_hour) {
                Some(units) => r matches Ok(d) && d@ == units,
                None => r == Err::<Self, Scalar>(duration_hour),
            },
    {
        match duration_hour {
            Scalar::Finite(v) => {
                if v <= MIN_VALUE || v > MAX_VALUE {
                    Err(duration_hour)
                } else {
                    Ok(Self(v))
                }
            },
            _ => Err(duration_hour),
        }
    }

    /// Builds a duration from a reading known to be valid.
    pub fn from_hour_const(duration_hour: Scalar) -> (r: Self)
        requires
            Self::spec_accepts(duration_hour) is Some,
        ensures
            Some(r@) == Self::spec_accepts(duration_hour),
    {
        match duration_hour {
            Scalar::Finite(v) => Self(v),
            _ => Self(MAX_VALUE),
        }
    }

    /// The duration as a count of `10^-12` h.
    pub fn as_hour(&self) -> (r: i64)
        ensures
            r == self@,
            MIN_VALUE < r <= MAX_VALUE,
    {
        proof {
            use_type_invariant(self);
        }
        self.0
    }

    /// The unit that follows a duration in text.
    pub open spec fn spec_unit() -> Seq<char> {
        seq!['h', 'o', 'u', 'r', 's']
    }

    /// The text of the quantity with two decimal places.
    pub fn to_string(&self) -> (r: String)
        ensures
            r@ == crate::text::spec_text(self@, 2, Self::spec_unit()),
    {
        self.to_string_with_precision(2)
    }

    /// The text of the quantity with the given number of decimal places,
    /// rounded to the nearest and, where two are equally near, to the even one.
    pub fn to_string_with_precision(&self, precision: usize) -> (r: String)
        ensures
            r@ == crate::text::spec_text(self@, precision as nat, Self::spec_unit()),
    {
        crate::text::text(self.0, precision, vec!['h', 'o', 'u', 'r', 's'])
    }
}

impl PartialOrdSpecImpl for Duration {
    open spec fn obeys_partial_cmp_spec() -> bool {
        true
    }

    open spec fn partial_cmp_spec(&self, other: &Duration) -> Option<Ordering> {
        if self@ < other@ {
            Some(Ordering::Less)
        } else if self@ > other@ {
            Some(Ordering::Greater)
        } else {
            Some(Ordering::Equal)
        }
    }
}

impl PartialOrd for Duration {
    /// Durations are ordered as their counts are.
    fn partial_cmp(&self, other: &Duration) -> (r: Option<Ordering>) {
        if self.0 < other.0 {
            Some(Ordering::Less)
        } else if self.0 > other.0 {
            Some(Ordering::Greater)
        } else {
            Some(Ordering::Equal)
        }
    }
}

impl TryFromSpecImpl<Scalar> for Duration {
    open spec fn obeys_try_from_spec() -> bool {
        true
    }

    closed spec fn try_from_spec(value: Scalar) -> Result<Duration, Scalar> {
        match Duration::spec_accepts(value) {
            Some(units) => Ok(Duration(units as i64)),
            None => Err(value),
        }
    }
}

impl TryFrom<Scalar> for Duration {
    type Error = Scalar;

    /// Validates a raw reading, as [`Duration::from_hour`] does.
    fn try_from(value: Scalar) -> (r: Result<Duration, Scalar>)
        ensures
            match Duration::spec_accepts(value) {
                Some(units) => r matches Ok(q) && q@ == units,
                None => r == Err::<Duration, Scalar>(value),
            },
    {
        Duration::from_hour(value)
    }
}

/// The reading that could not be taken as a duration.
#[derive(Debug, Clone, Copy, PartialEq, Eq, Structural)]
pub struct DurationConversionError(pub Scalar);

/// Readings that can be taken as a duration, in one of three unit sizes.
pub trait AsDuration: Sized {
    /// The reading as a raw scalar.
    spec fn as_scalar(self) -> Scalar;

    /// Takes the reading as hours.
    fn hour(self) -> (r: Result<Duration, DurationConversionError>)
        ensures
            match Duration::spec_accepts(self.as_scalar()) {
                Some(units) => r matches Ok(q) && q@ == units,
                None => r == Err::<Duration, DurationConversionError>(
                    DurationConversionError(self.as_scalar()),
                ),
            },
    ;

    /// Takes the reading as minutes.
    fn minute(self) -> (r: Result<Duration, DurationConversionError>)
        ensures
            match Duration::spec_accepts(self.as_scalar().spec_over(60)) {
                Some(units) => r matches Ok(q) && q@ == units,
                None => r == Err::<Duration, DurationConversionError>(
                    DurationConversionError(self.as_scalar().spec_over(60)),
                ),
            },
    ;

    /// Takes the reading as seconds.
    fn second(self) -> (r: Result<Duration, DurationConversionError>)
        ensures
            match Duration::spec_accepts(self.as_scalar().spec_over(3600)) {
                Some(units) => r matches Ok(q) && q@ == units,
                None => r == Err::<Duration, DurationConversionError>(
                    DurationConversionError(self.as_scalar().spec_over(3600)),
                ),
            },
    ;
}

impl AsDuration for Scalar {
    open spec fn as_scalar(self) -> Scalar {
        self
    }

    fn hour(self) -> (r: Result<Duration, DurationConversionError>) {
        match Duration::from_hour(self) {
            Ok(q) => Ok(q),
            Err(raw) => Err(DurationConversionError(raw)),
        }
    }

    fn minute(self) -> (r: Result<Duration, DurationConversionError>) {
        match Duration::from_hour(self.over(60)) {
            Ok(q) => Ok(q),
            Err(raw) => Err(DurationConversionError(raw)),
        }
    }

    fn second(self) -> (r: Result<Duration, DurationConversionError>) {
        match Duration::from_hour(self.over(3600)) {
            Ok(q) => Ok(q),
            Err(raw) => Err(DurationConversionError(raw)),
        }
    }
}

/* --------------- EFFICIENCY ------------------- */

/// An efficiency as a fraction in `(0, 1]`, as a count of `10^-12`; always
/// strictly above the smallest admissible value, so it can divide.
#[derive(Debug, Clone, Copy, PartialEq, Eq, Structural)]
pub struct Efficiency(i64);

impl View for Efficiency {
    type V = int;

    closed spec fn view(&self) -> int {
        self.0 as int
    }
}

/// Whether a count of `10^-12` is an admissible efficiency.
pub open spec fn spec_is_fraction(units: int) -> bool {
    MIN_VALUE < units <= SCALE
}

impl Efficiency {
    #[verifier::type_invariant]
    spec fn bounded(self) -> bool {
        spec_is_fraction(self.0 as int)
    }

    /// The count of a reading that is a valid efficiency: finite, strictly
    /// above the smallest admissible value and at most one.
    pub open spec fn spec_accepts(raw: Scalar) -> Option<int> {
        match raw {
            Scalar::Finite(v) if spec_is_fraction(v as int) => Some(v as int),
            _ => None,
        }
    }

    /// Validates a raw reading as an efficiency.
    pub fn from_fraction(fraction: Scalar) -> (r: Result<Self, Scalar>)
        ensures
            match Self::spec_accepts(fraction) {
                Some(units) => r matches Ok(e) && e@ == units,
                None => r == Err::<Self, Scalar>(fraction),
            },
    {
        match fraction {
            Scalar::Finite(v) => {
                if v <= MIN_VALUE || v > 1_000_000_000_000 {
                    Err(fraction)
                } else {
                    Ok(Self(v))
                }
            },
            _ => Err(fraction),
        }
    }

    /// The efficiency as a count of `10^-12`.
    pub fn as_fraction(&self) -> (r: i64)
        ensures
            r == self@,
            spec_is_fraction(r as int),
    {
        proof {
            use_type_invariant(self);
        }
        self.0
    }

    /// The square root of the efficiency, rounded up: the one-way efficiency
    /// that, applied twice, gives this round-trip efficiency.
    pub fn sqrt(self) -> (r: Efficiency)
        ensures
            r@ == spec_root(self@),
            spec_is_fraction(r@),
            self@ <= r@,
    {
        proof {
            use_type_invariant(self);
            lemma_root_is_fraction(self.0 as int);
        }
        let radicand: u128 = (self.0 as u128) * (SCALE as u128);
        let root: u64 = crate::fixed::ceil_sqrt(radicand);
        Efficiency(root as i64)
    }

    /// The unit that follows an efficiency in text.
    pub open spec fn spec_unit() -> Seq<char> {
        seq!['%']
    }

    /// The text of the quantity with two decimal places.
    pub fn to_string(&self) -> (r: String)
        ensures
            r@ == crate::text::spec_text(self@, 2, Self::spec_unit()),
    {
        self.to_string_with_precision(2)
    }

    /// The text of the quantity with the given number of decimal places,
    /// rounded to the nearest and, where two are equally near, to the even one.
    pub fn to_string_with_precision(&self, precision: usize) -> (r: String)
        ensures
            r@ == crate::text::spec_text(self@, precision as nat, Self::spec_unit()),
    {
        crate::text::text(self.0, precision, vec!['%'])
    }
}

impl PartialOrdSpecImpl for Efficiency {
    open spec fn obeys_partial_cmp_spec() -> bool {
        true
    }

    open spec fn partial_cmp_spec(&self, other: &Efficiency) -> Option<Ordering> {
        if self@ < other@ {
            Some(Ordering::Less)
        } else if self@ > other@ {
            Some(Ordering::Greater)
        } else {
            Some(Ordering::Equal)
        }
    }
}

impl PartialOrd for Efficiency {
    /// Efficiencies are ordered as their counts are.
    fn partial_cmp(&self, other: &Efficiency) -> (r: Option<Ordering>) {
        if self.0 < other.0 {
            Some(Ordering::Less)
        } else if self.0 > other.0 {
            Some(Ordering::Greater)
        } else {
            Some(Ordering::Equal)
        }
    }
}

/// The square root of a fraction, as a fraction, rounded up.
pub open spec fn spec_root(fraction: int) -> int {
    crate::fixed::spec_ceil_sqrt(fraction * SCALE)
}

/// The square root of an admissible efficiency is an admissible efficiency
/// that is no smaller.
pub proof fn lemma_root_is_fraction(fraction: int)
    requires
        spec_is_fraction(fraction),
    ensures
        fraction * SCALE <= SCALE * SCALE,
        crate::fixed::spec_is_ceil_sqrt(fraction * SCALE, spec_root(fraction)),
        spec_is_fraction(spec_root(fraction)),
        fraction <= spec_root(fraction),
        10_000_000 < spec_root(fraction),
{
    let n = fraction * SCALE;
    assert(100 * SCALE < n <= SCALE * SCALE) by (nonlinear_arith)
        requires
            n == fraction * SCALE,
            100 < fraction <= SCALE,
            SCALE > 0,
    ;
    let s = SCALE as int;
    assert(crate::fixed::spec_is_ceil_sqrt(n, s) || exists|r: int| crate::fixed::spec_is_ceil_sqrt(n, r)) by {
        lemma_root_exists(n, s);
    }
    let r = spec_root(fraction);
    assert(crate::fixed::spec_is_ceil_sqrt(n, r));
    assert(r <= s) by (nonlinear_arith)
        requires
            r > 0 ==> (r - 1) * (r - 1) < n,
            n <= s * s,
            s > 0,
            r >= 0,
    {
        if r > s {
            assert((r - 1) * (r - 1) >= s * s);
        }
    }
    assert(r > 10_000_000) by (nonlinear_arith)
        requires
            r * r >= n,
            n > 100 * 1_000_000_000_000,
            r >= 0,
    {
        if r <= 10_000_000 {
            assert(r * r <= 10_000_000 * 10_000_000);
        }
    }
    assert(fraction <= r) by (nonlinear_arith)
        requires
            r * r >= fraction * s,
            0 < r <= s,
            fraction > 0,
    {
        if fraction > r {
            assert(fraction * s > r * s);
            assert(r * s >= r * r);
        }
    }
}

/// Every non-negative number below a square has a rounded-up square root.
proof fn lemma_root_exists(n: int, bound: int)
    requires
        0 <= n <= bound * bound,
        bound >= 0,
    ensures
        exists|r: int| crate::fixed::spec_is_ceil_sqrt(n, r),
    decreases bound,
{
    if bound == 0 {
        assert(crate::fixed::spec_is_ceil_sqrt(n, 0));
    } else if (bound - 1) * (bound - 1) < n {
        assert(crate::fixed::spec_is_ceil_sqrt(n, bound));
    } else {
        lemma_root_exists(n, bound - 1);
    }
}

/// Readings that can be taken as an efficiency, as a fraction or in percent.
pub trait AsEfficiency: Sized {
    /// The reading as a raw scalar.
    spec fn as_scalar(self) -> Scalar;

    /// Takes the reading as a fraction of one; it must be a valid efficiency.
    fn fraction(self) -> (r: Efficiency)
        requires
            Efficiency::spec_accepts(self.as_scalar()) is Some,
        ensures
            Some(r@) == Efficiency::spec_accepts(self.as_scalar()),
    ;

    /// Takes the reading as a percentage; a hundredth of it must be a valid efficiency.
    fn percent(self) -> (r: Efficiency)
        requires
            Efficiency::spec_accepts(self.as_scalar().spec_over(100)) is Some,
        ensures
            Some(r@) == Efficiency::spec_accepts(self.as_scalar().spec_over(100)),
    ;
}

impl AsEfficiency for Scalar {
    open spec fn as_scalar(self) -> Scalar {
        self
    }

    fn fraction(self) -> (r: Efficiency) {
        match Efficiency::from_fraction(self) {
            Ok(e) => e,
            Err(_) => Efficiency(1_000_000_000_000),
        }
    }

    fn percent(self) -> (r: Efficiency) {
        match Efficiency::from_fraction(self.over(100)) {
            Ok(e) => e,
            Err(_) => Efficiency(1_000_000_000_000),
        }
    }
}

/* --------------- UNIT CONVERSIONS ------------------- */

impl MulSpecImpl<Duration> for Power {
    open spec fn obeys_mul_spec() -> bool {
        true
    }

    open spec fn mul_req(self, rhs: Duration) -> bool {
        spec_in_range(spec_times(self@, rhs@))
    }

    closed spec fn mul_spec(self, rhs: Duration) -> Energy {
        Energy((spec_times(self.0 as int, rhs.0 as int)) as i64)
    }
}

impl Mul<Duration> for Power {
    type Output = Energy;

    /// Power sustained over a duration is an energy, which must be within the magnitude bound.
    fn mul(self, rhs: Duration) -> (r: Energy)
        ensures
            r@ == spec_times(self@, rhs@),
    {
        proof {
            use_type_invariant(self);
            use_type_invariant(rhs);
        }
        proof {
            lemma_product_fits(self.0 as int, rhs.0 as int);
        }
        let units: i128 = scale(self.0 as i128, rhs.0 as u64, SCALE);
        Energy(units as i64)
    }
}

impl MulSpecImpl<Power> for Duration {
    open spec fn obeys_mul_spec() -> bool {
        true
    }

    open spec fn mul_req(self, rhs: Power) -> bool {
        spec_in_range(spec_times(rhs@, self@))
    }

    closed spec fn mul_spec(self, rhs: Power) -> Energy {
        Energy((spec_times(rhs.0 as int, self.0 as int)) as i64)
    }
}

impl Mul<Power> for Duration {
    type Output = Energy;

    /// A duration of sustained power is an energy, which must be within the magnitude bound.
    fn mul(self, rhs: Power) -> (r: Energy)
        ensures
            r@ == spec_times(rhs@, self@),
    {
        proof {
            use_type_invariant(self);
            use_type_invariant(rhs);
        }
        proof {
            lemma_product_fits(rhs.0 as int, self.0 as int);
        }
        let units: i128 = scale(rhs.0 as i128, self.0 as u64, SCALE);
        Energy(units as i64)
    }
}

impl DivSpecImpl<Duration> for Energy {
    open spec fn obeys_div_spec() -> bool {
        true
    }

    open spec fn div_req(self, rhs: Duration) -> bool {
        spec_in_range(spec_over(self@, rhs@))
    }

    closed spec fn div_spec(self, rhs: Duration) -> Power {
        Power((spec_over(self.0 as int, rhs.0 as int)) as i64)
    }
}

impl Div<Duration> for Energy {
    type Output = Power;

    /// Energy spread over a duration is a power, which must be within the magnitude bound.
    fn div(self, rhs: Duration) -> (r: Power)
        ensures
            r@ == spec_over(self@, rhs@),
    {
        proof {
            use_type_invariant(self);
            use_type_invariant(rhs);
        }
        proof {
            lemma_product_fits(self.0 as int, SCALE as int);
        }
        let units: i128 = scale(self.0 as i128, SCALE, rhs.0 as u64);
        Power(units as i64)
    }
}

impl DivSpecImpl<Efficiency> for Power {
    open spec fn obeys_div_spec() -> bool {
        true
    }

    open spec fn div_req(self, rhs: Efficiency) -> bool {
        spec_in_range(spec_over(self@, rhs@))
    }

    closed spec fn div_spec(self, rhs: Efficiency) -> Power {
        Power((spec_over(self.0 as int, rhs.0 as int)) as i64)
    }
}

impl Div<Efficiency> for Power {
    type Output = Power;

    /// The power before losses, which must be within the magnitude bound.
    fn div(self, rhs: Efficiency) -> (r: Power)
        ensures
            r@ == spec_over(self@, rhs@),
    {
        proof {
            use_type_invariant(self);
            use_type_invariant(rhs);
        }
        proof {
            lemma_product_fits(self.0 as int, SCALE as int);
        }
        let units: i128 = scale(self.0 as i128, SCALE, rhs.0 as u64);
        Power(units as i64)
    }
}

impl MulSpecImpl<Efficiency> for Power {
    open spec fn obeys_mul_spec() -> bool {
        true
    }

    open spec fn mul_req(self, rhs: Efficiency) -> bool {
        true
    }

    closed spec fn mul_spec(self, rhs: Efficiency) -> Power {
        Power((spec_times(self.0 as int, rhs.0 as int)) as i64)
    }
}

impl Mul<Efficiency> for Power {
    type Output = Power;

    /// The power after losses.
    fn mul(self, rhs: Efficiency) -> (r: Power)
        ensures
            r@ == spec_times(self@, rhs@),
    {
        proof {
            use_type_invariant(self);
            use_type_invariant(rhs);
        }
        proof {
            lemma_product_fits(self.0 as int, rhs.0 as int);
            crate::fixed::lemma_scale_shrinks(self.0 as int, rhs.0 as int, SCALE as int);
        }
        let units: i128 = scale(self.0 as i128, rhs.0 as u64, SCALE);
        Power(units as i64)
    }
}

impl MulSpecImpl<Power> for Efficiency {
    open spec fn obeys_mul_spec() -> bool {
        true
    }

    open spec fn mul_req(self, rhs: Power) -> bool {
        true
    }

    closed spec fn mul_spec(self, rhs: Power) -> Power {
        Power((spec_times(rhs.0 as int, self.0 as int)) as i64)
    }
}

impl Mul<Power> for Efficiency {
    type Output = Power;

    /// The power after losses.
    fn mul(self, rhs: Power) -> (r: Power)
        ensures
            r@ == spec_times(rhs@, self@),
    {
        proof {
            use_type_invariant(self);
            use_type_invariant(rhs);
        }
        proof {
            lemma_product_fits(rhs.0 as int, self.0 as int);
            crate::fixed::lemma_scale_shrinks(rhs.0 as int, self.0 as int, SCALE as int);
        }
        let units: i128 = scale(rhs.0 as i128, self.0 as u64, SCALE);
        Power(units as i64)
    }
}

impl DivSpecImpl<Efficiency> for Energy {
    open spec fn obeys_div_spec() -> bool {
        true
    }

    open spec fn div_req(self, rhs: Efficiency) -> bool {
        spec_in_range(spec_over(self@, rhs@))
    }

    closed spec fn div_spec(self, rhs: Efficiency) -> Energy {
        Energy((spec_over(self.0 as int, rhs.0 as int)) as i64)
    }
}

impl Div<Efficiency> for Energy {
    type Output = Energy;

    /// The energy before losses, which must be within the magnitude bound.
    fn div(self, rhs: Efficiency) -> (r: Energy)
        ensures
            r@ == spec_over(self@, rhs@),
    {
        proof {
            use_type_invariant(self);
            use_type_invariant(rhs);
        }
        proof {
            lemma_product_fits(self.0 as int, SCALE as int);
        }
        let units: i128 = scale(self.0 as i128, SCALE, rhs.0 as u64);
        Energy(units as i64)
    }
}

impl MulSpecImpl<Efficiency> for Energy {
    open spec fn obeys_mul_spec() -> bool {
        true
    }

    open spec fn mul_req(self, rhs: Efficiency) -> bool {
        true
    }

    closed spec fn mul_spec(self, rhs: Efficiency) -> Energy {
        Energy((spec_times(self.0 as int, rhs.0 as int)) as i64)
    }
}

impl Mul<Efficiency> for Energy {
    type Output = Energy;

    /// The energy after losses.
    fn mul(self, rhs: Efficiency) -> (r: Energy)
        ensures
            r@ == spec_times(self@, rhs@),
    {
        proof {
            use_type_invariant(self);
            use_type_invariant(rhs);
        }
        proof {
            lemma_product_fits(self.0 as int, rhs.0 as int);
            crate::fixed::lemma_scale_shrinks(self.0 as int, rhs.0 as int, SCALE as int);
        }
        let units: i128 = scale(self.0 as i128, rhs.0 as u64, SCALE);
        Energy(units as i64)
    }
}

impl MulSpecImpl<Energy> for Efficiency {
    open spec fn obeys_mul_spec() -> bool {
        true
    }

    open spec fn mul_req(self, rhs: Energy) -> bool {
        true
    }

    closed spec fn mul_spec(self, rhs: Energy) -> Energy {
        Energy((spec_times(rhs.0 as int, self.0 as int)) as i64)
    }
}

impl Mul<Energy> for Efficiency {
    type Output = Energy;

    /// The energy after losses.
    fn mul(self, rhs: Energy) -> (r: Energy)
        ensures
            r@ == spec_times(rhs@, self@),
    {
        proof {
            use_type_invariant(self);
            use_type_invariant(rhs);
        }
        proof {
            lemma_product_fits(rhs.0 as int, self.0 as int);
            crate::fixed::lemma_scale_shrinks(rhs.0 as int, self.0 as int, SCALE as int);
        }
        let units: i128 = scale(rhs.0 as i128, self.0 as u64, SCALE);
        Energy(units as i64)
    }
}

/* --------------- TELEMETRY ------------------- */

/// One telemetry sample: how long it lasted, and the generation and
/// consumption observed over it.
#[derive(Debug, Clone, Copy)]
pub struct TelemetryPoint {
    duration: Duration,
    solar_power: Power,
    load_power: Power,
}

/// What a telemetry sample holds, in counts of `10^-12`.
pub ghost struct TelemetryView {
    pub duration: int,
    pub solar_power: int,
    pub load_power: int,
}

impl TelemetryView {
    /// Generation minus consumption: the power the battery is asked to take.
    pub open spec fn excess_pv(self) -> int {
        self.solar_power - self.load_power
    }
}

impl View for TelemetryPoint {
    type V = TelemetryView;

    closed spec fn view(&self) -> TelemetryView {
        TelemetryView {
            duration: self.duration@,
            solar_power: self.solar_power@,
            load_power: self.load_power@,
        }
    }
}

impl TelemetryPoint {
    /// A sample of the given duration, generation and consumption.
    pub fn new(duration: Duration, solar_power: Power, load_power: Power) -> (r: Self)
        ensures
            r@ == (TelemetryView {
                duration: duration@,
                solar_power: solar_power@,
                load_power: load_power@,
            }),
    {
        TelemetryPoint { duration, solar_power, load_power }
    }

    /// How long the sample lasted.
    pub fn duration(&self) -> (r: Duration)
        ensures
            r@ == self@.duration,
    {
        self.duration
    }

    /// The generation observed.
    pub fn solar_power(&self) -> (r: Power)
        ensures
            r@ == self@.solar_power,
    {
        self.solar_power
    }

    /// The consumption observed.
    pub fn load_power(&self) -> (r: Power)
        ensures
            r@ == self@.load_power,
    {
        self.load_power
    }

    /// Generation minus consumption, which must be within the magnitude bound.
    pub fn excess_pv(&self) -> (r: Power)
        requires
            spec_in_range(self@.excess_pv()),
        ensures
            r@ == self@.excess_pv(),
    {
        self.solar_power - self.load_power
    }
}

} // verus!
