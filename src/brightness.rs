//! Brightness of one display over its control bus, in percent of the
//! display's maximum, with the maximum queried once and then kept.

use vstd::prelude::*;

verus! {

/// The control code of the brightness feature.
pub const BRIGHTNESS_CODE: u8 = 0x10;

/// A feature's current raw value and its maximum.
#[derive(Debug, Clone, Copy, PartialEq, Eq, Structural)]
pub struct FeatureValue {
    pub value: u16,
    pub maximum: u16,
}

/// A failed bus transaction.
#[derive(Debug, Clone, Copy, PartialEq, Eq, Structural)]
pub struct HardwareError;

/// The command bus of one display.
pub trait Transport {
    /// Reads a feature's value and maximum.
    fn get_feature(&mut self, code: u8) -> Result<FeatureValue, HardwareError>;

    /// Writes a feature's raw value.
    fn set_feature(&mut self, code: u8, value: u16) -> Result<(), HardwareError>;

    /// Reads the 128-byte identification block.
    fn read_identity_block(&mut self) -> Result<Vec<u8>, HardwareError>;
}

/// A brightness as a fraction `num / den` of the display's maximum.
#[derive(Debug, Clone, Copy, PartialEq, Eq, Structural)]
pub struct Fraction {
    pub num: u16,
    pub den: u16,
}

/// The raw value for `percent` of `max`: `percent * max / 100`, rounded
/// down, and no more than the largest raw value.
pub open spec fn raw_level(percent: u16, max: u16) -> u16 {
    let v = percent as int * max as int / 100;
    if v > u16::MAX as int {
        u16::MAX
    } else {
        v as u16
    }
}

/// Computes [`raw_level`].
pub fn to_raw(percent: u16, max: u16) -> (r: u16)
    ensures
        r == raw_level(percent, max),
{
    assert(percent as int * max as int <= 65535 * 65535) by (nonlinear_arith)
        requires
            percent <= 65535,
            max <= 65535,
    ;
    let v: u32 = percent as u32 * max as u32 / 100;
    if v > u16::MAX as u32 {
        u16::MAX
    } else {
        v as u16
    }
}

/// The cache and the result of asking for the maximum, where a query
/// would answer `answer`: a cached maximum is returned as it is; otherwise
/// the answer's maximum is returned and cached, and a failed query is
/// returned and caches nothing.
pub open spec fn settled_max(cached: Option<u16>, answer: Result<FeatureValue, HardwareError>) -> (Option<u16>, Result<u16, HardwareError>) {
    match cached {
        Some(m) => (Some(m), Ok(m)),
        None => match answer {
            Ok(v) => (Some(v.maximum), Ok(v.maximum)),
            Err(e) => (None, Err(e)),
        },
    }
}

/// Computes [`settled_max`].
pub fn settle_max(cached: Option<u16>, answer: Result<FeatureValue, HardwareError>) -> (r: (Option<u16>, Result<u16, HardwareError>))
    ensures
        r == settled_max(cached, answer),
{
    match cached {
        Some(m) => (Some(m), Ok(m)),
        None => match answer {
            Ok(v) => (Some(v.maximum), Ok(v.maximum)),
            Err(e) => (None, Err(e)),
        },
    }
}

/// The brightness from the answer to a value query and the result of
/// asking for the maximum: the value over the maximum, or the first error.
pub open spec fn fraction_from(value: Result<FeatureValue, HardwareError>, max: Result<u16, HardwareError>) -> Result<Fraction, HardwareError> {
    match value {
        Err(e) => Err(e),
        Ok(v) => match max {
            Err(e) => Err(e),
            Ok(m) => Ok(Fraction { num: v.value, den: m }),
        },
    }
}

/// Computes [`fraction_from`].
pub fn to_fraction(value: Result<FeatureValue, HardwareError>, max: Result<u16, HardwareError>) -> (r: Result<Fraction, HardwareError>)
    ensures
        r == fraction_from(value, max),
{
    match value {
        Err(e) => Err(e),
        Ok(v) => match max {
            Err(e) => Err(e),
            Ok(m) => Ok(Fraction { num: v.value, den: m }),
        },
    }
}

/// What asking for the maximum may do, from the cache `before` to `after`:
/// it is [`settled_max`] for some answer of the display.
pub open spec fn max_outcome(before: Option<u16>, after: Option<u16>, r: Result<u16, HardwareError>) -> bool {
    exists|a: Result<FeatureValue, HardwareError>| #[trigger] settled_max(before, a) == (after, r)
}

/// What a call of [`Device::set_level`] may do, from the cached maximum
/// `before` to `after`: the maximum is settled as [`settled_max`] says for
/// some answer; a failure there is returned with nothing written; and a
/// success wrote the raw value for `percent` of that maximum.
pub open spec fn set_level_outcome(before: Option<u16>, after: Option<u16>, percent: u16, r: Result<u16, HardwareError>) -> bool {
    exists|a: Result<FeatureValue, HardwareError>|
        {
            &&& #[trigger] settled_max(before, a).0 == after
            &&& match settled_max(before, a).1 {
                Err(e) => r == Err::<u16, HardwareError>(e),
                Ok(m) => r is Ok ==> r->Ok_0 == raw_level(percent, m),
            }
        }
}

/// What a call of [`Device::brightness`] may do: for some answer to the
/// value query, either that query failed and is returned with the cache
/// untouched, or the maximum is settled for some answer and the result is
/// [`fraction_from`] the two.
pub open spec fn brightness_outcome(before: Option<u16>, after: Option<u16>, r: Result<Fraction, HardwareError>) -> bool {
    exists|a: Result<FeatureValue, HardwareError>, b: Result<FeatureValue, HardwareError>|
        {
            &&& #[trigger] fraction_from(a, settled_max(before, b).1) == r
            &&& a is Err ==> after == before
            &&& a is Ok ==> after == settled_max(before, b).0
        }
}

/// One display: a name for messages, its bus, and its maximum raw
/// brightness once known.
pub struct Device<T: Transport> {
    name: String,
    inner: T,
    max: Option<u16>,
}

impl<T: Transport> Device<T> {
    /// A display whose maximum is not known yet.
    pub fn new(name: String, inner: T) -> (r: Device<T>)
        ensures
            r.cached_max() is None,
            r.name_spec()@ == name@,
    {
        Device { name, inner, max: None }
    }

    pub closed spec fn cached_max(&self) -> Option<u16> {
        self.max
    }

    pub fn name(&self) -> (r: &String)
        ensures
            r == self.name_spec(),
    {
        &self.name
    }

    pub closed spec fn name_spec(&self) -> &String {
        &self.name
    }

    /// The maximum raw brightness: from the cache, or queried once and
    /// then cached. A failed query is returned and caches nothing.
    pub fn max_brightness(&mut self) -> (r: Result<u16, HardwareError>)
        ensures
            old(self).cached_max() is Some ==> r == Ok::<u16, HardwareError>(old(self).cached_max()->Some_0),
            old(self).cached_max() is Some ==> final(self).cached_max() == old(self).cached_max(),
            max_outcome(old(self).cached_max(), final(self).cached_max(), r),
            final(self).name_spec() == old(self).name_spec(),
    {
        if let Some(m) = self.max {
            assert(settled_max(self.max, Err(HardwareError)) == (self.max, Ok::<u16, HardwareError>(m)));
            return Ok(m);
        }
        let answer = self.inner.get_feature(BRIGHTNESS_CODE);
        let (m, r) = settle_max(self.max, answer);
        self.max = m;
        r
    }

    /// The current brightness as a fraction of the maximum.
    pub fn brightness(&mut self) -> (r: Result<Fraction, HardwareError>)
        ensures
            brightness_outcome(old(self).cached_max(), final(self).cached_max(), r),
            old(self).cached_max() is Some ==> final(self).cached_max() == old(self).cached_max(),
            r is Ok ==> final(self).cached_max() == Some(r->Ok_0.den),
            final(self).name_spec() == old(self).name_spec(),
    {
        let value = self.inner.get_feature(BRIGHTNESS_CODE);
        if let Err(e) = value {
            let ghost b: Result<FeatureValue, HardwareError> = Err(HardwareError);
            assert(fraction_from(value, settled_max(self.max, b).1) == Err::<Fraction, HardwareError>(e));
            return Err(e);
        }
        let ghost before = self.max;
        let max = self.max_brightness();
        let ghost b = choose|b: Result<FeatureValue, HardwareError>| #[trigger] settled_max(before, b) == (self.max, max);
        let r = to_fraction(value, max);
        assert(fraction_from(value, settled_max(before, b).1) == r);
        r
    }

    /// Sets the brightness to `percent` of the maximum and returns the raw
    /// value written. The same percentage always writes the same raw value.
    pub fn set_level(&mut self, percent: u16) -> (r: Result<u16, HardwareError>)
        ensures
            set_level_outcome(old(self).cached_max(), final(self).cached_max(), percent, r),
            final(self).name_spec() == old(self).name_spec(),
    {
        let ghost before = self.max;
        let queried = self.max_brightness();
        let ghost a = choose|a: Result<FeatureValue, HardwareError>| #[trigger] settled_max(before, a) == (self.max, queried);
        assert(settled_max(before, a).0 == self.max);
        let max = match queried {
            Ok(m) => m,
            Err(e) => {
                return Err(e);
            },
        };
        let raw = to_raw(percent, max);
        match self.inner.set_feature(BRIGHTNESS_CODE, raw) {
            Ok(()) => Ok(raw),
            Err(e) => Err(e),
        }
    }

    /// Succeeds where the display answers a brightness query.
    pub fn try_brightness(&mut self) -> (r: Result<(), HardwareError>)
        ensures
            final(self).cached_max() == old(self).cached_max(),
            final(self).name_spec() == old(self).name_spec(),
    {
        match self.inner.get_feature(BRIGHTNESS_CODE) {
            Ok(_) => Ok(()),
            Err(e) => Err(e),
        }
    }

    /// Reads the display's identification block.
    pub fn identity_block(&mut self) -> (r: Result<Vec<u8>, HardwareError>)
        ensures
            final(self).cached_max() == old(self).cached_max(),
            final(self).name_spec() == old(self).name_spec(),
    {
        self.inner.read_identity_block()
    }
}

/// Two successful settings to one percentage write the same raw value,
/// whatever the cache held before the first.
pub proof fn lemma_set_level_idempotent(
    m0: Option<u16>,
    m1: Option<u16>,
    m2: Option<u16>,
    percent: u16,
    r1: Result<u16, HardwareError>,
    r2: Result<u16, HardwareError>,
)
    requires
        set_level_outcome(m0, m1, percent, r1),
        set_level_outcome(m1, m2, percent, r2),
        r1 is Ok,
        r2 is Ok,
    ensures
        r1->Ok_0 == r2->Ok_0,
        m2 == m1,
{
}

} // verus!
