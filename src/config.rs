//! Brightness rules: per-display options resolved against the global
//! defaults into an ordered list in which the first matching rule wins.

use vstd::prelude::*;
use vstd::string::*;

use crate::matcher::{DeviceMatcher, MatcherView, Pattern, is_wildcard};

verus! {

/// Why the options could not be resolved into rules.
#[derive(Debug, Clone, Copy, PartialEq, Eq, Structural)]
pub enum ConfigError {
    /// A rule has no day brightness and there is no global one.
    MissingDayBrightness,
    /// A rule has no night brightness and there is no global one.
    MissingNightBrightness,
    /// A percentage that is not a whole number.
    NotANumber,
    /// A percentage under the minimum of 5.
    BelowMinimum,
    /// A percentage over 100.
    AboveMaximum,
}

/// Global brightness percentages, used by rules that give none.
#[derive(Debug, Clone, Copy, PartialEq, Eq, Structural)]
pub struct BrightnessOpts {
    pub day_brightness: Option<u16>,
    pub night_brightness: Option<u16>,
}

/// One display rule as configured: what it matches and its optional
/// brightness overrides, in percent.
#[derive(Debug)]
pub struct DeviceOpts {
    pub model: Option<Pattern>,
    pub manufacturer_id: Option<Pattern>,
    pub serial: Option<String>,
    pub day_brightness: Option<u16>,
    pub night_brightness: Option<u16>,
}

/// Matcher, day override and night override.
pub type DeviceOptsView = (MatcherView, Option<u16>, Option<u16>);

impl View for DeviceOpts {
    type V = DeviceOptsView;

    open spec fn view(&self) -> DeviceOptsView {
        (
            (
                crate::matcher::pattern_view(self.model),
                crate::matcher::pattern_view(self.manufacturer_id),
                match self.serial {
                    Some(s) => Some(s@),
                    None => None,
                },
            ),
            self.day_brightness,
            self.night_brightness,
        )
    }
}

impl DeviceOpts {
    /// A rule on the given patterns and serial number, without overrides.
    pub fn new(model: Option<Pattern>, manufacturer_id: Option<Pattern>, serial: Option<String>) -> (r: DeviceOpts)
        ensures
            r@.0 == (crate::matcher::pattern_view(model), crate::matcher::pattern_view(manufacturer_id), match serial {
                Some(s) => Some(s@),
                None => None::<Seq<char>>,
            }),
            r@.1 is None,
            r@.2 is None,
    {
        DeviceOpts { model, manufacturer_id, serial, day_brightness: None, night_brightness: None }
    }
}

/// A resolved rule: what it matches and its day and night brightness in
/// percent of the display's maximum.
#[derive(Debug)]
pub struct DeviceConfig {
    pub matcher: DeviceMatcher,
    pub day_brightness: u16,
    pub night_brightness: u16,
}

/// Matcher, day percentage and night percentage.
pub type DeviceConfigView = (MatcherView, u16, u16);

impl View for DeviceConfig {
    type V = DeviceConfigView;

    open spec fn view(&self) -> DeviceConfigView {
        (self.matcher@, self.day_brightness, self.night_brightness)
    }
}

/// A rule's options resolved against the defaults: an override wins, the
/// default fills in, and the day value is looked at first.
pub open spec fn resolve(o: DeviceOptsView, d: BrightnessOpts) -> Result<DeviceConfigView, ConfigError> {
    let day = if o.1 is Some { o.1 } else { d.day_brightness };
    let night = if o.2 is Some { o.2 } else { d.night_brightness };
    if day is None {
        Err(ConfigError::MissingDayBrightness)
    } else if night is None {
        Err(ConfigError::MissingNightBrightness)
    } else {
        Ok((o.0, day->Some_0, night->Some_0))
    }
}

/// The first error among the first `n` rules.
pub open spec fn first_error(opts: Seq<DeviceOptsView>, d: BrightnessOpts, n: nat) -> Option<ConfigError>
    decreases n,
{
    if n == 0 || n > opts.len() {
        None
    } else {
        match first_error(opts, d, (n - 1) as nat) {
            Some(e) => Some(e),
            None => match resolve(opts[n - 1], d) {
                Err(e) => Some(e),
                Ok(_) => None,
            },
        }
    }
}

/// Whether a catch-all rule goes at the end: always when there are no
/// rules, and otherwise unless only the listed displays are to be managed.
pub open spec fn needs_catch_all(n_rules: nat, exclusive: bool) -> bool {
    !exclusive || n_rules == 0
}

/// The outcome of resolving a rule list; on success the rules in order,
/// followed where needed by a catch-all rule with the defaults.
pub open spec fn configs_of(opts: Seq<DeviceOptsView>, d: BrightnessOpts, exclusive: bool) -> Result<Seq<DeviceConfigView>, ConfigError> {
    match first_error(opts, d, opts.len()) {
        Some(e) => Err(e),
        None => if !needs_catch_all(opts.len(), exclusive) {
            Ok(opts.map_values(|o: DeviceOptsView| resolve(o, d)->Ok_0))
        } else if d.day_brightness is None {
            Err(ConfigError::MissingDayBrightness)
        } else if d.night_brightness is None {
            Err(ConfigError::MissingNightBrightness)
        } else {
            Ok(opts.map_values(|o: DeviceOptsView| resolve(o, d)->Ok_0).push(
                ((None, None, None), d.day_brightness->Some_0, d.night_brightness->Some_0),
            ))
        },
    }
}

impl DeviceConfig {
    /// Resolves one rule's options against the defaults.
    pub fn try_from_opts(opts: DeviceOpts, defaults: &BrightnessOpts) -> (r: Result<DeviceConfig, ConfigError>)
        ensures
            match r {
                Ok(c) => resolve(opts@, *defaults) == Ok::<DeviceConfigView, ConfigError>(c@),
                Err(e) => resolve(opts@, *defaults) == Err::<DeviceConfigView, ConfigError>(e),
            },
    {
        let day = match opts.day_brightness {
            Some(v) => v,
            None => match defaults.day_brightness {
                Some(v) => v,
                None => {
                    return Err(ConfigError::MissingDayBrightness);
                },
            },
        };
        let night = match opts.night_brightness {
            Some(v) => v,
            None => match defaults.night_brightness {
                Some(v) => v,
                None => {
                    return Err(ConfigError::MissingNightBrightness);
                },
            },
        };
        let matcher = DeviceMatcher { model: opts.model, mfg: opts.manufacturer_id, serial: opts.serial };
        Ok(DeviceConfig { matcher, day_brightness: day, night_brightness: night })
    }

    /// The catch-all rule with the default percentages.
    pub fn catch_all(defaults: &BrightnessOpts) -> (r: Result<DeviceConfig, ConfigError>)
        ensures
            defaults.day_brightness is None ==> r == Err::<DeviceConfig, ConfigError>(ConfigError::MissingDayBrightness),
            defaults.day_brightness is Some && defaults.night_brightness is None ==> r == Err::<
                DeviceConfig,
                ConfigError,
            >(ConfigError::MissingNightBrightness),
            defaults.day_brightness is Some && defaults.night_brightness is Some ==> r is Ok && r->Ok_0@ == (
                (None::<Seq<char>>, None::<Seq<char>>, None::<Seq<char>>),
                defaults.day_brightness->Some_0,
                defaults.night_brightness->Some_0,
            ),
    {
        let day = match defaults.day_brightness {
            Some(v) => v,
            None => {
                return Err(ConfigError::MissingDayBrightness);
            },
        };
        let night = match defaults.night_brightness {
            Some(v) => v,
            None => {
                return Err(ConfigError::MissingNightBrightness);
            },
        };
        Ok(DeviceConfig { matcher: DeviceMatcher::any(), day_brightness: day, night_brightness: night })
    }
}

pub open spec fn views_of(v: Seq<DeviceConfig>) -> Seq<DeviceConfigView> {
    v.map_values(|c: DeviceConfig| c@)
}

pub open spec fn opts_views(v: Seq<DeviceOpts>) -> Seq<DeviceOptsView> {
    v.map_values(|o: DeviceOpts| o@)
}

/// Resolves the configured rules, in order, and appends the catch-all rule
/// where [`needs_catch_all`] asks for it.
pub fn device_configs(defaults: &BrightnessOpts, devices: Vec<DeviceOpts>, exclusive: bool) -> (r: Result<Vec<DeviceConfig>, ConfigError>)
    ensures
        match r {
            Ok(v) => configs_of(opts_views(devices@), *defaults, exclusive) == Ok::<Seq<DeviceConfigView>, ConfigError>(views_of(v@)),
            Err(e) => configs_of(opts_views(devices@), *defaults, exclusive) == Err::<Seq<DeviceConfigView>, ConfigError>(e),
        },
{
    let ghost all = opts_views(devices@);
    let n = devices.len();
    let mut rest = devices;
    let mut out: Vec<DeviceConfig> = Vec::new();
    let mut i: usize = 0;
    while i < n
        invariant
            i <= n,
            all.len() == n,
            all == opts_views(devices@),
            out@.len() == i,
            rest@.len() == n - i,
            opts_views(rest@) == all.subrange(i as int, n as int),
            first_error(all, *defaults, i as nat) is None,
            views_of(out@) == all.subrange(0, i as int).map_values(|o: DeviceOptsView| resolve(o, *defaults)->Ok_0),
        decreases n - i,
    {
        let ghost before = rest@;
        assert(opts_views(before)[0] == all[i as int]);
        let o = rest.remove(0);
        assert(o@ == all[i as int]);
        assert(opts_views(rest@) =~= all.subrange(i + 1, n as int)) by {
            assert forall|k: int| 0 <= k < rest@.len() implies opts_views(rest@)[k] == all[i + 1 + k] by {
                assert(rest@[k] == before[k + 1]);
                assert(opts_views(before)[k + 1] == all[i + 1 + k]);
            }
        }
        match DeviceConfig::try_from_opts(o, defaults) {
            Ok(c) => {
                let ghost prev = out@;
                out.push(c);
                assert forall|k: int| 0 <= k < i + 1 implies #[trigger] views_of(out@)[k] == resolve(
                    all[k],
                    *defaults,
                )->Ok_0 by {
                    if k < i {
                        assert(out@[k] == prev[k]);
                        assert(views_of(prev)[k] == all.subrange(0, i as int).map_values(
                            |o: DeviceOptsView| resolve(o, *defaults)->Ok_0,
                        )[k]);
                    }
                }
                assert(views_of(out@) =~= all.subrange(0, i + 1).map_values(
                    |o: DeviceOptsView| resolve(o, *defaults)->Ok_0,
                ));
            },
            Err(e) => {
                assert(first_error(all, *defaults, (i + 1) as nat) == Some(e));
                proof {
                    lemma_first_error_sticks(all, *defaults, (i + 1) as nat, n as nat);
                }
                return Err(e);
            },
        }
        i = i + 1;
    }
    assert(all.subrange(0, n as int) =~= all);
    if exclusive && n > 0 {
        return Ok(out);
    }
    match DeviceConfig::catch_all(defaults) {
        Ok(c) => {
            out.push(c);
            assert(views_of(out@) =~= all.map_values(|o: DeviceOptsView| resolve(o, *defaults)->Ok_0).push(
                ((None, None, None), defaults.day_brightness->Some_0, defaults.night_brightness->Some_0),
            ));
            Ok(out)
        },
        Err(e) => Err(e),
    }
}

/// Once an error is found among the first `m` rules, it stays the first.
proof fn lemma_first_error_sticks(opts: Seq<DeviceOptsView>, d: BrightnessOpts, m: nat, n: nat)
    requires
        m <= n <= opts.len(),
        first_error(opts, d, m) is Some,
    ensures
        first_error(opts, d, n) == first_error(opts, d, m),
    decreases n - m,
{
    if n > m {
        lemma_first_error_sticks(opts, d, m, (n - 1) as nat);
    }
}

pub open spec fn is_digit(c: char) -> bool {
    '0' <= c && c <= '9'
}

pub open spec fn digit_value(c: char) -> int {
    c as u32 as int - '0' as u32 as int
}

/// The number that a run of decimal digits writes.
pub open spec fn digits_value(s: Seq<char>) -> int
    decreases s.len(),
{
    if s.len() == 0 {
        0
    } else {
        digits_value(s.drop_last()) * 10 + digit_value(s.last())
    }
}

pub open spec fn all_digits(s: Seq<char>) -> bool {
    forall|i: int| 0 <= i < s.len() ==> is_digit(#[trigger] s[i])
}

/// The text after an optional leading plus sign.
pub open spec fn unsigned_part(s: Seq<char>) -> Seq<char> {
    if s.len() > 0 && s[0] == '+' {
        s.drop_first()
    } else {
        s
    }
}

/// The `u16` that a text writes in decimal: an optional plus sign, then one
/// or more digits, with a value that fits.
pub open spec fn u16_of(s: Seq<char>) -> Option<u16> {
    let d = unsigned_part(s);
    if d.len() > 0 && all_digits(d) && digits_value(d) <= u16::MAX as int {
        Some(digits_value(d) as u16)
    } else {
        None
    }
}

proof fn lemma_prefix_value_nonneg(s: Seq<char>, k: int)
    requires
        0 <= k <= s.len(),
        all_digits(s),
    ensures
        digits_value(s.subrange(0, k)) >= 0,
    decreases k,
{
    if k > 0 {
        lemma_prefix_value_nonneg(s, k - 1);
        assert(s.subrange(0, k).drop_last() =~= s.subrange(0, k - 1));
        assert(is_digit(s[k - 1]));
    }
}

proof fn lemma_digits_value_grows(s: Seq<char>, j: int, k: int)
    requires
        0 <= j <= k <= s.len(),
        all_digits(s),
    ensures
        digits_value(s.subrange(0, j)) <= digits_value(s.subrange(0, k)),
    decreases k - j,
{
    if j < k {
        lemma_digits_value_grows(s, j, k - 1);
        lemma_prefix_value_nonneg(s, k - 1);
        assert(s.subrange(0, k).drop_last() =~= s.subrange(0, k - 1));
        assert(is_digit(s[k - 1]));
    }
}

/// Reads a `u16` written in decimal, as `str::parse` does.
pub fn parse_u16(input: &str) -> (r: Option<u16>)
    ensures
        r == u16_of(input@),
{
    let n = input.unicode_len();
    let mut i: usize = 0;
    if n > 0 && input.get_char(0) == '+' {
        i = 1;
    }
    let start = i;
    let ghost d = unsigned_part(input@);
    assert(d =~= input@.subrange(start as int, n as int));
    if start == n {
        return None;
    }
    let mut acc: u32 = 0;
    while i < n
        invariant
            start <= i <= n,
            n == input@.len(),
            d == input@.subrange(start as int, n as int),
            d == unsigned_part(input@),
            all_digits(d.subrange(0, i - start)),
            acc as int == digits_value(d.subrange(0, i - start)),
            acc <= 65535,
        decreases n - i,
    {
        let c = input.get_char(i);
        assert(d[i - start] == c);
        if c < '0' || c > '9' {
            assert(!all_digits(d));
            return None;
        }
        let next: u32 = acc * 10 + (c as u32 - '0' as u32);
        assert(d.subrange(0, i - start + 1).drop_last() =~= d.subrange(0, i - start));
        assert(next as int == digits_value(d.subrange(0, i - start + 1)));
        if next > 65535 {
            proof {
                if all_digits(d) {
                    lemma_digits_value_grows(d, i - start + 1, d.len() as int);
                    assert(d.subrange(0, d.len() as int) =~= d);
                }
            }
            return None;
        }
        acc = next;
        i = i + 1;
    }
    assert(d.subrange(0, n - start) =~= d);
    Some(acc as u16)
}

/// Reads a brightness percentage: a whole number from 5 to 100.
pub fn parse_brightness_percent(input: &str) -> (r: Result<u16, ConfigError>)
    ensures
        match u16_of(input@) {
            None => r == Err::<u16, ConfigError>(ConfigError::NotANumber),
            Some(v) => if v < 5 {
                r == Err::<u16, ConfigError>(ConfigError::BelowMinimum)
            } else if v > 100 {
                r == Err::<u16, ConfigError>(ConfigError::AboveMaximum)
            } else {
                r == Ok::<u16, ConfigError>(v)
            },
        },
{
    match parse_u16(input) {
        None => Err(ConfigError::NotANumber),
        Some(v) => if v < 5 {
            Err(ConfigError::BelowMinimum)
        } else if v > 100 {
            Err(ConfigError::AboveMaximum)
        } else {
            Ok(v)
        },
    }
}

} // verus!
