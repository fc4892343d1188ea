//! Discovered displays, each bound to the first rule that matches its
//! identity.

use vstd::prelude::*;

use crate::brightness::{Device, HardwareError, Transport, set_level_outcome};
use crate::config::{DeviceConfig, DeviceConfigView, views_of};
use crate::edid::{DeviceInfo, Identity, ParseError, identity_of};
use crate::matcher::{is_wildcard, rule_matches, same_ignoring_case};

verus! {

/// Why no display can be managed.
#[derive(Debug, Clone, Copy, PartialEq, Eq, Structural)]
pub enum DiscoveryError {
    /// No display was found on the bus.
    NoDevices,
    /// Displays were found (this many), but none answered a brightness query.
    NoCompatibleDevices(usize),
}

/// Why a display's identity is unknown.
#[derive(Debug, Clone, Copy, PartialEq, Eq, Structural)]
pub enum IdentityError {
    /// The identification block could not be read.
    Read(HardwareError),
    /// The block that was read does not decode.
    Parse(ParseError),
}

impl<T: Transport> Device<T> {
    /// Reads and decodes the display's identification block.
    pub fn display_info(&mut self) -> (r: Result<DeviceInfo, IdentityError>)
        ensures
            final(self).cached_max() == old(self).cached_max(),
            final(self).name_spec() == old(self).name_spec(),
            match r {
                Ok(info) => exists|b: Seq<u8>| identity_of(b) == Ok::<Identity, ParseError>(info@),
                Err(IdentityError::Parse(e)) => exists|b: Seq<u8>| identity_of(b) == Err::<Identity, ParseError>(e),
                Err(IdentityError::Read(_)) => true,
            },
    {
        let block = match self.identity_block() {
            Ok(b) => b,
            Err(e) => {
                return Err(IdentityError::Read(e));
            },
        };
        match DeviceInfo::parse(block.as_slice()) {
            Ok(info) => Ok(info),
            Err(e) => Err(IdentityError::Parse(e)),
        }
    }
}

/// Rule `k` is the first in the list that accepts `id`.
pub open spec fn is_first_match(rules: Seq<DeviceConfigView>, id: Identity, k: int) -> bool {
    &&& 0 <= k < rules.len()
    &&& rule_matches(rules[k].0, id)
    &&& forall|j: int| 0 <= j < k ==> !rule_matches(#[trigger] rules[j].0, id)
}

/// No rule in the list accepts `id`.
pub open spec fn matches_none(rules: Seq<DeviceConfigView>, id: Identity) -> bool {
    forall|j: int| 0 <= j < rules.len() ==> !rule_matches(#[trigger] rules[j].0, id)
}

/// The index of the first rule that accepts `info`; `None` where none does.
pub fn select_rule(rules: &Vec<DeviceConfig>, info: &DeviceInfo) -> (r: Option<usize>)
    ensures
        match r {
            Some(k) => is_first_match(views_of(rules@), info@, k as int),
            None => matches_none(views_of(rules@), info@),
        },
        first_rule(views_of(rules@), info@) == match r {
            Some(k) => Some(k as int),
            None => None::<int>,
        },
{
    proof {
        lemma_first_rule(views_of(rules@), info@, rules@.len());
    }
    let mut i: usize = 0;
    while i < rules.len()
        invariant
            i <= rules@.len(),
            forall|j: int| 0 <= j < i ==> !rule_matches(#[trigger] views_of(rules@)[j].0, info@),
        decreases rules@.len() - i,
    {
        if rules[i].matcher.matches(info) {
            proof {
                let v = views_of(rules@);
                lemma_first_rule(v, info@, v.len());
                assert(rule_matches(v[i as int].0, info@));
                match first_rule(v, info@) {
                    Some(k) => {
                        if k < i {
                            assert(!rule_matches(v[k].0, info@));
                        } else if k > i {
                            assert(!rule_matches(v[i as int].0, info@));
                        }
                    },
                    None => {},
                }
            }
            return Some(i);
        }
        i = i + 1;
    }
    None
}

/// The index of the first of the first `n` rules that accepts `id`.
pub open spec fn first_rule_in(rules: Seq<DeviceConfigView>, id: Identity, n: nat) -> Option<int>
    decreases n,
{
    if n == 0 || n > rules.len() {
        None
    } else {
        match first_rule_in(rules, id, (n - 1) as nat) {
            Some(k) => Some(k),
            None => if rule_matches(rules[n - 1].0, id) {
                Some(n - 1)
            } else {
                None
            },
        }
    }
}

/// The index of the first rule that accepts `id`.
pub open spec fn first_rule(rules: Seq<DeviceConfigView>, id: Identity) -> Option<int> {
    first_rule_in(rules, id, rules.len())
}

proof fn lemma_first_rule(rules: Seq<DeviceConfigView>, id: Identity, n: nat)
    requires
        n <= rules.len(),
    ensures
        match first_rule_in(rules, id, n) {
            Some(k) => 0 <= k < n && is_first_match(rules, id, k),
            None => forall|j: int| 0 <= j < n ==> !rule_matches(#[trigger] rules[j].0, id),
        },
    decreases n,
{
    if n > 0 {
        lemma_first_rule(rules, id, (n - 1) as nat);
    }
}

/// A rule list led by a serial-number rule that names `id`'s serial picks
/// that rule, whatever `id`'s model and whatever the rules after it say.
pub proof fn lemma_serial_rule_first(rules: Seq<DeviceConfigView>, id: Identity)
    requires
        rules.len() > 0,
        rules[0].0.2 is Some,
        same_ignoring_case(rules[0].0.2->Some_0, id.2),
    ensures
        is_first_match(rules, id, 0),
{
}

/// An identity that no rule before a final catch-all rule accepts is bound
/// to the catch-all rule.
pub proof fn lemma_catch_all_fallback(rules: Seq<DeviceConfigView>, id: Identity)
    requires
        rules.len() > 0,
        is_wildcard(rules.last().0),
        forall|j: int| 0 <= j < rules.len() - 1 ==> !rule_matches(#[trigger] rules[j].0, id),
    ensures
        is_first_match(rules, id, rules.len() - 1),
{
}

/// With a catch-all rule anywhere in the list, every identity gets a rule.
pub proof fn lemma_catch_all_total(rules: Seq<DeviceConfigView>, id: Identity, w: int)
    requires
        0 <= w < rules.len(),
        is_wildcard(rules[w].0),
    ensures
        !matches_none(rules, id),
{
    assert(rule_matches(rules[w].0, id));
}

/// The outcome of discovery from the number of displays found and the
/// number that answered a brightness query.
pub open spec fn discovery_outcome(found: nat, usable: nat) -> Result<(), DiscoveryError> {
    if usable > 0 {
        Ok(())
    } else if found > 0 {
        Err(DiscoveryError::NoCompatibleDevices(found as usize))
    } else {
        Err(DiscoveryError::NoDevices)
    }
}

/// Decides the outcome of discovery.
pub fn check_discovery(found: usize, usable: usize) -> (r: Result<(), DiscoveryError>)
    ensures
        r == discovery_outcome(found as nat, usable as nat),
{
    if usable > 0 {
        Ok(())
    } else if found > 0 {
        Err(DiscoveryError::NoCompatibleDevices(found))
    } else {
        Err(DiscoveryError::NoDevices)
    }
}

/// A display bound to a rule: its identity, the index of the rule, and
/// the rule's day and night percentages.
pub struct Display<T: Transport> {
    pub device: Device<T>,
    pub info: DeviceInfo,
    pub rule: usize,
    pub day_brightness: u16,
    pub night_brightness: u16,
}

/// The percentage a display is set to by day or by night.
pub open spec fn target_percent<T: Transport>(d: &Display<T>, is_daytime: bool) -> u16 {
    if is_daytime {
        d.day_brightness
    } else {
        d.night_brightness
    }
}

/// Sets a display to its day or night brightness.
pub trait BrightnessOps: Sized {
    /// What one update may do, from `self` to `after`, with result `r`.
    spec fn updated(&self, after: &Self, is_daytime: bool, r: Result<(), HardwareError>) -> bool;

    /// Sets the brightness for the time of day; repeating it is harmless.
    fn update_brightness(&mut self, is_daytime: bool) -> (r: Result<(), HardwareError>)
        ensures
            old(self).updated(final(self), is_daytime, r),
    ;
}

/// What setting a display to its day or night level may do, with `w` the
/// raw value written or the error: as [`set_level_outcome`] says, for the
/// display's target percentage, with its identity and rule unchanged.
pub open spec fn level_applied<T: Transport>(before: &Display<T>, after: &Display<T>, is_daytime: bool, w: Result<u16, HardwareError>) -> bool {
    &&& set_level_outcome(before.device.cached_max(), after.device.cached_max(), target_percent(before, is_daytime), w)
    &&& after.info@ == before.info@
    &&& after.rule == before.rule
    &&& after.day_brightness == before.day_brightness
    &&& after.night_brightness == before.night_brightness
}

impl<T: Transport> Display<T> {
    pub fn display_info(&self) -> (r: &DeviceInfo)
        ensures
            r == &self.info,
    {
        &self.info
    }

    /// Sets the brightness for the time of day and returns the raw value
    /// written.
    pub fn apply_level(&mut self, is_daytime: bool) -> (r: Result<u16, HardwareError>)
        ensures
            level_applied(old(self), final(self), is_daytime, r),
    {
        let percent = if is_daytime {
            self.day_brightness
        } else {
            self.night_brightness
        };
        self.device.set_level(percent)
    }
}

impl<T: Transport> BrightnessOps for Display<T> {
    /// [`level_applied`] for some raw value written, which succeeded
    /// exactly when `r` did.
    open spec fn updated(&self, after: &Self, is_daytime: bool, r: Result<(), HardwareError>) -> bool {
        exists|w: Result<u16, HardwareError>|
            #[trigger] level_applied(self, after, is_daytime, w) && (w is Ok <==> r is Ok)
    }

    fn update_brightness(&mut self, is_daytime: bool) -> (r: Result<(), HardwareError>) {
        let w = self.apply_level(is_daytime);
        match w {
            Ok(_) => Ok(()),
            Err(e) => Err(e),
        }
    }
}

/// The displays under management.
pub struct Displays<T: Transport> {
    pub displays: Vec<Display<T>>,
}

/// Every display is bound to the first rule that accepts its identity, with
/// that rule's percentages.
pub open spec fn bound_to_rules<T: Transport>(ds: Seq<Display<T>>, rules: Seq<DeviceConfigView>) -> bool {
    forall|k: int|
        0 <= k < ds.len() ==> {
            &&& is_first_match(rules, (#[trigger] ds[k]).info@, ds[k].rule as int)
            &&& ds[k].day_brightness == rules[ds[k].rule as int].1
            &&& ds[k].night_brightness == rules[ds[k].rule as int].2
        }
}

/// The displays that answered their brightness query, in order.
pub open spec fn answering<T: Transport>(probed: Seq<(Device<T>, Result<(), HardwareError>)>) -> Seq<Device<T>>
    decreases probed.len(),
{
    if probed.len() == 0 {
        Seq::empty()
    } else if probed.last().1 is Ok {
        answering(probed.drop_last()).push(probed.last().0)
    } else {
        answering(probed.drop_last())
    }
}

proof fn lemma_answering_len<T: Transport>(probed: Seq<(Device<T>, Result<(), HardwareError>)>)
    ensures
        answering(probed).len() <= probed.len(),
    decreases probed.len(),
{
    if probed.len() > 0 {
        lemma_answering_len(probed.drop_last());
    }
}

/// Keeps, in order, the displays whose brightness query was answered;
/// fails as [`discovery_outcome`] says where none was.
pub fn keep_answering<T: Transport>(probed: Vec<(Device<T>, Result<(), HardwareError>)>) -> (r: Result<Vec<Device<T>>, DiscoveryError>)
    ensures
        match discovery_outcome(probed@.len(), answering(probed@).len()) {
            Ok(()) => r is Ok && r->Ok_0@ == answering(probed@),
            Err(e) => r == Err::<Vec<Device<T>>, DiscoveryError>(e),
        },
{
    let ghost all = probed@;
    let n = probed.len();
    let mut rest = probed;
    let mut kept: Vec<Device<T>> = Vec::new();
    let mut i: usize = 0;
    while i < n
        invariant
            i <= n,
            all.len() == n,
            rest@ == all.subrange(i as int, n as int),
            kept@ == answering(all.subrange(0, i as int)),
        decreases n - i,
    {
        let ghost before = rest@;
        let (d, answer) = rest.remove(0);
        assert(rest@ =~= all.subrange(i + 1, n as int));
        assert(all.subrange(0, i + 1).drop_last() =~= all.subrange(0, i as int));
        assert(all.subrange(0, i + 1).last() == before[0]);
        if answer.is_ok() {
            kept.push(d);
        }
        i = i + 1;
    }
    assert(all.subrange(0, n as int) =~= all);
    match check_discovery(n, kept.len()) {
        Ok(()) => Ok(kept),
        Err(e) => Err(e),
    }
}

/// The display that an identified device becomes: bound to the first rule
/// that accepts its identity, with that rule's percentages; none where its
/// identity is unknown or no rule accepts it.
pub open spec fn binding<T: Transport>(rules: Seq<DeviceConfigView>, e: (Device<T>, Result<DeviceInfo, IdentityError>)) -> Option<Display<T>> {
    match e.1 {
        Ok(info) => match first_rule(rules, info@) {
            Some(k) => Some(
                Display { device: e.0, info: info, rule: k as usize, day_brightness: rules[k].1, night_brightness: rules[k].2 },
            ),
            None => None,
        },
        Err(_) => None,
    }
}

/// The displays that identified devices become, in order.
pub open spec fn bound_displays<T: Transport>(rules: Seq<DeviceConfigView>, ids: Seq<(Device<T>, Result<DeviceInfo, IdentityError>)>) -> Seq<Display<T>>
    decreases ids.len(),
{
    if ids.len() == 0 {
        Seq::empty()
    } else {
        match binding(rules, ids.last()) {
            Some(d) => bound_displays(rules, ids.drop_last()).push(d),
            None => bound_displays(rules, ids.drop_last()),
        }
    }
}

proof fn lemma_bound_len<T: Transport>(rules: Seq<DeviceConfigView>, ids: Seq<(Device<T>, Result<DeviceInfo, IdentityError>)>)
    ensures
        bound_displays(rules, ids).len() <= ids.len(),
    decreases ids.len(),
{
    if ids.len() > 0 {
        lemma_bound_len(rules, ids.drop_last());
    }
}

/// Binds identified devices to rules: keeps, in order, exactly those whose
/// identity is known and accepted by some rule, each bound to the first such
/// rule. A device that cannot be identified or matched is left out and does
/// not affect the others.
pub fn bind_displays<T: Transport>(cfgs: &Vec<DeviceConfig>, ids: Vec<(Device<T>, Result<DeviceInfo, IdentityError>)>) -> (r: Vec<Display<T>>)
    ensures
        r@ == bound_displays(views_of(cfgs@), ids@),
        bound_to_rules(r@, views_of(cfgs@)),
{
    let ghost all = ids@;
    let ghost rules = views_of(cfgs@);
    let n = ids.len();
    let mut rest = ids;
    let mut displays: Vec<Display<T>> = Vec::new();
    let mut i: usize = 0;
    while i < n
        invariant
            i <= n,
            all.len() == n,
            rules == views_of(cfgs@),
            rest@ == all.subrange(i as int, n as int),
            displays@ == bound_displays(rules, all.subrange(0, i as int)),
            bound_to_rules(displays@, rules),
        decreases n - i,
    {
        let ghost before = rest@;
        let (d, identity) = rest.remove(0);
        assert(rest@ =~= all.subrange(i + 1, n as int));
        assert(all.subrange(0, i + 1).drop_last() =~= all.subrange(0, i as int));
        assert(all.subrange(0, i + 1).last() == before[0]);
        assert(before[0] == (d, identity));
        match identity {
            Ok(info) => {
                match select_rule(cfgs, &info) {
                    Some(k) => {
                        let day = cfgs[k].day_brightness;
                        let night = cfgs[k].night_brightness;
                        let ghost prev = displays@;
                        displays.push(Display { device: d, info, rule: k, day_brightness: day, night_brightness: night });
                        assert forall|j: int| 0 <= j < displays@.len() implies {
                            &&& is_first_match(rules, (#[trigger] displays@[j]).info@, displays@[j].rule as int)
                            &&& displays@[j].day_brightness == rules[displays@[j].rule as int].1
                            &&& displays@[j].night_brightness == rules[displays@[j].rule as int].2
                        } by {
                            if j < prev.len() {
                                assert(displays@[j] == prev[j]);
                            }
                        }
                    },
                    None => {},
                }
            },
            Err(_) => {},
        }
        i = i + 1;
    }
    assert(all.subrange(0, n as int) =~= all);
    displays
}

/// The names of a list of devices.
pub open spec fn device_names<T: Transport>(ds: Seq<Device<T>>) -> Seq<Seq<char>> {
    ds.map_values(|d: Device<T>| d.name_spec()@)
}

/// The names of the devices of a list of displays.
pub open spec fn display_names<T: Transport>(ds: Seq<Display<T>>) -> Seq<Seq<char>> {
    ds.map_values(|d: Display<T>| d.device.name_spec()@)
}

pub open spec fn probed_names<T: Transport>(p: Seq<(Device<T>, Result<(), HardwareError>)>) -> Seq<Seq<char>> {
    p.map_values(|e: (Device<T>, Result<(), HardwareError>)| e.0.name_spec()@)
}

pub open spec fn identified_names<T: Transport>(p: Seq<(Device<T>, Result<DeviceInfo, IdentityError>)>) -> Seq<Seq<char>> {
    p.map_values(|e: (Device<T>, Result<DeviceInfo, IdentityError>)| e.0.name_spec()@)
}

/// `idx` picks `a` out of `b`: `a[k]` is `b[idx[k]]`, with `idx` strictly
/// increasing.
pub open spec fn picks(a: Seq<Seq<char>>, b: Seq<Seq<char>>, idx: Seq<int>) -> bool {
    &&& idx.len() == a.len()
    &&& forall|k: int| 0 <= k < idx.len() ==> 0 <= #[trigger] idx[k] < b.len() && a[k] == b[idx[k]]
    &&& forall|k: int, l: int| 0 <= k < l < idx.len() ==> idx[k] < idx[l]
}

/// `a` is `b` with some entries left out, the rest in their order.
pub open spec fn is_subsequence(a: Seq<Seq<char>>, b: Seq<Seq<char>>) -> bool {
    exists|idx: Seq<int>| picks(a, b, idx)
}

proof fn lemma_picks_compose(a: Seq<Seq<char>>, b: Seq<Seq<char>>, c: Seq<Seq<char>>, i1: Seq<int>, i2: Seq<int>) -> (i: Seq<int>)
    requires
        picks(a, b, i1),
        picks(b, c, i2),
    ensures
        picks(a, c, i),
{
    let i = Seq::new(i1.len(), |k: int| i2[i1[k]]);
    assert forall|k: int| 0 <= k < i.len() implies 0 <= #[trigger] i[k] < c.len() && a[k] == c[i[k]] by {
        assert(0 <= i1[k] < b.len());
    }
    assert forall|k: int, l: int| 0 <= k < l < i.len() implies i[k] < i[l] by {
        assert(0 <= i1[k] < b.len());
        assert(0 <= i1[l] < b.len());
        assert(i1[k] < i1[l]);
    }
    i
}

proof fn lemma_answering_picks<T: Transport>(p: Seq<(Device<T>, Result<(), HardwareError>)>) -> (idx: Seq<int>)
    ensures
        picks(device_names(answering(p)), probed_names(p), idx),
    decreases p.len(),
{
    if p.len() == 0 {
        Seq::empty()
    } else {
        let pd = p.drop_last();
        let prev = lemma_answering_picks(pd);
        let a = device_names(answering(p));
        let b = probed_names(p);
        assert forall|k: int| 0 <= k < pd.len() implies probed_names(pd)[k] == b[k] by {
            assert(pd[k] == p[k]);
        }
        if p.last().1 is Ok {
            let idx = prev.push(p.len() - 1);
            assert forall|k: int| 0 <= k < idx.len() implies 0 <= #[trigger] idx[k] < b.len() && a[k] == b[idx[k]] by {
                if k < prev.len() {
                    assert(idx[k] == prev[k]);
                    assert(answering(p)[k] == answering(pd)[k]);
                }
            }
            assert forall|k: int, l: int| 0 <= k < l < idx.len() implies idx[k] < idx[l] by {
                if l < prev.len() {
                    assert(idx[k] == prev[k] && idx[l] == prev[l]);
                } else {
                    assert(idx[k] == prev[k]);
                }
            }
            idx
        } else {
            assert forall|k: int| 0 <= k < prev.len() implies 0 <= #[trigger] prev[k] < b.len() && a[k] == b[prev[k]] by {
                assert(device_names(answering(pd))[k] == probed_names(pd)[prev[k]]);
            }
            prev
        }
    }
}

proof fn lemma_bound_picks<T: Transport>(rules: Seq<DeviceConfigView>, p: Seq<(Device<T>, Result<DeviceInfo, IdentityError>)>) -> (idx: Seq<int>)
    ensures
        picks(display_names(bound_displays(rules, p)), identified_names(p), idx),
    decreases p.len(),
{
    if p.len() == 0 {
        Seq::empty()
    } else {
        let pd = p.drop_last();
        let prev = lemma_bound_picks(rules, pd);
        let a = display_names(bound_displays(rules, p));
        let b = identified_names(p);
        assert forall|k: int| 0 <= k < pd.len() implies identified_names(pd)[k] == b[k] by {
            assert(pd[k] == p[k]);
        }
        match binding(rules, p.last()) {
            Some(d) => {
                let idx = prev.push(p.len() - 1);
                assert(d.device == p.last().0);
                assert forall|k: int| 0 <= k < idx.len() implies 0 <= #[trigger] idx[k] < b.len() && a[k] == b[idx[k]] by {
                    if k < prev.len() {
                        assert(idx[k] == prev[k]);
                        assert(bound_displays(rules, p)[k] == bound_displays(rules, pd)[k]);
                    }
                }
                assert forall|k: int, l: int| 0 <= k < l < idx.len() implies idx[k] < idx[l] by {
                    if l < prev.len() {
                        assert(idx[k] == prev[k] && idx[l] == prev[l]);
                    } else {
                        assert(idx[k] == prev[k]);
                    }
                }
                idx
            },
            None => {
                assert forall|k: int| 0 <= k < prev.len() implies 0 <= #[trigger] prev[k] < b.len() && a[k] == b[prev[k]] by {
                    assert(display_names(bound_displays(rules, pd))[k] == identified_names(pd)[prev[k]]);
                }
                prev
            },
        }
    }
}

impl<T: Transport> Displays<T> {
    /// Keeps the displays found that answer a brightness query, reads each
    /// one's identity and binds it to the first rule that accepts it, as
    /// [`keep_answering`] and [`bind_displays`] state. Displays whose
    /// identity cannot be read or decoded, or that no rule accepts, are left
    /// out.
    pub fn new(cfgs: &Vec<DeviceConfig>, found: Vec<Device<T>>) -> (r: Result<Displays<T>, DiscoveryError>)
        ensures
            found@.len() == 0 ==> r == Err::<Displays<T>, DiscoveryError>(DiscoveryError::NoDevices),
            match r {
                Ok(ds) => {
                    &&& ds.displays@.len() <= found@.len()
                    &&& bound_to_rules(ds.displays@, views_of(cfgs@))
                    &&& exists|ids: Seq<(Device<T>, Result<DeviceInfo, IdentityError>)>|
                        #[trigger] bound_displays(views_of(cfgs@), ids) == ds.displays@
                    &&& is_subsequence(display_names(ds.displays@), device_names(found@))
                },
                Err(DiscoveryError::NoCompatibleDevices(c)) => c == found@.len() && c > 0,
                Err(DiscoveryError::NoDevices) => found@.len() == 0,
            },
    {
        let ghost f = found@;
        let n = found.len();
        let mut rest = found;
        let mut probed: Vec<(Device<T>, Result<(), HardwareError>)> = Vec::new();
        while rest.len() > 0
            invariant
                probed@.len() + rest@.len() == n,
                f.len() == n,
                rest@ == f.subrange(probed@.len() as int, n as int),
                forall|k: int| 0 <= k < probed@.len() ==> (#[trigger] probed@[k]).0.name_spec() == f[k].name_spec(),
            decreases rest@.len(),
        {
            let ghost before = rest@;
            let mut d = rest.remove(0);
            assert(rest@ =~= f.subrange(probed@.len() as int + 1, n as int));
            assert(d == f[probed@.len() as int]);
            let answer = d.try_brightness();
            probed.push((d, answer));
        }
        let ghost pv = probed@;
        assert(probed_names(pv) =~= device_names(f));
        proof {
            lemma_answering_len(probed@);
        }
        let mut usable = match keep_answering(probed) {
            Ok(v) => v,
            Err(e) => {
                return Err(e);
            },
        };
        let ghost u = usable@;
        let m = usable.len();
        let mut ids: Vec<(Device<T>, Result<DeviceInfo, IdentityError>)> = Vec::new();
        while usable.len() > 0
            invariant
                ids@.len() + usable@.len() == m,
                m <= n,
                u.len() == m,
                usable@ == u.subrange(ids@.len() as int, m as int),
                forall|k: int| 0 <= k < ids@.len() ==> (#[trigger] ids@[k]).0.name_spec() == u[k].name_spec(),
            decreases usable@.len(),
        {
            let mut d = usable.remove(0);
            assert(usable@ =~= u.subrange(ids@.len() as int + 1, m as int));
            assert(d == u[ids@.len() as int]);
            let identity = d.display_info();
            ids.push((d, identity));
        }
        let ghost idv = ids@;
        assert(identified_names(idv) =~= device_names(u));
        let displays = bind_displays(cfgs, ids);
        proof {
            lemma_bound_len(views_of(cfgs@), idv);
            let i1 = lemma_bound_picks(views_of(cfgs@), idv);
            let i2 = lemma_answering_picks(pv);
            let i = lemma_picks_compose(display_names(displays@), device_names(u), device_names(f), i1, i2);
            assert(picks(display_names(displays@), device_names(f), i));
        }
        Ok(Displays { displays })
    }

    pub fn len(&self) -> (r: usize)
        ensures
            r == self.displays@.len(),
    {
        self.displays.len()
    }

    pub fn is_empty(&self) -> (r: bool)
        ensures
            r == (self.displays@.len() == 0),
    {
        self.displays.len() == 0
    }
}

} // verus!
