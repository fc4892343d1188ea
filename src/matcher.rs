//! Rules that pick out displays by their identity.

use vstd::prelude::*;
use vstd::string::*;

use crate::edid::{DeviceInfo, Identity};

verus! {

#[verifier::external_type_specification]
#[verifier::external_body]
pub struct ExRegex(regex::Regex);

#[verifier::external_type_specification]
#[verifier::external_body]
pub struct ExRegexError(regex::Error);

/// Whether the regex crate accepts a pattern.
pub uninterp spec fn pattern_compiles(pattern: Seq<char>) -> bool;

/// Whether a pattern matches somewhere in a text (a search, not a match of
/// the whole text).
pub uninterp spec fn pattern_finds(pattern: Seq<char>, text: Seq<char>) -> bool;

/// The lowercase form of a text, as `str::to_lowercase` gives it (full
/// Unicode case mapping).
pub uninterp spec fn lower_of(s: Seq<char>) -> Seq<char>;

/// Relies on `str::to_lowercase`: the result depends on the characters
/// alone.
#[verifier::external_body]
fn lowercase(s: &str) -> (r: String)
    ensures
        r@ == lower_of(s@),
{
    s.to_lowercase()
}

/// Two texts that are equal once lowercased: a case-insensitive comparison.
pub open spec fn same_ignoring_case(a: Seq<char>, b: Seq<char>) -> bool {
    lower_of(a) == lower_of(b)
}

/// Whether two texts are equal, given already lowercased.
pub fn same_text(a: &String, b: &String) -> (r: bool)
    ensures
        r == (a@ == b@),
{
    a.eq(b)
}

/// Compares two texts without regard to case.
pub fn eq_lowercased(a: &str, b: &str) -> (r: bool)
    ensures
        r == same_ignoring_case(a@, b@),
{
    let la = lowercase(a);
    let lb = lowercase(b);
    same_text(&la, &lb)
}

/// Relies on `regex::Regex::new`: whether it succeeds depends on the
/// pattern alone.
#[verifier::external_body]
fn compile(pattern: &str) -> (r: Result<regex::Regex, regex::Error>)
    ensures
        r is Ok <==> pattern_compiles(pattern@),
{
    regex::Regex::new(pattern)
}

/// A compiled regular expression together with its source text.
///
/// The only constructor is [`Pattern::new`], which compiles `re` from
/// `source`; so `re` always searches for `source`.
#[derive(Debug)]
pub struct Pattern {
    source: String,
    re: regex::Regex,
}

/// A pattern that the regex crate refused.
#[derive(Debug, Clone, Copy, PartialEq, Eq, Structural)]
pub struct PatternError;

impl View for Pattern {
    type V = Seq<char>;

    closed spec fn view(&self) -> Seq<char> {
        self.source@
    }
}

/// Relies on `regex::Regex::is_match`: true exactly where the pattern that
/// `p` was compiled from matches somewhere in `text`.
#[verifier::external_body]
fn search(p: &Pattern, text: &str) -> (r: bool)
    ensures
        r == pattern_finds(p@, text@),
{
    p.re.is_match(text)
}

impl Pattern {
    /// Compiles a pattern; fails where the regex crate refuses it.
    pub fn new(source: &str) -> (r: Result<Pattern, PatternError>)
        ensures
            r is Ok <==> pattern_compiles(source@),
            r is Ok ==> r->Ok_0@ == source@,
    {
        match compile(source) {
            Ok(re) => Ok(Pattern { source: String::from_str(source), re }),
            Err(_) => Err(PatternError),
        }
    }

    pub fn as_str(&self) -> (r: &str)
        ensures
            r@ == self@,
    {
        self.source.as_str()
    }

    /// Whether the pattern matches somewhere in `text`.
    pub fn is_found_in(&self, text: &str) -> (r: bool)
        ensures
            r == pattern_finds(self@, text@),
    {
        search(self, text)
    }
}

pub open spec fn is_upper(c: char) -> bool {
    'A' <= c && c <= 'Z'
}

/// Two characters that are equal once ASCII letters are folded to one case.
pub open spec fn char_eq_ignore_case(a: char, b: char) -> bool {
    a == b || (is_upper(a) && a as u32 + 32 == b as u32) || (is_upper(b) && b as u32 + 32 == a as u32)
}

pub open spec fn text_eq_ignore_case(a: Seq<char>, b: Seq<char>) -> bool {
    a.len() == b.len() && forall|i: int| 0 <= i < a.len() ==> char_eq_ignore_case(#[trigger] a[i], b[i])
}

/// Compares two texts with ASCII letters folded to one case, as keywords
/// such as log level names are compared.
pub fn eq_ignore_case(a: &str, b: &str) -> (r: bool)
    ensures
        r == text_eq_ignore_case(a@, b@),
{
    let n = a.unicode_len();
    if n != b.unicode_len() {
        return false;
    }
    let mut i: usize = 0;
    while i < n
        invariant
            i <= n,
            n == a@.len(),
            n == b@.len(),
            forall|j: int| 0 <= j < i ==> char_eq_ignore_case(#[trigger] a@[j], b@[j]),
        decreases n - i,
    {
        let x = a.get_char(i);
        let y = b.get_char(i);
        let same = x == y || ('A' <= x && x <= 'Z' && x as u32 + 32 == y as u32) || ('A' <= y && y
            <= 'Z' && y as u32 + 32 == x as u32);
        if !same {
            return false;
        }
        i = i + 1;
    }
    true
}

/// Picks out displays: an exact serial number, or regular expressions on
/// the model name and the manufacturer code, or, with nothing given, any
/// display.
#[derive(Debug)]
pub struct DeviceMatcher {
    pub model: Option<Pattern>,
    pub mfg: Option<Pattern>,
    pub serial: Option<String>,
}

/// Model pattern, manufacturer pattern and serial number, as characters.
pub type MatcherView = (Option<Seq<char>>, Option<Seq<char>>, Option<Seq<char>>);

pub open spec fn pattern_view(p: Option<Pattern>) -> Option<Seq<char>> {
    match p {
        Some(p) => Some(p@),
        None => None,
    }
}

impl View for DeviceMatcher {
    type V = MatcherView;

    open spec fn view(&self) -> MatcherView {
        (
            pattern_view(self.model),
            pattern_view(self.mfg),
            match self.serial {
                Some(s) => Some(s@),
                None => None,
            },
        )
    }
}

/// A pattern that is absent, or that matches somewhere in `text`.
pub open spec fn allows(p: Option<Seq<char>>, text: Seq<char>) -> bool {
    match p {
        Some(p) => pattern_finds(p, text),
        None => true,
    }
}

/// Whether a rule accepts an identity. A serial number decides alone, equal
/// to the identity's once both are lowercased; otherwise every pattern given must match, and
/// a rule with none matches every identity.
pub open spec fn rule_matches(m: MatcherView, id: Identity) -> bool {
    match m.2 {
        Some(serial) => same_ignoring_case(serial, id.2),
        None => allows(m.0, id.1) && allows(m.1, id.0),
    }
}

/// A rule with no serial number and no pattern.
pub open spec fn is_wildcard(m: MatcherView) -> bool {
    m.0 is None && m.1 is None && m.2 is None
}

/// A rule's decision from its parts: the serial comparison where there is
/// a serial number, otherwise every pattern search given (`None` for an
/// absent pattern) must have found a match.
pub open spec fn decision(serial_equal: Option<bool>, model_found: Option<bool>, mfg_found: Option<bool>) -> bool {
    match serial_equal {
        Some(eq) => eq,
        None => (model_found is None || model_found == Some(true)) && (mfg_found is None || mfg_found == Some(
            true,
        )),
    }
}

/// Combines the outcomes of a rule's comparisons into its decision.
pub fn decide(serial_equal: Option<bool>, model_found: Option<bool>, mfg_found: Option<bool>) -> (r: bool)
    ensures
        r == decision(serial_equal, model_found, mfg_found),
{
    match serial_equal {
        Some(eq) => eq,
        None => {
            let model_ok = match model_found {
                Some(f) => f,
                None => true,
            };
            let mfg_ok = match mfg_found {
                Some(f) => f,
                None => true,
            };
            model_ok && mfg_ok
        },
    }
}

/// The search outcome of an optional pattern on a text.
pub open spec fn finding(p: Option<Seq<char>>, text: Seq<char>) -> Option<bool> {
    match p {
        Some(p) => Some(pattern_finds(p, text)),
        None => None,
    }
}

/// A rule's match is its decision on the outcomes of its comparisons.
pub proof fn lemma_matches_is_decision(m: MatcherView, id: Identity)
    ensures
        rule_matches(m, id) == decision(
            match m.2 {
                Some(s) => Some(same_ignoring_case(s, id.2)),
                None => None,
            },
            finding(m.0, id.1),
            finding(m.1, id.0),
        ),
{
}

impl DeviceMatcher {
    /// The rule that matches any display.
    pub fn any() -> (r: DeviceMatcher)
        ensures
            is_wildcard(r@),
    {
        DeviceMatcher { model: None, mfg: None, serial: None }
    }

    /// Whether this rule accepts the display `info`.
    pub fn matches(&self, info: &DeviceInfo) -> (r: bool)
        ensures
            r == rule_matches(self@, info@),
    {
        let serial_equal = match &self.serial {
            Some(s) => Some(eq_lowercased(s.as_str(), info.serial.as_str())),
            None => None,
        };
        let (model_found, mfg_found) = match serial_equal {
            Some(_) => (None, None),
            None => (
                match &self.model {
                    Some(p) => Some(p.is_found_in(info.model.as_str())),
                    None => None,
                },
                match &self.mfg {
                    Some(p) => Some(p.is_found_in(info.manufacturer.as_str())),
                    None => None,
                },
            ),
        };
        decide(serial_equal, model_found, mfg_found)
    }
}

/// The text that describes what a rule matches.
pub open spec fn description(m: MatcherView) -> Seq<char> {
    match m.2 {
        Some(serial) => "serial "@ + serial,
        None => match (m.0, m.1) {
            (None, None) => "any device"@,
            (Some(model), None) => "model "@ + model,
            (None, Some(mfg)) => "manufacturer "@ + mfg,
            (Some(model), Some(mfg)) => "model "@ + model + " and manufacturer "@ + mfg,
        },
    }
}

impl DeviceMatcher {
    /// Describes what the rule matches, for messages.
    pub fn describe(&self) -> (r: String)
        ensures
            r@ == description(self@),
    {
        match &self.serial {
            Some(s) => String::from_str("serial ").concat(s.as_str()),
            None => match (&self.model, &self.mfg) {
                (None, None) => String::from_str("any device"),
                (Some(model), None) => String::from_str("model ").concat(model.as_str()),
                (None, Some(mfg)) => String::from_str("manufacturer ").concat(mfg.as_str()),
                (Some(model), Some(mfg)) => String::from_str("model ").concat(model.as_str()).concat(
                    " and manufacturer ",
                ).concat(mfg.as_str()),
            },
        }
    }

    /// The rule as a sentence: "matches" and its description.
    pub fn to_string(&self) -> (r: String)
        ensures
            r@ == "matches "@ + description(self@),
    {
        let d = self.describe();
        String::from_str("matches ").concat(d.as_str())
    }
}

/// A rule with no serial number and no pattern matches every identity.
pub proof fn lemma_wildcard_matches(m: MatcherView, id: Identity)
    requires
        is_wildcard(m),
    ensures
        rule_matches(m, id),
{
}

} // verus!
