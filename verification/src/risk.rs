//! Risk probability interpretation: reading the classifier's two-class
//! output, the five-tier mapping on the probability, and the tier
//! descriptions.
//!
//! Probabilities are carried in parts per million of probability mass, so
//! the unit interval is [0, 1000000].
use crate::text::str_equal;
use vstd::prelude::*;

verus! {

/// One million parts per million: probability one.
pub const PPM_ONE: u32 = 1_000_000;

/// The five ordinal risk tiers.
#[derive(Debug, Clone, Copy, PartialEq, Eq, Structural)]
pub enum RiskTier {
    Minimal,
    Low,
    Moderate,
    High,
    Extreme,
}

/// Why a prediction could not be made: the engine produced no usable
/// two-class distribution, or invoking it failed with the given cause.
#[derive(Debug, Clone, PartialEq)]
pub enum ModelError {
    InvalidOutput,
    InferenceFailed(String),
}

impl ModelError {
    /// The human-readable cause text.
    pub open spec fn spec_message(&self) -> Seq<char> {
        match self {
            ModelError::InvalidOutput => "model output was not a two-class distribution"@,
            ModelError::InferenceFailed(c) => "inference failed: "@ + c@,
        }
    }

    /// Renders the cause text.
    pub fn message(&self) -> (m: String)
        ensures
            m@ == self.spec_message(),
    {
        match self {
            ModelError::InvalidOutput => "model output was not a two-class distribution".to_owned(),
            ModelError::InferenceFailed(c) => {
                let mut s = "inference failed: ".to_owned();
                s.append(c.as_str());
                s
            },
        }
    }
}

/// The probability mass the classifier assigns to the risk class: entry
/// one of the two-class distribution. Anything shorter, or a mass beyond
/// probability one, is an invalid output.
pub fn risk_from_distribution(probs: &Vec<u32>) -> (r: Result<u32, ModelError>)
    ensures
        probs@.len() >= 2 && probs@[1] <= 1_000_000 ==> r == Ok::<u32, ModelError>(probs@[1]),
        probs@.len() < 2 || probs@[1] > 1_000_000 ==> r == Err::<u32, ModelError>(
            ModelError::InvalidOutput,
        ),
{
    if probs.len() >= 2 {
        let p = probs[1];
        if p <= PPM_ONE {
            Ok(p)
        } else {
            Err(ModelError::InvalidOutput)
        }
    } else {
        Err(ModelError::InvalidOutput)
    }
}

/// The tier of a probability: at least 0.8 is extreme, 0.6 high, 0.4
/// moderate, 0.2 low, anything below minimal.
pub open spec fn spec_risk_tier(p_ppm: int) -> RiskTier {
    if p_ppm >= 800_000 {
        RiskTier::Extreme
    } else if p_ppm >= 600_000 {
        RiskTier::High
    } else if p_ppm >= 400_000 {
        RiskTier::Moderate
    } else if p_ppm >= 200_000 {
        RiskTier::Low
    } else {
        RiskTier::Minimal
    }
}

/// Maps a probability to its tier.
pub fn risk_tier(p_ppm: u32) -> (t: RiskTier)
    ensures
        t == spec_risk_tier(p_ppm as int),
{
    if p_ppm >= 800_000 {
        RiskTier::Extreme
    } else if p_ppm >= 600_000 {
        RiskTier::High
    } else if p_ppm >= 400_000 {
        RiskTier::Moderate
    } else if p_ppm >= 200_000 {
        RiskTier::Low
    } else {
        RiskTier::Minimal
    }
}

/// The tier thresholds partition the unit interval: each probability falls
/// in exactly one tier, with these boundaries.
pub proof fn lemma_tier_partition(p_ppm: int)
    requires
        0 <= p_ppm <= 1_000_000,
    ensures
        spec_risk_tier(p_ppm) == RiskTier::Extreme <==> 800_000 <= p_ppm,
        spec_risk_tier(p_ppm) == RiskTier::High <==> 600_000 <= p_ppm < 800_000,
        spec_risk_tier(p_ppm) == RiskTier::Moderate <==> 400_000 <= p_ppm < 600_000,
        spec_risk_tier(p_ppm) == RiskTier::Low <==> 200_000 <= p_ppm < 400_000,
        spec_risk_tier(p_ppm) == RiskTier::Minimal <==> p_ppm < 200_000,
{
}

impl RiskTier {
    /// The tier's level label.
    pub open spec fn spec_level_name(&self) -> Seq<char> {
        match self {
            RiskTier::Extreme => "EXTREME"@,
            RiskTier::High => "HIGH"@,
            RiskTier::Moderate => "MODERATE"@,
            RiskTier::Low => "LOW"@,
            RiskTier::Minimal => "MINIMAL"@,
        }
    }

    /// Renders the level label.
    pub fn level_name(&self) -> (s: String)
        ensures
            s@ == self.spec_level_name(),
    {
        match self {
            RiskTier::Extreme => "EXTREME".to_owned(),
            RiskTier::High => "HIGH".to_owned(),
            RiskTier::Moderate => "MODERATE".to_owned(),
            RiskTier::Low => "LOW".to_owned(),
            RiskTier::Minimal => "MINIMAL".to_owned(),
        }
    }
}

/// The description for a level label; a fixed five-entry table with a
/// catch-all for unrecognised labels.
pub open spec fn spec_risk_description(level: Seq<char>) -> Seq<char> {
    if level == "EXTREME"@ {
        "Extreme fire danger. Avoid all outdoor burning and activities that could spark fires."@
    } else if level == "HIGH"@ {
        "High fire danger. Exercise extreme caution with any potential ignition sources."@
    } else if level == "MODERATE"@ {
        "Moderate fire danger. Use caution with outdoor activities and burning."@
    } else if level == "LOW"@ {
        "Low fire danger. Normal fire safety precautions apply."@
    } else if level == "MINIMAL"@ {
        "Minimal fire danger. Conditions are favorable for fire safety."@
    } else {
        "Fire risk assessment unavailable."@
    }
}

/// Looks up the description for a level label.
pub fn get_risk_description(level: &str) -> (d: String)
    ensures
        d@ == spec_risk_description(level@),
{
    if str_equal(level, "EXTREME") {
        "Extreme fire danger. Avoid all outdoor burning and activities that could spark fires.".to_owned()
    } else if str_equal(level, "HIGH") {
        "High fire danger. Exercise extreme caution with any potential ignition sources.".to_owned()
    } else if str_equal(level, "MODERATE") {
        "Moderate fire danger. Use caution with outdoor activities and burning.".to_owned()
    } else if str_equal(level, "LOW") {
        "Low fire danger. Normal fire safety precautions apply.".to_owned()
    } else if str_equal(level, "MINIMAL") {
        "Minimal fire danger. Conditions are favorable for fire safety.".to_owned()
    } else {
        "Fire risk assessment unavailable.".to_owned()
    }
}

} // verus!
