//! Features and their identity.
//!
//! A feature is either a *used* occurrence found in source code (with the
//! file and line it was seen at) or an *exposed* declaration found in a
//! manifest. Two features with the same name stand for the same thing
//! wherever sets of features are kept: the sets in [`crate::package`] are
//! keyed by name alone, and only one representative location survives per
//! name.

use crate::text::dec_rep;
use crate::text::u64_to_string;
use vstd::prelude::*;

verus! {

/// The mathematical image of a [`Feature`]: the same shape over sequences of
/// characters.
#[verifier::ext_equal]
pub enum FeatureV {
    Used { name: Seq<char>, path: Seq<char>, line_number: u64 },
    Exposed { name: Seq<char> },
}

/// The name a feature is identified by.
pub open spec fn feature_name(f: FeatureV) -> Seq<char> {
    match f {
        FeatureV::Used { name, .. } => name,
        FeatureV::Exposed { name } => name,
    }
}

/// A feature, as the engine records it.
pub enum Feature {
    /// A feature that is used inside the code. The path and line number are
    /// kept so that a clickable link can be printed for it.
    UsedFeature { name: String, path: String, line_number: u64 },
    /// A feature that is exposed by a manifest.
    ExposedFeature { name: String },
}

impl View for Feature {
    type V = FeatureV;

    open spec fn view(&self) -> FeatureV {
        match self {
            Feature::UsedFeature { name, path, line_number } => FeatureV::Used {
                name: name@,
                path: path@,
                line_number: *line_number,
            },
            Feature::ExposedFeature { name } => FeatureV::Exposed { name: name@ },
        }
    }
}

impl Clone for Feature {
    fn clone(&self) -> (r: Self)
        ensures
            r == *self,
    {
        match self {
            Feature::UsedFeature { name, path, line_number } => Feature::UsedFeature {
                name: name.clone(),
                path: path.clone(),
                line_number: *line_number,
            },
            Feature::ExposedFeature { name } => Feature::ExposedFeature { name: name.clone() },
        }
    }
}

/// The human-navigable locator `<path>:<line_number>`.
pub open spec fn clickable_of(path: Seq<char>, line_number: u64) -> Seq<char> {
    path + seq![':'] + dec_rep(line_number as nat)
}

impl Feature {
    /// Returns the path to the file the feature was seen in, if there is
    /// one.
    pub fn path(&self) -> (r: Option<&String>)
        ensures
            match self@ {
                FeatureV::Used { path, .. } => r is Some && r->Some_0@ == path,
                FeatureV::Exposed { .. } => r is None,
            },
    {
        match self {
            Feature::UsedFeature { path, .. } => Some(path),
            Feature::ExposedFeature { .. } => None,
        }
    }

    /// Returns a clickable link to the feature inside the code.
    pub fn clickable_path(&self) -> (r: Option<String>)
        ensures
            match self@ {
                FeatureV::Used { path, line_number, .. } => r is Some && r->Some_0@
                    == clickable_of(path, line_number),
                FeatureV::Exposed { .. } => r is None,
            },
    {
        match self {
            Feature::UsedFeature { path, line_number, .. } => {
                let mut s = path.clone();
                s.append(":");
                let num = u64_to_string(*line_number);
                s.append(num.as_str());
                proof {
                    reveal_strlit(":");
                    assert(s@ =~= path@ + seq![':'] + dec_rep(*line_number as nat));
                }
                Some(s)
            },
            Feature::ExposedFeature { .. } => None,
        }
    }

    /// Returns the name of the feature.
    pub fn name(&self) -> (r: &str)
        ensures
            r@ == feature_name(self@),
    {
        match self {
            Feature::UsedFeature { name, .. } => name.as_str(),
            Feature::ExposedFeature { name } => name.as_str(),
        }
    }
}

} // verus!
