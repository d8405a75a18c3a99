//! Confidence tiers and the verifiability boundary: the vocabulary of the whole
//! system. The loop engine is the sole authority for assigning these.

use vstd::prelude::*;
use crate::json::{push_str_array, str_array_spec, strings_view};
use crate::text::{push_str, string_of};

verus! {

/// A single confidence tier. The system never silently promotes a tier.
#[derive(Debug, Clone, Copy, PartialEq, Eq, Structural)]
pub enum Tier {
    /// A deterministic oracle proved it. Reproducible.
    Verified,
    /// Mechanically correct, but a human must confirm intent/fitness.
    Assisted,
    /// Best-effort model output with no oracle behind it.
    Advisory,
    /// Not supported; the system refuses rather than guesses.
    OutOfScope,
}

/// The compact console symbol of a tier.
pub open spec fn symbol_spec(t: Tier) -> Seq<char> {
    match t {
        Tier::Verified => "[OK]"@,
        Tier::Assisted => "[~]"@,
        Tier::Advisory => "[!]"@,
        Tier::OutOfScope => "[X]"@,
    }
}

/// The machine name of a tier.
pub open spec fn tier_name(t: Tier) -> Seq<char> {
    match t {
        Tier::Verified => "verified"@,
        Tier::Assisted => "assisted"@,
        Tier::Advisory => "advisory"@,
        Tier::OutOfScope => "out_of_scope"@,
    }
}

impl Tier {
    pub fn symbol(&self) -> (r: &'static str)
        ensures
            r@ == symbol_spec(*self),
    {
        match self {
            Tier::Verified => "[OK]",
            Tier::Assisted => "[~]",
            Tier::Advisory => "[!]",
            Tier::OutOfScope => "[X]",
        }
    }

    pub fn as_str(&self) -> (r: &'static str)
        ensures
            r@ == tier_name(*self),
    {
        match self {
            Tier::Verified => "verified",
            Tier::Assisted => "assisted",
            Tier::Advisory => "advisory",
            Tier::OutOfScope => "out_of_scope",
        }
    }
}

/// What a simulation actually exercised, attached to every VERIFIED result so
/// an unmodeled aspect (RF, analog) can never be presented as verified.
#[derive(Debug, Clone)]
pub struct VerifiabilityBoundary {
    pub verified: Vec<String>,
    pub stubbed: Vec<String>,
    pub not_modeled: Vec<String>,
}

#[verifier::ext_equal]
pub struct BoundaryView {
    pub verified: Seq<Seq<char>>,
    pub stubbed: Seq<Seq<char>>,
    pub not_modeled: Seq<Seq<char>>,
}

impl View for VerifiabilityBoundary {
    type V = BoundaryView;

    open spec fn view(&self) -> BoundaryView {
        BoundaryView {
            verified: strings_view(self.verified@),
            stubbed: strings_view(self.stubbed@),
            not_modeled: strings_view(self.not_modeled@),
        }
    }
}

/// The JSON object form of a boundary.
pub open spec fn boundary_json_spec(b: BoundaryView) -> Seq<char> {
    "{\"verified\":"@ + str_array_spec(b.verified) + ",\"stubbed\":"@ + str_array_spec(b.stubbed)
        + ",\"not_modeled\":"@ + str_array_spec(b.not_modeled) + "}"@
}

impl Default for VerifiabilityBoundary {
    fn default() -> (r: Self)
        ensures
            r.verified@.len() == 0,
            r.stubbed@.len() == 0,
            r.not_modeled@.len() == 0,
    {
        VerifiabilityBoundary { verified: Vec::new(), stubbed: Vec::new(), not_modeled: Vec::new() }
    }
}

impl VerifiabilityBoundary {
    /// Appends the JSON object form of this boundary.
    pub fn push_json(&self, out: &mut Vec<char>)
        ensures
            final(out)@ == old(out)@ + boundary_json_spec(self@),
    {
        let ghost start = out@;
        push_str(out, "{\"verified\":");
        push_str_array(out, self.verified.as_slice());
        push_str(out, ",\"stubbed\":");
        push_str_array(out, self.stubbed.as_slice());
        push_str(out, ",\"not_modeled\":");
        push_str_array(out, self.not_modeled.as_slice());
        push_str(out, "}");
        assert(out@ =~= start + boundary_json_spec(self@));
    }

    pub fn to_json(&self) -> (r: String)
        ensures
            r@ == boundary_json_spec(self@),
    {
        let mut out: Vec<char> = Vec::new();
        self.push_json(&mut out);
        assert(out@ =~= boundary_json_spec(self@));
        string_of(&out)
    }
}

} // verus!
