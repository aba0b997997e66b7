//! Capability profiles: static, per-model printer characteristics.
//!
//! A profile is looked up by model name when a printer is added and then
//! shared read-only.  The fields kept here are exactly what the renderer
//! sizes its output with: the primary font's line width in characters, and
//! the print medium's pixel density and pixel width.
use vstd::prelude::*;

verus! {

/// The capability record for one printer model.
#[derive(Debug, PartialEq, Clone)]
pub struct Profile {
    /// The model name this profile was registered under.
    pub name: String,
    /// Characters per line of the printer's primary font, when known.
    pub font_columns: Option<u8>,
    /// Dots per inch of the print medium, when known.
    pub dpi: Option<u16>,
    /// Width of the print medium in pixels, when known.
    pub width_px: Option<u16>,
}

/// Mathematical model of a capability record.
pub struct ProfileModel {
    pub name: Seq<char>,
    pub font_columns: Option<u8>,
    pub dpi: Option<u16>,
    pub width_px: Option<u16>,
}

impl View for Profile {
    type V = ProfileModel;

    open spec fn view(&self) -> ProfileModel {
        ProfileModel {
            name: self.name@,
            font_columns: self.font_columns,
            dpi: self.dpi,
            width_px: self.width_px,
        }
    }
}

impl Profile {
    /// A field-for-field copy of this record.
    pub fn duplicate(&self) -> (r: Profile)
        ensures
            r@ == self@,
    {
        Profile {
            name: self.name.clone(),
            font_columns: self.font_columns,
            dpi: self.dpi,
            width_px: self.width_px,
        }
    }
}

/// What the static profile table holds for a model name, if anything: the
/// table is fixed data, so the result is a function of the name alone.
pub uninterp spec fn profile_record(model: Seq<char>) -> Option<ProfileModel>;

/// Relies on escpos_db::ALL_PROFILES: the static capability table, keyed by
/// model name; this reads out the fields the renderer needs.
#[verifier::external_body]
pub fn lookup_profile(model: &str) -> (r: Option<Profile>)
    ensures
        r is Some <==> profile_record(model@) is Some,
        r matches Some(p) ==> profile_record(model@) == Some(p@),
{
    escpos_db::ALL_PROFILES.get(model).map(|p| Profile {
        name: p.name.to_string(),
        font_columns: p.fonts.get(0).map(|f| f.columns),
        dpi: p.media.dpi,
        width_px: p.media.width.as_ref().map(|w| w.px),
    })
}

} // verus!
