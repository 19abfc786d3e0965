//! The theme catalog: the named variants, their display names and
//! light/dark classification, and cycling through them. The colour values
//! themselves belong to the rendering layer.
use vstd::prelude::*;

verus! {

/// The available theme variants.
#[derive(Debug, Clone, Copy, PartialEq, Eq, Structural)]
pub enum ThemeVariant {
    TokyoNightDark,
    TokyoNightLight,
    DraculaDark,
    GruvboxDark,
    GruvboxLight,
    NordDark,
    SolarizedDark,
    SolarizedLight,
    MonokaiDark,
    CatppuccinDark,
    OneDark,
    Ayu,
}

impl Default for ThemeVariant {
    fn default() -> (r: Self)
        ensures
            r is TokyoNightDark,
    {
        ThemeVariant::TokyoNightDark
    }
}

/// The catalog order the variants cycle through.
pub open spec fn variant_order() -> Seq<ThemeVariant> {
    seq![
        ThemeVariant::TokyoNightDark,
        ThemeVariant::TokyoNightLight,
        ThemeVariant::DraculaDark,
        ThemeVariant::GruvboxDark,
        ThemeVariant::GruvboxLight,
        ThemeVariant::NordDark,
        ThemeVariant::SolarizedDark,
        ThemeVariant::SolarizedLight,
        ThemeVariant::MonokaiDark,
        ThemeVariant::CatppuccinDark,
        ThemeVariant::OneDark,
        ThemeVariant::Ayu,
    ]
}

/// The variant after this one in catalog order, wrapping around.
pub open spec fn next_variant_spec(v: ThemeVariant) -> ThemeVariant {
    match v {
        ThemeVariant::TokyoNightDark => ThemeVariant::TokyoNightLight,
        ThemeVariant::TokyoNightLight => ThemeVariant::DraculaDark,
        ThemeVariant::DraculaDark => ThemeVariant::GruvboxDark,
        ThemeVariant::GruvboxDark => ThemeVariant::GruvboxLight,
        ThemeVariant::GruvboxLight => ThemeVariant::NordDark,
        ThemeVariant::NordDark => ThemeVariant::SolarizedDark,
        ThemeVariant::SolarizedDark => ThemeVariant::SolarizedLight,
        ThemeVariant::SolarizedLight => ThemeVariant::MonokaiDark,
        ThemeVariant::MonokaiDark => ThemeVariant::CatppuccinDark,
        ThemeVariant::CatppuccinDark => ThemeVariant::OneDark,
        ThemeVariant::OneDark => ThemeVariant::Ayu,
        ThemeVariant::Ayu => ThemeVariant::TokyoNightDark,
    }
}

/// The variant before this one in catalog order, wrapping around.
pub open spec fn previous_variant_spec(v: ThemeVariant) -> ThemeVariant {
    match v {
        ThemeVariant::TokyoNightDark => ThemeVariant::Ayu,
        ThemeVariant::TokyoNightLight => ThemeVariant::TokyoNightDark,
        ThemeVariant::DraculaDark => ThemeVariant::TokyoNightLight,
        ThemeVariant::GruvboxDark => ThemeVariant::DraculaDark,
        ThemeVariant::GruvboxLight => ThemeVariant::GruvboxDark,
        ThemeVariant::NordDark => ThemeVariant::GruvboxLight,
        ThemeVariant::SolarizedDark => ThemeVariant::NordDark,
        ThemeVariant::SolarizedLight => ThemeVariant::SolarizedDark,
        ThemeVariant::MonokaiDark => ThemeVariant::SolarizedLight,
        ThemeVariant::CatppuccinDark => ThemeVariant::MonokaiDark,
        ThemeVariant::OneDark => ThemeVariant::CatppuccinDark,
        ThemeVariant::Ayu => ThemeVariant::OneDark,
    }
}

impl ThemeVariant {
    /// All variants in catalog order.
    pub fn all() -> (r: Vec<ThemeVariant>)
        ensures
            r@ == variant_order(),
    {
        let mut r: Vec<ThemeVariant> = Vec::new();
        r.push(ThemeVariant::TokyoNightDark);
        r.push(ThemeVariant::TokyoNightLight);
        r.push(ThemeVariant::DraculaDark);
        r.push(ThemeVariant::GruvboxDark);
        r.push(ThemeVariant::GruvboxLight);
        r.push(ThemeVariant::NordDark);
        r.push(ThemeVariant::SolarizedDark);
        r.push(ThemeVariant::SolarizedLight);
        r.push(ThemeVariant::MonokaiDark);
        r.push(ThemeVariant::CatppuccinDark);
        r.push(ThemeVariant::OneDark);
        r.push(ThemeVariant::Ayu);
        proof {
            assert(r@ =~= variant_order());
        }
        r
    }

    pub fn name(&self) -> (r: &'static str)
        ensures
            self is TokyoNightDark ==> r@ == "Tokyo Night (Dark)"@,
            self is TokyoNightLight ==> r@ == "Tokyo Night (Light)"@,
            self is DraculaDark ==> r@ == "Dracula"@,
            self is GruvboxDark ==> r@ == "Gruvbox (Dark)"@,
            self is GruvboxLight ==> r@ == "Gruvbox (Light)"@,
            self is NordDark ==> r@ == "Nord"@,
            self is SolarizedDark ==> r@ == "Solarized (Dark)"@,
            self is SolarizedLight ==> r@ == "Solarized (Light)"@,
            self is MonokaiDark ==> r@ == "Monokai"@,
            self is CatppuccinDark ==> r@ == "Catppuccin"@,
            self is OneDark ==> r@ == "One Dark"@,
            self is Ayu ==> r@ == "Ayu"@,
    {
        match self {
            ThemeVariant::TokyoNightDark => "Tokyo Night (Dark)",
            ThemeVariant::TokyoNightLight => "Tokyo Night (Light)",
            ThemeVariant::DraculaDark => "Dracula",
            ThemeVariant::GruvboxDark => "Gruvbox (Dark)",
            ThemeVariant::GruvboxLight => "Gruvbox (Light)",
            ThemeVariant::NordDark => "Nord",
            ThemeVariant::SolarizedDark => "Solarized (Dark)",
            ThemeVariant::SolarizedLight => "Solarized (Light)",
            ThemeVariant::MonokaiDark => "Monokai",
            ThemeVariant::CatppuccinDark => "Catppuccin",
            ThemeVariant::OneDark => "One Dark",
            ThemeVariant::Ayu => "Ayu",
        }
    }

    /// Whether the variant has a dark background.
    pub fn is_dark(&self) -> (r: bool)
        ensures
            r == !(self is TokyoNightLight || self is GruvboxLight || self is SolarizedLight),
    {
        match self {
            ThemeVariant::TokyoNightLight
            | ThemeVariant::GruvboxLight
            | ThemeVariant::SolarizedLight => false,
            _ => true,
        }
    }

    /// The variant after this one in catalog order.
    pub fn next_variant(&self) -> (r: ThemeVariant)
        ensures
            r == next_variant_spec(*self),
    {
        match self {
            ThemeVariant::TokyoNightDark => ThemeVariant::TokyoNightLight,
            ThemeVariant::TokyoNightLight => ThemeVariant::DraculaDark,
            ThemeVariant::DraculaDark => ThemeVariant::GruvboxDark,
            ThemeVariant::GruvboxDark => ThemeVariant::GruvboxLight,
            ThemeVariant::GruvboxLight => ThemeVariant::NordDark,
            ThemeVariant::NordDark => ThemeVariant::SolarizedDark,
            ThemeVariant::SolarizedDark => ThemeVariant::SolarizedLight,
            ThemeVariant::SolarizedLight => ThemeVariant::MonokaiDark,
            ThemeVariant::MonokaiDark => ThemeVariant::CatppuccinDark,
            ThemeVariant::CatppuccinDark => ThemeVariant::OneDark,
            ThemeVariant::OneDark => ThemeVariant::Ayu,
            ThemeVariant::Ayu => ThemeVariant::TokyoNightDark,
        }
    }

    /// The variant before this one in catalog order.
    pub fn previous_variant(&self) -> (r: ThemeVariant)
        ensures
            r == previous_variant_spec(*self),
    {
        match self {
            ThemeVariant::TokyoNightDark => ThemeVariant::Ayu,
            ThemeVariant::TokyoNightLight => ThemeVariant::TokyoNightDark,
            ThemeVariant::DraculaDark => ThemeVariant::TokyoNightLight,
            ThemeVariant::GruvboxDark => ThemeVariant::DraculaDark,
            ThemeVariant::GruvboxLight => ThemeVariant::GruvboxDark,
            ThemeVariant::NordDark => ThemeVariant::GruvboxLight,
            ThemeVariant::SolarizedDark => ThemeVariant::NordDark,
            ThemeVariant::SolarizedLight => ThemeVariant::SolarizedDark,
            ThemeVariant::MonokaiDark => ThemeVariant::SolarizedLight,
            ThemeVariant::CatppuccinDark => ThemeVariant::MonokaiDark,
            ThemeVariant::OneDark => ThemeVariant::CatppuccinDark,
            ThemeVariant::Ayu => ThemeVariant::OneDark,
        }
    }

    /// The two cycling directions undo one another.
    pub proof fn lemma_cycle_round_trip(v: ThemeVariant)
        ensures
            previous_variant_spec(next_variant_spec(v)) == v,
            next_variant_spec(previous_variant_spec(v)) == v,
    {
    }
}

} // verus!
