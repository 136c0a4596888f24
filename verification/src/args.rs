//! The enumerated choices the escape-time demos are configured with, and the
//! shader subroutine names they select.

use vstd::prelude::*;

verus! {

/// The Julia-set variants a demo can draw; each selects a shader subroutine.
#[derive(Clone, Copy, Debug, PartialEq, Eq, Structural)]
pub enum JuliaFunction {
    Cos,
    Sin,
    Rabbit,
    Siegel,
    Dragon,
    Amoeba,
    Flower1,
    Flower2,
    Cloud,
    Snowflakes,
    Dendrite,
    Ekg,
}

/// The shader subroutine name of a Julia function: `F` followed by the
/// variant's name.
pub open spec fn julia_subroutine_name(f: JuliaFunction) -> Seq<char> {
    match f {
        JuliaFunction::Cos => "FCos"@,
        JuliaFunction::Sin => "FSin"@,
        JuliaFunction::Rabbit => "FRabbit"@,
        JuliaFunction::Siegel => "FSiegel"@,
        JuliaFunction::Dragon => "FDragon"@,
        JuliaFunction::Amoeba => "FAmoeba"@,
        JuliaFunction::Flower1 => "FFlower1"@,
        JuliaFunction::Flower2 => "FFlower2"@,
        JuliaFunction::Cloud => "FCloud"@,
        JuliaFunction::Snowflakes => "FSnowflakes"@,
        JuliaFunction::Dendrite => "FDendrite"@,
        JuliaFunction::Ekg => "FEkg"@,
    }
}

impl Default for JuliaFunction {
    /// The variant the demos start with.
    fn default() -> (f: JuliaFunction)
        ensures
            f == JuliaFunction::Rabbit,
    {
        JuliaFunction::Rabbit
    }
}

impl JuliaFunction {
    /// The name of the shader subroutine that computes this function.
    pub fn subroutine_name(&self) -> (r: String)
        ensures
            r@ == julia_subroutine_name(*self),
    {
        match self {
            JuliaFunction::Cos => "FCos".to_owned(),
            JuliaFunction::Sin => "FSin".to_owned(),
            JuliaFunction::Rabbit => "FRabbit".to_owned(),
            JuliaFunction::Siegel => "FSiegel".to_owned(),
            JuliaFunction::Dragon => "FDragon".to_owned(),
            JuliaFunction::Amoeba => "FAmoeba".to_owned(),
            JuliaFunction::Flower1 => "FFlower1".to_owned(),
            JuliaFunction::Flower2 => "FFlower2".to_owned(),
            JuliaFunction::Cloud => "FCloud".to_owned(),
            JuliaFunction::Snowflakes => "FSnowflakes".to_owned(),
            JuliaFunction::Dendrite => "FDendrite".to_owned(),
            JuliaFunction::Ekg => "FEkg".to_owned(),
        }
    }
}

/// The color schemes iteration counts can be mapped through; each selects a
/// shader subroutine.
#[derive(Clone, Copy, Debug, PartialEq, Eq, Structural)]
pub enum ColorScheme {
    Inferno,
    Viridis,
    Plasma,
    Magma,
    Turbo,
}

/// The shader subroutine name of a color scheme: `ColorMap` followed by the
/// variant's name.
pub open spec fn color_scheme_subroutine_name(c: ColorScheme) -> Seq<char> {
    match c {
        ColorScheme::Inferno => "ColorMapInferno"@,
        ColorScheme::Viridis => "ColorMapViridis"@,
        ColorScheme::Plasma => "ColorMapPlasma"@,
        ColorScheme::Magma => "ColorMapMagma"@,
        ColorScheme::Turbo => "ColorMapTurbo"@,
    }
}

impl ColorScheme {
    /// The name of the shader subroutine that applies this color scheme.
    pub fn subroutine_name(&self) -> (r: String)
        ensures
            r@ == color_scheme_subroutine_name(*self),
    {
        match self {
            ColorScheme::Inferno => "ColorMapInferno".to_owned(),
            ColorScheme::Viridis => "ColorMapViridis".to_owned(),
            ColorScheme::Plasma => "ColorMapPlasma".to_owned(),
            ColorScheme::Magma => "ColorMapMagma".to_owned(),
            ColorScheme::Turbo => "ColorMapTurbo".to_owned(),
        }
    }
}

/// The configuration of the Julia demo: which function to draw and which
/// color scheme to map iteration counts through.
#[derive(Clone, Copy, Debug, PartialEq, Eq, Structural)]
pub struct JuliaArgs {
    pub julia_function: JuliaFunction,
    pub color_scheme: ColorScheme,
}

} // verus!
