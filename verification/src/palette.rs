//! Grey levels: the two colour schemes and the rules by which each animation
//! paints its spheres.

use vstd::prelude::*;

verus! {

/// How an animation is painted: as it is meant to be seen, or with every
/// sphere in a grey of its own, to show how the picture is built.
#[derive(Clone, Copy, Debug, PartialEq, Eq, Structural)]
pub enum ColourScheme {
    Standard,
    Explanatory,
}

/// The number of spheres that orbit in the beach ball.
pub const BEACHBALL_SPHERES: u8 = 8;

/// The number of spheres at the corners of the icosahedron of the football,
/// which cut the faces of its dodecahedron.
pub const DODECAHEDRON_SPHERES: usize = 12;

/// The number of spheres at the corners of the dodecahedron of the football,
/// which cut the faces of its icosahedron.
pub const ICOSAHEDRON_SPHERES: usize = 20;

/// The number of spheres that cut the star of the star ball.
pub const STAR_SPHERES: u8 = 10;

/// The grey of sphere `index` of the beach ball: eight greys in even steps,
/// round and round.
pub open spec fn beachball_shade(index: int) -> int {
    64 + 21 * (index % 8)
}

/// The grey of sphere `index` of the beach ball.
pub fn beachball_grey(index: u8) -> (grey: u8)
    ensures
        grey == beachball_shade(index as int),
{
    64 + 21 * (index % 8)
}

/// The greys of the twelve dark spheres of the football in the explanatory
/// scheme, in the order in which the spheres are placed.
pub open spec fn dodecahedron_shades() -> Seq<u8> {
    seq![50, 90, 70, 90, 70, 70, 50, 30, 30, 90, 30, 50]
}

/// The grey of dark sphere `vertex` of the football: black as it is meant to
/// be seen, and one of four dark greys to tell the spheres apart.
pub fn dodecahedron_grey(vertex: usize, scheme: ColourScheme) -> (grey: u8)
    requires
        vertex < DODECAHEDRON_SPHERES,
    ensures
        grey == match scheme {
            ColourScheme::Standard => 0u8,
            ColourScheme::Explanatory => dodecahedron_shades()[vertex as int],
        },
{
    match scheme {
        ColourScheme::Standard => 0,
        ColourScheme::Explanatory => {
            let shades: [u8; 12] = [50, 90, 70, 90, 70, 70, 50, 30, 30, 90, 30, 50];
            shades[vertex]
        },
    }
}

/// The greys of the twenty light spheres of the football in the explanatory
/// scheme, in the order in which the spheres are placed.
pub open spec fn icosahedron_shades() -> Seq<u8> {
    seq![
        255, 235, 215, 215, 255, 215, 255, 235, 255, 235, 215, 255, 215, 255, 235, 235, 235, 215,
        235, 255,
    ]
}

/// The grey of light sphere `vertex` of the football: white as it is meant to
/// be seen, and one of three light greys to tell the spheres apart.
pub fn icosahedron_grey(vertex: usize, scheme: ColourScheme) -> (grey: u8)
    requires
        vertex < ICOSAHEDRON_SPHERES,
    ensures
        grey == match scheme {
            ColourScheme::Standard => 255u8,
            ColourScheme::Explanatory => icosahedron_shades()[vertex as int],
        },
{
    match scheme {
        ColourScheme::Standard => 255,
        ColourScheme::Explanatory => {
            let shades: [u8; 20] = [
                255, 235, 215, 215, 255, 215, 255, 235, 255, 235, 215, 255, 215, 255, 235, 235,
                235, 215, 235, 255,
            ];
            shades[vertex]
        },
    }
}

/// The grey of the two large spheres of the star ball.
pub fn starball_body_grey(scheme: ColourScheme) -> (grey: u8)
    ensures
        grey == match scheme {
            ColourScheme::Standard => 210u8,
            ColourScheme::Explanatory => 255u8,
        },
{
    match scheme {
        ColourScheme::Standard => 210,
        ColourScheme::Explanatory => 255,
    }
}

/// The grey of the stripe of the star ball, the same in both schemes.
pub fn starball_stripe_grey(_scheme: ColourScheme) -> (grey: u8)
    ensures
        grey == 50,
{
    50
}

/// The grey of sphere `index` of those that cut the star: two greys in turn,
/// and in the explanatory scheme a little lighter from sphere to sphere.
pub open spec fn starball_star_shade(index: int, scheme: ColourScheme) -> int {
    match scheme {
        ColourScheme::Standard => 100 + 110 * (index % 2),
        ColourScheme::Explanatory => 100 + 110 * (index % 2) + 5 * index,
    }
}

/// The grey of sphere `index` of those that cut the star.
pub fn starball_star_grey(index: u8, scheme: ColourScheme) -> (grey: u8)
    requires
        index < STAR_SPHERES,
    ensures
        grey == starball_star_shade(index as int, scheme),
{
    match scheme {
        ColourScheme::Standard => 100 + 110 * (index % 2),
        ColourScheme::Explanatory => 100 + 110 * (index % 2) + 5 * index,
    }
}

} // verus!
