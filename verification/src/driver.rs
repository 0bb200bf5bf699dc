//! The frame driver: one scene per frame, in order of time, each brought
//! before the camera and rasterized.

use vstd::prelude::*;
use crate::frame::depicts;
use crate::frame::lemma_depiction_is_unique;
use crate::frame::rasterize;
use crate::frame::Frame;
use crate::palette::ColourScheme;
use crate::scene::reshaped;
use crate::scene::Group;
use crate::scene::Sphere;
use crate::time::Fraction;

verus! {

/// The fixed parameters of one animation: the size of its frames, how many
/// there are, and for how long each is shown, in seconds, as a numerator and a
/// denominator.
#[derive(Clone, Copy, Debug)]
pub struct Animation {
    pub width: u32,
    pub height: u32,
    pub total_frames: u32,
    pub delay_numerator: u16,
    pub delay_denominator: u16,
}

/// `frame` is frame `index` of the animation: the picture, as `probe` sees
/// it, of a scene that `build` gives for the moment `index / total_frames`
/// and the colour scheme, after `camera` has been applied to every sphere.
pub open spec fn frame_shows<
    G,
    B: Fn(Fraction, ColourScheme) -> Group<G>,
    C: Fn(&G) -> G,
    P: Fn(&G, u32, u32) -> Option<i64>,
>(
    frame: Frame,
    animation: Animation,
    index: int,
    scheme: ColourScheme,
    build: B,
    camera: C,
    probe: P,
) -> bool {
    &&& frame.width == animation.width
    &&& frame.height == animation.height
    &&& exists|scene: Group<G>, viewed: Group<G>|
        {
            &&& call_ensures(build, (moment_of(animation, index), scheme), scene)
            &&& #[trigger] reshaped(scene@, camera, viewed@)
            &&& depicts(frame, viewed@, probe)
        }
}

/// `frames` is the whole animation, in order of time.
pub open spec fn film_shows<
    G,
    B: Fn(Fraction, ColourScheme) -> Group<G>,
    C: Fn(&G) -> G,
    P: Fn(&G, u32, u32) -> Option<i64>,
>(
    frames: Seq<Frame>,
    animation: Animation,
    scheme: ColourScheme,
    build: B,
    camera: C,
    probe: P,
) -> bool {
    &&& frames.len() == animation.total_frames
    &&& forall|i: int|
        0 <= i < frames.len() ==> frame_shows(
            #[trigger] frames[i],
            animation,
            i,
            scheme,
            build,
            camera,
            probe,
        )
}

/// The moment at which frame `index` of the animation is shown.
pub open spec fn moment_of(animation: Animation, index: int) -> Fraction {
    Fraction { numerator: index as i64, denominator: animation.total_frames }
}

/// A scene can be shown: the camera may be called on the shape of every
/// sphere of it, and the probe on every shape that the camera may give for
/// one of them, at every pixel of a grid of `width` by `height`.
pub open spec fn can_show<G, C: Fn(&G) -> G, P: Fn(&G, u32, u32) -> Option<i64>>(
    scene: Seq<Sphere<G>>,
    camera: C,
    probe: P,
    width: u32,
    height: u32,
) -> bool {
    forall|k: int|
        0 <= k < scene.len() ==> {
            &&& call_requires(camera, (&(#[trigger] scene[k]).shape,))
            &&& forall|shape: G, col: u32, row: u32|
                call_ensures(camera, (&scene[k].shape,), shape) && col < width && row < height
                    ==> #[trigger] call_requires(probe, (&shape, col, row))
        }
}

/// The animation can be rendered with the three functions that the caller
/// hands in: the builder may be called on the moment of every frame, with the
/// colour scheme, and every scene that it may give there can be shown.
/// Nothing is asked of the functions on other moments, shapes or pixels.
pub open spec fn can_render<
    G,
    B: Fn(Fraction, ColourScheme) -> Group<G>,
    C: Fn(&G) -> G,
    P: Fn(&G, u32, u32) -> Option<i64>,
>(animation: Animation, scheme: ColourScheme, build: B, camera: C, probe: P) -> bool {
    forall|index: int|
        0 <= index < animation.total_frames ==> {
            &&& #[trigger] call_requires(build, (moment_of(animation, index), scheme))
            &&& forall|scene: Group<G>|
                #[trigger] call_ensures(build, (moment_of(animation, index), scheme), scene)
                    ==> can_show(scene@, camera, probe, animation.width, animation.height)
        }
}

/// Renders every frame of the animation, from the first to the last. For
/// frame `index` the scene is built for the moment `index / total_frames`,
/// moved before the camera, and rasterized at the animation's size.
pub fn render<
    G,
    B: Fn(Fraction, ColourScheme) -> Group<G>,
    C: Fn(&G) -> G,
    P: Fn(&G, u32, u32) -> Option<i64>,
>(animation: &Animation, scheme: ColourScheme, build: &B, camera: &C, probe: &P) -> (frames: Vec<
    Frame,
>)
    requires
        animation.width * animation.height <= usize::MAX,
        can_render(*animation, scheme, *build, *camera, *probe),
    ensures
        film_shows(frames@, *animation, scheme, *build, *camera, *probe),
{
    let mut frames: Vec<Frame> = Vec::new();
    let mut index: u32 = 0;
    while index < animation.total_frames
        invariant
            index <= animation.total_frames,
            animation.width * animation.height <= usize::MAX,
            can_render(*animation, scheme, *build, *camera, *probe),
            frames@.len() == index,
            forall|i: int|
                0 <= i < index ==> frame_shows(
                    #[trigger] frames@[i],
                    *animation,
                    i,
                    scheme,
                    *build,
                    *camera,
                    *probe,
                ),
        decreases animation.total_frames - index,
    {
        let moment = Fraction::of_frame(index, animation.total_frames);
        assert(moment == moment_of(*animation, index as int));
        assert(call_requires(*build, (moment_of(*animation, index as int), scheme)));
        let scene = build(moment, scheme);
        assert(call_ensures(*build, (moment_of(*animation, index as int), scheme), scene));
        assert(can_show(scene@, *camera, *probe, animation.width, animation.height));
        let viewed = scene.transform(camera);
        proof {
            assert forall|i: int, col: u32, row: u32|
                0 <= i < viewed@.len() && col < animation.width && row
                    < animation.height implies #[trigger] call_requires(
                *probe,
                (&viewed@[i].shape, col, row),
            ) by {
                assert(call_ensures(*camera, (&scene@[i].shape,), viewed@[i].shape));
            }
        }
        let frame = rasterize(&viewed, animation.width, animation.height, probe);
        proof {
            assert(reshaped(scene@, *camera, viewed@));
            assert(frame_shows(frame, *animation, index as int, scheme, *build, *camera, *probe));
        }
        let ghost before = frames@;
        frames.push(frame);
        proof {
            assert(forall|i: int| 0 <= i < index ==> frames@[i] == before[i]);
        }
        index += 1;
    }
    frames
}

/// Each of the three functions that a caller hands in gives one result only
/// for each input.
pub open spec fn single_valued<
    G,
    B: Fn(Fraction, ColourScheme) -> Group<G>,
    C: Fn(&G) -> G,
    P: Fn(&G, u32, u32) -> Option<i64>,
>(build: B, camera: C, probe: P) -> bool {
    &&& forall|moment: Fraction, scheme: ColourScheme, one: Group<G>, other: Group<G>|
        #[trigger] call_ensures(build, (moment, scheme), one) && #[trigger] call_ensures(
            build,
            (moment, scheme),
            other,
        ) ==> one == other
    &&& forall|shape: &G, one: G, other: G|
        #[trigger] call_ensures(camera, (shape,), one) && #[trigger] call_ensures(
            camera,
            (shape,),
            other,
        ) ==> one == other
    &&& forall|shape: &G, col: u32, row: u32, one: Option<i64>, other: Option<i64>|
        #[trigger] call_ensures(probe, (shape, col, row), one) && #[trigger] call_ensures(
            probe,
            (shape, col, row),
            other,
        ) ==> one == other
}

/// Rendering is repeatable: where the scene builder, the camera and the probe
/// each give one result only, two films of the same animation are the same,
/// frame for frame and pixel for pixel.
pub proof fn lemma_film_is_unique<
    G,
    B: Fn(Fraction, ColourScheme) -> Group<G>,
    C: Fn(&G) -> G,
    P: Fn(&G, u32, u32) -> Option<i64>,
>(
    one: Seq<Frame>,
    other: Seq<Frame>,
    animation: Animation,
    scheme: ColourScheme,
    build: B,
    camera: C,
    probe: P,
)
    requires
        film_shows(one, animation, scheme, build, camera, probe),
        film_shows(other, animation, scheme, build, camera, probe),
        single_valued(build, camera, probe),
    ensures
        one.len() == other.len(),
        forall|i: int| 0 <= i < one.len() ==> (#[trigger] one[i]).pixels@ == other[i].pixels@,
{
    assert forall|i: int| 0 <= i < one.len() implies (#[trigger] one[i]).pixels@
        == other[i].pixels@ by {
        let moment = moment_of(animation, i);
        assert(frame_shows(one[i], animation, i, scheme, build, camera, probe));
        assert(frame_shows(other[i], animation, i, scheme, build, camera, probe));
        let (scene, viewed) = choose|scene: Group<G>, viewed: Group<G>|
            {
                &&& call_ensures(build, (moment, scheme), scene)
                &&& #[trigger] reshaped(scene@, camera, viewed@)
                &&& depicts(one[i], viewed@, probe)
            };
        let (scene_again, viewed_again) = choose|scene: Group<G>, viewed: Group<G>|
            {
                &&& call_ensures(build, (moment, scheme), scene)
                &&& #[trigger] reshaped(scene@, camera, viewed@)
                &&& depicts(other[i], viewed@, probe)
            };
        assert(scene == scene_again);
        assert forall|k: int| 0 <= k < viewed@.len() implies viewed@[k] == viewed_again@[k] by {
            assert(call_ensures(camera, (&scene@[k].shape,), viewed@[k].shape));
            assert(call_ensures(camera, (&scene@[k].shape,), viewed_again@[k].shape));
            assert(viewed@[k].intensity == viewed_again@[k].intensity);
        }
        assert(viewed@ =~= viewed_again@);
        lemma_depiction_is_unique(one[i], other[i], viewed@, probe);
    }
}

} // verus!
