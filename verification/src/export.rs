//! Packing finished frames into one animated image and wrapping the image as
//! a data URL.

use vstd::prelude::*;
use vstd::string::StringExecFns;
use base64::Engine;
use crate::driver::can_render;
use crate::driver::film_shows;
use crate::driver::lemma_film_is_unique;
use crate::driver::render;
use crate::driver::single_valued;
use crate::driver::Animation;
use crate::frame::Frame;
use crate::palette::ColourScheme;
use crate::scene::Group;
use crate::time::Fraction;

verus! {

/// `png::EncodingError`, the error of the `png` encoder, taken as it is:
/// nothing is known of what is inside.
#[verifier::external_type_specification]
#[verifier::external_body]
pub struct ExEncodingError(png::EncodingError);

/// Why an animation could not be rendered to a data URL.
#[derive(Clone, Copy, Debug, PartialEq, Eq, Structural)]
pub enum RenderError {
    /// The animation has no frames.
    NoFrames,
    /// The frames are zero pixels wide.
    ZeroWidth,
    /// The frames are zero pixels high.
    ZeroHeight,
    /// One frame has more pixels than a buffer can hold on this machine:
    /// more than `isize::MAX`.
    GridTooLarge,
    /// The frames handed over are not those of the animation: their number
    /// or the size of one of them differs.
    FrameMismatch,
    /// The image encoder gave up.
    Encoder,
    /// The encoded image is too long to be written as text.
    ImageTooLarge,
}

/// The number of times an animation is played that stands for playing it
/// without end.
pub const WITHOUT_END: u32 = 0;

/// The longest image that can be wrapped as a data URL.
pub const MAX_IMAGE_BYTES: usize = usize::MAX / 4;

/// What the `png` encoder makes of frames of `width` by `height` pixels,
/// eight bits each, shown for `numerator / denominator` seconds each and
/// played `plays` times: the bytes of the animated greyscale PNG that it
/// writes, or nothing where it refuses them. The encoder decides which, and
/// what the bytes are; this is only the name of its answer.
pub uninterp spec fn apng_encoding(
    width: u32,
    height: u32,
    plays: u32,
    numerator: u16,
    denominator: u16,
    frames: Seq<Seq<u8>>,
) -> Option<Seq<u8>>;

/// The text that `base64` gives for `bytes` in the standard alphabet, with
/// padding. The crate decides what it is; this is only its name.
pub uninterp spec fn base64_text(bytes: Seq<u8>) -> Seq<char>;

/// The pixel buffers of `frames`, in order.
pub open spec fn buffers(frames: Seq<Frame>) -> Seq<Seq<u8>> {
    Seq::new(frames.len(), |i: int| frames[i].pixels@)
}

/// The encoded image of `frames` shown as `animation` asks and played without
/// end, or nothing where the encoder refuses them.
pub open spec fn image_of(animation: Animation, frames: Seq<Frame>) -> Option<Seq<u8>> {
    apng_encoding(
        animation.width,
        animation.height,
        WITHOUT_END,
        animation.delay_numerator,
        animation.delay_denominator,
        buffers(frames),
    )
}

/// The scheme and media type that every data URL of this library starts with.
pub open spec fn url_prefix() -> Seq<char> {
    "data:image/png;base64,"@
}

/// The data URL of an encoded image.
pub open spec fn url_of(image: Seq<u8>) -> Seq<char> {
    url_prefix() + base64_text(image)
}

/// What becomes of the encoder's answer: a refusal is reported as such, an
/// image too long for a data URL is refused, and any other image is wrapped.
pub open spec fn published(image: Option<Seq<u8>>) -> Result<Seq<char>, RenderError> {
    match image {
        None => Err(RenderError::Encoder),
        Some(bytes) => if bytes.len() <= MAX_IMAGE_BYTES {
            Ok(url_of(bytes))
        } else {
            Err(RenderError::ImageTooLarge)
        },
    }
}

/// `outcome` is what `model` says it is: the same error, or a string of the
/// same text.
pub open spec fn agrees(
    outcome: Result<String, RenderError>,
    model: Result<Seq<char>, RenderError>,
) -> bool {
    match outcome {
        Ok(url) => model == Ok::<Seq<char>, RenderError>(url@),
        Err(error) => model == Err::<Seq<char>, RenderError>(error),
    }
}

/// What is wrong with the parameters of `animation`, if anything: the first
/// of no frames, no width, no height, and a grid of more than `isize::MAX`
/// pixels.
pub open spec fn animation_refusal(animation: Animation) -> Option<RenderError> {
    if animation.total_frames == 0 {
        Some(RenderError::NoFrames)
    } else if animation.width == 0 {
        Some(RenderError::ZeroWidth)
    } else if animation.height == 0 {
        Some(RenderError::ZeroHeight)
    } else if animation.width * animation.height > isize::MAX {
        Some(RenderError::GridTooLarge)
    } else {
        None
    }
}

/// `frames` are as many as `animation` has, each of its size.
pub open spec fn frames_fit(animation: Animation, frames: Seq<Frame>) -> bool {
    &&& frames.len() == animation.total_frames
    &&& forall|i: int|
        0 <= i < frames.len() ==> {
            &&& (#[trigger] frames[i]).width == animation.width
            &&& frames[i].height == animation.height
            &&& frames[i].wf()
        }
}

/// What exporting `frames` as `animation` comes to: the first fault of the
/// parameters; else a mismatch where the frames are not those of the
/// animation; else what is published of the encoder's answer.
pub open spec fn exported(animation: Animation, frames: Seq<Frame>) -> Result<
    Seq<char>,
    RenderError,
> {
    match animation_refusal(animation) {
        Some(error) => Err(error),
        None => if frames_fit(animation, frames) {
            published(image_of(animation, frames))
        } else {
            Err(RenderError::FrameMismatch)
        },
    }
}

/// Runs one session of `png::Encoder` and its `png::Writer` over a byte
/// vector: `Encoder::new`, `set_color` to greyscale, `set_depth` to eight
/// bits, `set_animated` with one frame per buffer and the given number of
/// plays, `set_frame_delay`, `write_header`, `Writer::write_image_data` for
/// every buffer in order, and `Writer::finish`. The writer holds on to the
/// vector until it is finished, so the session cannot be cut into separate
/// calls.
///
/// Trusted: whether the session succeeds, and the bytes it leaves when it
/// does, are the answer named `apng_encoding` for these parameters and
/// buffers, that is, they depend on nothing else. Nothing is claimed about
/// which answer it is. The demands keep away the sizes on which the encoder's
/// own arithmetic would overflow.
#[verifier::external_body]
fn encode_apng(animation: &Animation, plays: u32, frames: &Vec<Frame>) -> (encoded: Result<
    Vec<u8>,
    png::EncodingError,
>)
    requires
        animation_refusal(*animation) is None,
        frames_fit(*animation, frames@),
    ensures
        match encoded {
            Ok(bytes) => apng_encoding(
                animation.width,
                animation.height,
                plays,
                animation.delay_numerator,
                animation.delay_denominator,
                buffers(frames@),
            ) == Some(bytes@),
            Err(_) => apng_encoding(
                animation.width,
                animation.height,
                plays,
                animation.delay_numerator,
                animation.delay_denominator,
                buffers(frames@),
            ) is None,
        },
{
    let mut bytes: Vec<u8> = Vec::new();
    let mut encoder = png::Encoder::new(&mut bytes, animation.width, animation.height);
    encoder.set_color(png::ColorType::Grayscale);
    encoder.set_depth(png::BitDepth::Eight);
    encoder.set_animated(animation.total_frames, plays)?;
    encoder.set_frame_delay(animation.delay_numerator, animation.delay_denominator)?;
    let mut writer = encoder.write_header()?;
    for frame in frames {
        writer.write_image_data(&frame.pixels)?;
    }
    writer.finish()?;
    Ok(bytes)
}

/// Calls `Engine::encode` on `base64::engine::general_purpose::STANDARD`.
///
/// Trusted: the string it returns is the text named `base64_text` for these
/// bytes, that is, it depends on nothing else. The demand keeps away the
/// lengths for which the crate cannot size its buffer and panics.
#[verifier::external_body]
fn encode_base64(bytes: &Vec<u8>) -> (text: String)
    requires
        bytes.len() <= MAX_IMAGE_BYTES,
    ensures
        text@ == base64_text(bytes@),
{
    base64::engine::general_purpose::STANDARD.encode(bytes)
}

/// The data URL of an encoded image.
pub fn wrap_data_url(image: &Vec<u8>) -> (url: String)
    requires
        image.len() <= MAX_IMAGE_BYTES,
    ensures
        url@ == url_of(image@),
{
    let text = encode_base64(image);
    String::from_str("data:image/png;base64,").concat(text.as_str())
}

/// What becomes of the encoder's answer: a refusal is reported as such, an
/// image too long for a data URL is refused, and any other image is wrapped.
pub fn publish(encoded: Result<Vec<u8>, png::EncodingError>) -> (outcome: Result<
    String,
    RenderError,
>)
    ensures
        agrees(
            outcome,
            published(
                match encoded {
                    Ok(image) => Some(image@),
                    Err(_) => None,
                },
            ),
        ),
{
    match encoded {
        Ok(image) => {
            if image.len() <= MAX_IMAGE_BYTES {
                Ok(wrap_data_url(&image))
            } else {
                Err(RenderError::ImageTooLarge)
            }
        },
        Err(_) => Err(RenderError::Encoder),
    }
}

impl Animation {
    /// Checks the parameters of the animation.
    pub fn check(&self) -> (outcome: Result<(), RenderError>)
        ensures
            outcome == match animation_refusal(*self) {
                Some(error) => Err::<(), RenderError>(error),
                None => Ok::<(), RenderError>(()),
            },
    {
        assert(self.width * self.height <= u64::MAX) by (nonlinear_arith)
            requires
                self.width <= u32::MAX,
                self.height <= u32::MAX,
        ;
        if self.total_frames == 0 {
            Err(RenderError::NoFrames)
        } else if self.width == 0 {
            Err(RenderError::ZeroWidth)
        } else if self.height == 0 {
            Err(RenderError::ZeroHeight)
        } else if self.width as u64 * self.height as u64 > isize::MAX as u64 {
            Err(RenderError::GridTooLarge)
        } else {
            Ok(())
        }
    }

    /// Whether `frames` are as many as the animation has, each of its size.
    pub fn fits(&self, frames: &Vec<Frame>) -> (fit: bool)
        ensures
            fit == frames_fit(*self, frames@),
    {
        if frames.len() as u64 != self.total_frames as u64 {
            return false;
        }
        assert(self.width * self.height <= u64::MAX) by (nonlinear_arith)
            requires
                self.width <= u32::MAX,
                self.height <= u32::MAX,
        ;
        let size: u64 = self.width as u64 * self.height as u64;
        let mut i: usize = 0;
        while i < frames.len()
            invariant
                i <= frames.len(),
                frames.len() == self.total_frames,
                size == self.width * self.height,
                forall|j: int|
                    0 <= j < i ==> {
                        &&& (#[trigger] frames@[j]).width == self.width
                        &&& frames@[j].height == self.height
                        &&& frames@[j].wf()
                    },
            decreases frames.len() - i,
        {
            let frame = &frames[i];
            if frame.width != self.width || frame.height != self.height
                || frame.pixels.len() as u64 != size {
                return false;
            }
            i += 1;
        }
        true
    }
}

/// Packs finished frames into one animated image and wraps it as a data URL.
/// The parameters are checked first, then the frames against them. Of valid
/// frames a data URL is returned exactly when the encoder accepts them and
/// its image is short enough to be written as text.
pub fn export(animation: &Animation, frames: &Vec<Frame>) -> (outcome: Result<String, RenderError>)
    ensures
        agrees(outcome, exported(*animation, frames@)),
{
    match animation.check() {
        Err(error) => Err(error),
        Ok(_) => {
            if animation.fits(frames) {
                publish(encode_apng(animation, WITHOUT_END, frames))
            } else {
                Err(RenderError::FrameMismatch)
            }
        },
    }
}

/// Renders the whole animation and returns it as a data URL: every frame in
/// order of time, packed into one animated image, written as base64 text
/// behind the prefix of a PNG data URL.
pub fn data_url<
    G,
    B: Fn(Fraction, ColourScheme) -> Group<G>,
    C: Fn(&G) -> G,
    P: Fn(&G, u32, u32) -> Option<i64>,
>(
    animation: &Animation,
    scheme: ColourScheme,
    build: &B,
    camera: &C,
    probe: &P,
) -> (outcome: Result<String, RenderError>)
    requires
        can_render(*animation, scheme, *build, *camera, *probe),
    ensures
        animation_refusal(*animation) matches Some(error) ==> outcome == Err::<String, RenderError>(
            error,
        ),
        animation_refusal(*animation) is None ==> exists|frames: Seq<Frame>|
            {
                &&& #[trigger] film_shows(frames, *animation, scheme, *build, *camera, *probe)
                &&& agrees(outcome, exported(*animation, frames))
            },
{
    match animation.check() {
        Err(error) => Err(error),
        Ok(_) => {
            let frames = render(animation, scheme, build, camera, probe);
            proof {
                assert forall|i: int| 0 <= i < frames@.len() implies {
                    &&& (#[trigger] frames@[i]).width == animation.width
                    &&& frames@[i].height == animation.height
                    &&& frames@[i].wf()
                } by {
                    assert(crate::driver::frame_shows(
                        frames@[i],
                        *animation,
                        i,
                        scheme,
                        *build,
                        *camera,
                        *probe,
                    ));
                }
            }
            export(animation, &frames)
        },
    }
}

/// Rendering twice comes to the same: where the scene builder, the camera
/// and the probe each give one result only, any two films of the same
/// animation have the same buffers, are accepted or refused alike by the
/// encoder, and are exported to the same data URL or the same error.
pub proof fn lemma_data_url_is_unique<
    G,
    B: Fn(Fraction, ColourScheme) -> Group<G>,
    C: Fn(&G) -> G,
    P: Fn(&G, u32, u32) -> Option<i64>,
>(
    one: Seq<Frame>,
    other: Seq<Frame>,
    animation: Animation,
    scheme: ColourScheme,
    build: B,
    camera: C,
    probe: P,
)
    requires
        film_shows(one, animation, scheme, build, camera, probe),
        film_shows(other, animation, scheme, build, camera, probe),
        single_valued(build, camera, probe),
    ensures
        buffers(one) == buffers(other),
        image_of(animation, one) == image_of(animation, other),
        exported(animation, one) == exported(animation, other),
{
    lemma_film_is_unique(one, other, animation, scheme, build, camera, probe);
    assert(buffers(one) =~= buffers(other));
    assert forall|i: int| 0 <= i < one.len() implies {
        &&& (#[trigger] one[i]).width == animation.width
        &&& one[i].height == animation.height
        &&& one[i].wf()
    } by {
        assert(crate::driver::frame_shows(one[i], animation, i, scheme, build, camera, probe));
    }
    assert forall|i: int| 0 <= i < other.len() implies {
        &&& (#[trigger] other[i]).width == animation.width
        &&& other[i].height == animation.height
        &&& other[i].wf()
    } by {
        assert(crate::driver::frame_shows(other[i], animation, i, scheme, build, camera, probe));
    }
}

} // verus!
