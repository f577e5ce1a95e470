//! Recording of rendered frames: which frames are handed to the sink, when
//! a looping animation is complete, and how the sink numbers what it gets.

use vstd::prelude::*;
use image::RgbaImage;
use crate::config::Config;

verus! {

/// An RGBA image of the `image` crate (`image::RgbaImage`), ready to be
/// encoded. Nothing inside it is visible to verification: what is known of
/// a picture is stated through [`picture_bytes`] and
/// [`picture_dimensions`].
#[verifier::external_body]
pub struct Picture {
    pub image: RgbaImage,
}

/// The bytes that a picture holds, row by row, four per pixel.
pub uninterp spec fn picture_bytes(picture: Picture) -> Seq<u8>;

/// Width and height of a picture, in pixels.
pub uninterp spec fn picture_dimensions(picture: Picture) -> (u32, u32);

/// Calls `image::ImageBuffer::from_raw` for RGBA pixels over a `Vec<u8>`.
///
/// The buffer becomes an image when it holds at least four bytes for each
/// of `width * height` pixels; the image then owns these very bytes and has
/// the given dimensions. A shorter buffer gives `None`.
#[verifier::external_body]
fn picture_from_raw(width: u32, height: u32, bytes: Vec<u8>) -> (picture: Option<Picture>)
    ensures
        picture is Some <==> 4 * width * height <= bytes@.len(),
        picture matches Some(p) ==> picture_bytes(p) == bytes@ && picture_dimensions(p) == (
            width,
            height,
        ),
{
    match RgbaImage::from_raw(width, height, bytes) {
        Some(image) => Some(Picture { image }),
        None => None,
    }
}

impl Config {
    /// Whether the animation loops.
    pub open spec fn spec_loops(self) -> bool {
        self.loop_frames > 1
    }

    /// Whether the frame rendered at frame counter `frame` is handed to the
    /// sink: every frame of an endless animation, and of a looping one the
    /// second period only, which leaves the start-up transient out.
    pub open spec fn spec_records(self, frame: u64) -> bool {
        self.saving && (!self.spec_loops() || self.loop_frames <= frame < 2 * self.loop_frames)
    }

    /// Whether a looping animation is complete at frame counter `frame`.
    /// An endless animation never is.
    pub open spec fn spec_finished(self, frame: u64) -> bool {
        self.spec_loops() && frame > 2 * self.loop_frames
    }

    #[verifier::when_used_as_spec(spec_loops)]
    pub fn loops(self) -> (r: bool)
        ensures
            r == self.spec_loops(),
    {
        self.loop_frames > 1
    }

    #[verifier::when_used_as_spec(spec_records)]
    pub fn records(self, frame: u64) -> (r: bool)
        ensures
            r == self.spec_records(frame),
    {
        let period: u64 = self.loop_frames as u64;
        self.saving && (!self.loops() || (period <= frame && frame < 2 * period))
    }

    #[verifier::when_used_as_spec(spec_finished)]
    pub fn finished(self, frame: u64) -> (r: bool)
        ensures
            r == self.spec_finished(frame),
    {
        let period: u64 = self.loop_frames as u64;
        self.loops() && frame > 2 * period
    }
}

/// The consumer's side of the hand-off: counts the frames it was given and
/// numbers them from 1 in the order in which they arrive.
#[derive(Debug)]
pub struct FrameSink {
    written: u64,
}

impl FrameSink {
    /// Number of frames accepted so far.
    pub closed spec fn spec_written(&self) -> u64 {
        self.written
    }

    /// A sink that has not accepted any frame.
    pub fn new() -> (sink: FrameSink)
        ensures
            sink.spec_written() == 0,
    {
        FrameSink { written: 0 }
    }

    #[verifier::when_used_as_spec(spec_written)]
    pub fn written(&self) -> (n: u64)
        ensures
            n == self.spec_written(),
    {
        self.written
    }

    /// Accepts the next pixel buffer: numbers it and turns it into a
    /// picture. A buffer too short for its dimensions is refused, and not
    /// counted.
    pub fn accept(&mut self, width: u32, height: u32, bytes: Vec<u8>) -> (accepted: Option<
        (u64, Picture),
    >)
        requires
            old(self).spec_written() < u64::MAX,
        ensures
            accepted is Some <==> 4 * width * height <= bytes@.len(),
            accepted matches Some((number, picture)) ==> {
                &&& number == old(self).spec_written() + 1
                &&& final(self).spec_written() == number
                &&& picture_bytes(picture) == bytes@
                &&& picture_dimensions(picture) == (width, height)
            },
            accepted is None ==> final(self).spec_written() == old(self).spec_written(),
    {
        match picture_from_raw(width, height, bytes) {
            Some(picture) => {
                self.written = self.written + 1;
                Some((self.written, picture))
            },
            None => None,
        }
    }
}

/// In a looping animation that is recorded, the frames handed to the sink
/// are those of exactly one period, and the animation is not complete while
/// any of them is still to come.
pub proof fn lemma_recording_window(config: Config, frame: u64)
    requires
        config.saving,
        config.spec_loops(),
    ensures
        config.spec_records(frame) <==> config.loop_frames <= frame < 2 * config.loop_frames,
        config.spec_records(frame) ==> !config.spec_finished(frame),
        config.spec_finished(frame) ==> !config.spec_records(frame),
{
}

} // verus!
