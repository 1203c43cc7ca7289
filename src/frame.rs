use vstd::prelude::*;

verus! {

/// One captured image: its bytes and its dimensions.
#[derive(Clone, Debug)]
pub struct ImageFrame {
    pub frame: Vec<u8>,
    pub width: u32,
    pub height: u32,
}

/// The stereo pair captured in one fusion cycle.
#[derive(Debug)]
pub struct Frames {
    pub cam1: ImageFrame,
    pub cam2: ImageFrame,
}

} // verus!
