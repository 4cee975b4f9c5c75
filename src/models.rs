//! Inputs handed to the frame styles by the metadata layer.

use vstd::prelude::*;
use std::sync::atomic::AtomicBool;

verus! {

/// A font chosen by file name and weight name.
#[derive(Clone, Debug)]
pub struct FontConfig {
    pub filename: String,
    pub weight: String,
}

/// The cleaned strings of the blurred-backdrop styles.
pub struct BlurInput<'a> {
    pub brand: &'a str,
    pub model: &'a str,
    pub params: &'a str,
}

/// The shooting parameters of the title-card style, already split and
/// stripped of their units.
#[derive(Clone, Debug)]
pub struct TransparentMasterInput {
    pub iso: String,
    pub aperture: String,
    pub shutter: String,
    pub focal: String,
}

/// State shared with the batch driver: a flag that asks it to stop
/// submitting photos.
pub struct AppState {
    pub should_stop: AtomicBool,
}

impl AppState {
    pub fn new() -> (s: Self) {
        AppState { should_stop: AtomicBool::new(false) }
    }
}

} // verus!
