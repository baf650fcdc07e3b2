//! The stateless handle the rendering layer drives.

use vstd::prelude::*;

verus! {

/// A stateless view handle. Drawing happens outside the library: a renderer
/// holds one of these and drains [`crate::game::GameState::entities_to_render`],
/// mapping each classification to a glyph at its location.
pub struct AppView {}

impl AppView {
    pub fn new() -> (v: AppView) {
        AppView {}
    }
}

} // verus!
