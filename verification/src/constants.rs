//! The words of the format that this library goes by: the colours that name the coalitions, and
//! the extensions of recordings.

use vstd::prelude::*;

verus! {

/// Stands before the colour of a unit.
pub const COLOR_MARKER: &'static str = "Color=";

/// The colour of the blue coalition, as a line states it.
pub const COLOR_BLUE: &'static str = "Color=Blue";

/// The colour of the red coalition, as a line states it.
pub const COLOR_RED: &'static str = "Color=Red";

/// The colour of the third coalition, as a line states it where the third coalition is violet.
pub const COLOR_VIOLET: &'static str = "Color=Violet";

/// The colour of the third coalition, as a line states it where the third coalition is purple.
pub const COLOR_PURPLE: &'static str = "Color=Purple";

/// The extension of a recording in plain text.
pub const EXTENSION_TXT: &'static str = ".txt.acmi";

/// The extension of a recording in a zip archive.
pub const EXTENSION_ZIP: &'static str = ".zip.acmi";

} // verus!
