//! The command surface: what an invocation asks the asset builder to do.
//! Argument parsing itself lives with the host program; these are the plain
//! values it hands over.

use vstd::prelude::*;

verus! {

/// A request to build a font pack.
#[derive(Debug, Clone)]
pub struct CliFontPackCommand {
    /// The path of the font pack definition file.
    pub definition: String,
    /// The path of the final asset to write.
    pub output: String,
}

/// A request to build a sprite.
#[derive(Debug, Clone)]
pub struct CliSpriteCommand {
    /// The path of the sprite definition file.
    pub definition: String,
    /// The path of the final asset to write.
    pub output: String,
}

/// One build request.
#[derive(Debug, Clone)]
pub enum CliSubcommand {
    /// Build a font pack definition file.
    FontPack(CliFontPackCommand),
    /// Build a sprite definition file.
    Sprite(CliSpriteCommand),
}

} // verus!
