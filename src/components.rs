//! Plain data components attached to scene entities.

use vstd::prelude::*;
use crate::texture_map::GLTextureHandle;

verus! {

/// A human-readable entity name.
#[derive(Debug)]
pub struct NameComponent(pub String);

/// The device texture that an entity is drawn with. Only the handle is kept
/// here; the texture itself lives in the texture registries.
#[derive(Debug, Clone, Copy)]
pub struct GLTextureComponent(pub GLTextureHandle);

} // verus!
