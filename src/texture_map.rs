//! Registries of textures: decoded images by library handle, and the
//! identifiers of textures that were uploaded to the graphics device.

use std::collections::{BTreeMap, BTreeSet};
use vstd::prelude::*;

verus! {

broadcast use vstd::laws_cmp::group_laws_cmp;

#[verifier::external_type_specification]
#[verifier::external_body]
pub struct ExDynamicImage(image::DynamicImage);

/// The name under which a [`TextureMap`] keeps a decoded texture.
#[derive(Debug, Clone, Copy, PartialEq, Eq, Structural)]
pub struct TextureHandle(pub u32);

/// The identifier of a texture on the graphics device.
#[derive(Debug, Clone, Copy, PartialEq, Eq, Structural)]
pub struct GLTextureHandle(u32);

impl GLTextureHandle {
    /// The device identifier.
    pub closed spec fn id(self) -> u32 {
        self.0
    }
}

/// A decoded texture: the image and its raw pixel bytes.
pub struct RawTexture {
    pub img: image::DynamicImage,
    pub pixels: Vec<u8>,
}

/// Decoded textures by handle. Handles are handed out in increasing order
/// from a counter, so no two textures ever share one.
pub struct TextureMap {
    pub texture_counter: u32,
    pub texture_handles: BTreeMap<u32, RawTexture>,
}

impl TextureMap {
    /// Every stored handle was handed out before the counter's current value.
    pub open spec fn wf(&self) -> bool {
        forall|k: u32| #[trigger] self.texture_handles@.contains_key(k) ==> k < self.texture_counter
    }

    /// An empty map whose first handle will be 0.
    pub fn new() -> (r: Self)
        ensures
            r.wf(),
            r.texture_counter == 0,
            r.texture_handles@ == Map::<u32, RawTexture>::empty(),
    {
        Self { texture_counter: 0, texture_handles: BTreeMap::new() }
    }

    /// Stores `texture` under a fresh handle, the counter's value, and
    /// advances the counter.
    pub fn insert_texture(&mut self, texture: RawTexture) -> (h: TextureHandle)
        requires
            old(self).wf(),
            old(self).texture_counter < u32::MAX,
        ensures
            final(self).wf(),
            h.0 == old(self).texture_counter,
            !old(self).texture_handles@.contains_key(h.0),
            final(self).texture_counter == old(self).texture_counter + 1,
            final(self).texture_handles@ == old(self).texture_handles@.insert(h.0, texture),
    {
        let handle_counter = self.texture_counter;
        self.texture_counter = self.texture_counter + 1;
        let handle = TextureHandle(handle_counter);
        self.texture_handles.insert(handle_counter, texture);
        handle
    }

    /// The texture stored under `handle`, or a message when there is none.
    pub fn get(&self, handle: TextureHandle) -> (r: Result<&RawTexture, String>)
        ensures
            r is Ok <==> self.texture_handles@.contains_key(handle.0),
            r matches Ok(t) ==> *t == self.texture_handles@[handle.0],
    {
        match self.texture_handles.get(&handle.0) {
            Some(texture) => Ok(texture),
            None => Err("Could not find that texture.".to_owned()),
        }
    }
}

/// The set of textures that were uploaded to the graphics device.
pub struct GLTextureMap {
    pub gl_handles: BTreeSet<u32>,
}

impl GLTextureMap {
    /// An empty set.
    pub fn new() -> (r: Self)
        ensures
            r.gl_handles@ == Set::<u32>::empty(),
    {
        Self { gl_handles: BTreeSet::new() }
    }

    /// Records that the device texture `id` was created, and returns its handle.
    pub fn register(&mut self, id: u32) -> (h: GLTextureHandle)
        ensures
            h.id() == id,
            final(self).gl_handles@ == old(self).gl_handles@.insert(id),
    {
        self.gl_handles.insert(id);
        GLTextureHandle(id)
    }

    /// The device identifier of `gl_texture_handle` when it was registered here.
    pub fn get_texture(&self, gl_texture_handle: GLTextureHandle) -> (r: Option<u32>)
        ensures
            self.gl_handles@.contains(gl_texture_handle.id()) ==> r == Some(gl_texture_handle.id()),
            !self.gl_handles@.contains(gl_texture_handle.id()) ==> r is None,
    {
        if self.gl_handles.contains(&gl_texture_handle.0) {
            Some(gl_texture_handle.0)
        } else {
            None
        }
    }
}

} // verus!
