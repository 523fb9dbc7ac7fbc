use appetizer::components::GLTextureComponent;
use appetizer::texture_map::{GLTextureMap, RawTexture, TextureHandle, TextureMap};

fn texture(w: u32) -> RawTexture {
    let img = image::DynamicImage::new_rgb8(w, 1);
    let pixels = img.raw_pixels();
    RawTexture { img, pixels }
}

#[test]
fn handles_are_handed_out_in_order() {
    let mut map = TextureMap::new();
    let a = map.insert_texture(texture(1));
    let b = map.insert_texture(texture(2));
    assert_eq!(a, TextureHandle(0));
    assert_eq!(b, TextureHandle(1));
    assert_eq!(map.texture_counter, 2);
    assert_eq!(map.get(a).unwrap().pixels.len(), 3);
    assert_eq!(map.get(b).unwrap().pixels.len(), 6);
}

#[test]
fn unknown_handle_is_an_error() {
    let mut map = TextureMap::new();
    assert_eq!(map.get(TextureHandle(0)).err(), Some("Could not find that texture.".to_string()));
    map.insert_texture(texture(1));
    assert!(map.get(TextureHandle(0)).is_ok());
    assert!(map.get(TextureHandle(1)).is_err());
}

#[test]
fn registered_device_textures_are_found() {
    let mut gl = GLTextureMap::new();
    let h = gl.register(7);
    assert_eq!(gl.get_texture(h), Some(7));
    let other = GLTextureMap::new().register(9);
    assert_eq!(gl.get_texture(other), None);
    let component = GLTextureComponent(h);
    assert_eq!(gl.get_texture(component.0), Some(7));
    assert_eq!(gl.gl_handles.len(), 1);
}
