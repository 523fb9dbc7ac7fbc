//! Loading of triangulated OBJ meshes and the bookkeeping around a small
//! scene renderer: texture handle registries, a resource cache and the
//! plain data components attached to scene entities.

pub mod lexer;
pub mod numeric;
pub mod object;
pub mod obj_parser;
pub mod texture_map;
pub mod resource_store;
pub mod camera;
pub mod components;
pub mod geometry;
