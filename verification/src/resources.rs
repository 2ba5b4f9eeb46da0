//! Assets by name.

use vstd::prelude::*;
use vstd::hash_map::StringHashMap;

verus! {

/// A loaded texture.
pub struct Texture;

/// A loaded sound.
pub struct Sound;

/// Textures and sounds by name.
pub struct ResourceManager {
    pub textures: StringHashMap<Texture>,
    pub sounds: StringHashMap<Sound>,
}

impl ResourceManager {
    /// A manager that holds nothing.
    pub fn new() -> (manager: ResourceManager)
        ensures
            manager.textures@ == Map::<Seq<char>, Texture>::empty(),
            manager.sounds@ == Map::<Seq<char>, Sound>::empty(),
    {
        ResourceManager { textures: StringHashMap::new(), sounds: StringHashMap::new() }
    }

    /// Asks for a texture. Nothing is loaded: the manager stays as it is.
    pub fn load_texture(&mut self, _id: &str, _path: &str)
        ensures
            final(self).textures@ == old(self).textures@,
            final(self).sounds@ == old(self).sounds@,
    {
    }
}

} // verus!
