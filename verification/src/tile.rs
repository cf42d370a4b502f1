//! Tile kinds, the layer each kind belongs to, and the tileset that maps a
//! kind to its display color.

use vstd::prelude::*;

verus! {

/// Identifier of a placeable tile kind.
#[derive(Clone, Copy, PartialEq, Eq, Structural, Debug)]
pub enum TileId {
    Empty,
    Dirt,
    Marker,
}

/// The logical layer a tile kind is placed on.
#[derive(Clone, Copy, PartialEq, Eq, Structural, Debug)]
pub enum TileLayer {
    Base,
    Overlay,
}

/// A display color with 8-bit RGBA channels. The embedding converts these to
/// whatever color representation its renderer uses.
#[derive(Clone, Copy, PartialEq, Eq, Structural, Debug)]
pub struct ColorRgba {
    pub r: u8,
    pub g: u8,
    pub b: u8,
    pub a: u8,
}

/// Definition of one tile kind: its identity, target layer and display color.
#[derive(Clone, Copy, PartialEq, Eq, Structural, Debug)]
pub struct TileDef {
    pub id: TileId,
    pub layer: TileLayer,
    pub color: ColorRgba,
}

/// The catalog of placeable tile kinds.
pub struct Tileset {
    pub defs: Vec<TileDef>,
}

/// The first definition in `defs` whose id is `id`, if any.
pub open spec fn spec_def(defs: Seq<TileDef>, id: TileId) -> Option<TileDef>
    decreases defs.len(),
{
    if defs.len() == 0 {
        None
    } else if defs[0].id == id {
        Some(defs[0])
    } else {
        spec_def(defs.drop_first(), id)
    }
}

impl Tileset {
    /// Whether the tileset defines the given tile kind.
    pub open spec fn has_def(self, id: TileId) -> bool {
        spec_def(self.defs@, id) is Some
    }

    /// Looks up the first definition of the given tile kind. The tileset must
    /// define the kind; the built-in tileset defines all of them.
    pub fn def(&self, id: TileId) -> (d: &TileDef)
        requires
            self.has_def(id),
        ensures
            Some(*d) == spec_def(self.defs@, id),
    {
        let n = self.defs.len();
        let mut i: usize = 0;
        proof {
            assert(self.defs@.skip(0) =~= self.defs@);
        }
        loop
            invariant
                i <= n,
                n == self.defs@.len(),
                spec_def(self.defs@, id) == spec_def(self.defs@.skip(i as int), id),
                spec_def(self.defs@, id) is Some,
            ensures
                i < self.defs@.len(),
                self.defs@[i as int].id == id,
                spec_def(self.defs@, id) == Some(self.defs@[i as int]),
            decreases n - i,
        {
            proof {
                assert(spec_def(self.defs@.skip(i as int), id) is Some);
                if i == n {
                    assert(self.defs@.skip(i as int).len() == 0);
                    assert(spec_def(self.defs@.skip(i as int), id) is None);
                    assert(false);
                }
                assert(self.defs@.skip(i as int)[0] == self.defs@[i as int]);
                assert(self.defs@.skip(i as int).drop_first() =~= self.defs@.skip(i as int + 1));
            }
            if self.defs[i].id == id {
                break;
            }
            i = i + 1;
        }
        &self.defs[i]
    }
}

impl Default for Tileset {
    /// The built-in tileset: an invisible empty base tile, a brown dirt base
    /// tile, and a yellow overlay marker.
    fn default() -> (t: Tileset)
        ensures
            t.defs@.len() == 3,
            t.defs@[0] == (TileDef {
                id: TileId::Empty,
                layer: TileLayer::Base,
                color: (ColorRgba { r: 0, g: 0, b: 0, a: 0 }),
            }),
            t.defs@[1] == (TileDef {
                id: TileId::Dirt,
                layer: TileLayer::Base,
                color: (ColorRgba { r: 140, g: 107, b: 89, a: 255 }),
            }),
            t.defs@[2] == (TileDef {
                id: TileId::Marker,
                layer: TileLayer::Overlay,
                color: (ColorRgba { r: 255, g: 255, b: 0, a: 255 }),
            }),
            t.has_def(TileId::Empty),
            t.has_def(TileId::Dirt),
            t.has_def(TileId::Marker),
    {
        let mut defs: Vec<TileDef> = Vec::new();
        defs.push(TileDef {
            id: TileId::Empty,
            layer: TileLayer::Base,
            color: ColorRgba { r: 0, g: 0, b: 0, a: 0 },
        });
        defs.push(TileDef {
            id: TileId::Dirt,
            layer: TileLayer::Base,
            color: ColorRgba { r: 140, g: 107, b: 89, a: 255 },
        });
        defs.push(TileDef {
            id: TileId::Marker,
            layer: TileLayer::Overlay,
            color: ColorRgba { r: 255, g: 255, b: 0, a: 255 },
        });
        let t = Tileset { defs };
        proof {
            let s0 = t.defs@;
            let s1 = s0.drop_first();
            let s2 = s1.drop_first();
            assert(s1.len() == 2 && s1[0] == s0[1] && s1[1] == s0[2]);
            assert(s2.len() == 1 && s2[0] == s0[2]);
            assert(spec_def(s0, TileId::Empty) == Some(s0[0]));
            assert(spec_def(s0, TileId::Dirt) == spec_def(s1, TileId::Dirt));
            assert(spec_def(s1, TileId::Dirt) == Some(s1[0]));
            assert(spec_def(s0, TileId::Marker) == spec_def(s1, TileId::Marker));
            assert(spec_def(s1, TileId::Marker) == spec_def(s2, TileId::Marker));
            assert(spec_def(s2, TileId::Marker) == Some(s2[0]));
        }
        t
    }
}

} // verus!
