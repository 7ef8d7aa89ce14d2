use vstd::prelude::*;

verus! {

/// Path parameters of the request for a layer's top tileset node.
#[derive(Debug)]
pub struct GetRootTilesetTopNodePaths {
    pub id: String,
}

/// Path parameters of the request for a child tileset: the layer, and the
/// face, level, column and row of the tile.
#[derive(Debug)]
pub struct GetChildTilesetPaths {
    pub id: String,
    pub face: u8,
    pub level: i32,
    pub col: i32,
    pub row: i32,
}

/// Path parameters of the request for the top of a content tree.
#[derive(Debug)]
pub struct GetContentToplevelPaths {
    pub id: String,
    pub token: String,
}

/// Path parameters of the request for a content payload.
#[derive(Debug)]
pub struct GetContentPayloadPaths {
    pub id: String,
    pub token: String,
    pub rest: String,
}

/// Path parameters of the request for a base-globe terrain payload.
#[derive(Debug)]
pub struct GetBaseGlobeTerrainPayloadPaths {
    pub id: String,
    pub rest: String,
}

} // verus!
