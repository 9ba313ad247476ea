use vstd::prelude::*;

use crate::text::{decimal_rep, push_decimal};

verus! {

/// The container format of a tile payload.
#[derive(Clone, Copy, Debug, PartialEq, Eq, Structural)]
pub enum TileFormat {
    Gif,
    Jpeg,
    Json,
    Mvt,
    Png,
    Webp,
}

/// The compression encoding of a tile payload.
#[derive(Clone, Copy, Debug, PartialEq, Eq, Structural)]
pub enum TileEncoding {
    /// The format's own internal compression.
    Internal,
    Uncompressed,
    Gzip,
    Zlib,
    Brotli,
    Zstd,
}

/// The HTTP content type announced for a format.
pub open spec fn content_type_spec(f: TileFormat) -> Seq<char> {
    match f {
        TileFormat::Gif => "image/gif"@,
        TileFormat::Jpeg => "image/jpeg"@,
        TileFormat::Json => "application/json"@,
        TileFormat::Mvt => "application/x-protobuf"@,
        TileFormat::Png => "image/png"@,
        TileFormat::Webp => "image/webp"@,
    }
}

/// The HTTP content encoding announced for an encoding, when any.
pub open spec fn content_encoding_spec(e: TileEncoding) -> Option<Seq<char>> {
    match e {
        TileEncoding::Internal => None,
        TileEncoding::Uncompressed => None,
        TileEncoding::Gzip => Some("gzip"@),
        TileEncoding::Zlib => Some("deflate"@),
        TileEncoding::Brotli => Some("br"@),
        TileEncoding::Zstd => Some("zstd"@),
    }
}

impl TileFormat {
    /// The HTTP content type for this format.
    pub fn content_type(&self) -> (r: &'static str)
        ensures
            r@ == content_type_spec(*self),
    {
        match self {
            TileFormat::Gif => "image/gif",
            TileFormat::Jpeg => "image/jpeg",
            TileFormat::Json => "application/json",
            TileFormat::Mvt => "application/x-protobuf",
            TileFormat::Png => "image/png",
            TileFormat::Webp => "image/webp",
        }
    }
}

impl TileEncoding {
    /// The HTTP content encoding for this encoding, if it calls for one.
    pub fn content_encoding(&self) -> (r: Option<&'static str>)
        ensures
            match r {
                Some(s) => content_encoding_spec(*self) == Some(s@),
                None => content_encoding_spec(*self) is None,
            },
    {
        match self {
            TileEncoding::Internal => None,
            TileEncoding::Uncompressed => None,
            TileEncoding::Gzip => Some("gzip"),
            TileEncoding::Zlib => Some("deflate"),
            TileEncoding::Brotli => Some("br"),
            TileEncoding::Zstd => Some("zstd"),
        }
    }
}

/// The format fingerprint of a tile payload: two sources may be merged in one
/// request only if their fingerprints are equal.
#[derive(Clone, Copy, Debug, PartialEq, Eq, Structural)]
pub struct TileInfo {
    pub format: TileFormat,
    pub encoding: TileEncoding,
}

impl TileInfo {
    pub fn new(format: TileFormat, encoding: TileEncoding) -> (r: Self)
        ensures
            r == (TileInfo { format, encoding }),
    {
        TileInfo { format, encoding }
    }
}

/// An XYZ tile coordinate: zoom level, column, row.
#[derive(Clone, Copy, Debug, PartialEq, Eq, Structural)]
pub struct TileCoord {
    pub z: u8,
    pub x: u32,
    pub y: u32,
}

/// The coordinate written with a separator between z, x and y.
pub open spec fn coord_rep(c: TileCoord, sep: char) -> Seq<char> {
    decimal_rep(c.z as int) + seq![sep] + decimal_rep(c.x as int) + seq![sep]
        + decimal_rep(c.y as int)
}

impl TileCoord {
    /// The coordinate as `z,x,y`, the form used in diagnostics.
    pub fn to_csv(&self) -> (r: String)
        ensures
            r@ == coord_rep(*self, ','),
    {
        proof {
            reveal_strlit(",");
            assert(","@ =~= seq![',']);
        }
        self.join_parts(",", ',')
    }

    /// The coordinate as `z/x/y`, the form used in tile paths.
    pub fn to_slash_path(&self) -> (r: String)
        ensures
            r@ == coord_rep(*self, '/'),
    {
        proof {
            reveal_strlit("/");
            assert("/"@ =~= seq!['/']);
        }
        self.join_parts("/", '/')
    }

    fn join_parts(&self, sep: &str, sep_char: char) -> (r: String)
        requires
            sep@ == seq![sep_char],
        ensures
            r@ == coord_rep(*self, sep_char),
    {
        let mut s = String::new();
        push_decimal(&mut s, self.z as u32);
        s.append(sep);
        push_decimal(&mut s, self.x);
        s.append(sep);
        push_decimal(&mut s, self.y);
        proof {
            assert(s@ =~= coord_rep(*self, sep_char));
        }
        s
    }
}

/// Raw tile bytes paired with their format fingerprint.
#[derive(Debug, Clone)]
pub struct Tile {
    pub data: crate::TileData,
    pub info: TileInfo,
}

impl Tile {
    pub fn new(data: crate::TileData, info: TileInfo) -> (r: Self)
        ensures
            r.data@ == data@,
            r.info == info,
    {
        Tile { data, info }
    }
}

} // verus!
