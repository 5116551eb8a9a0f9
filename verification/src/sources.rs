//! The music-catalog abstraction: one capability interface with two
//! realizations. The verified library holds the interface and all the
//! conversion and parsing logic; the network clients implementing it live
//! with the surrounding program.

use vstd::prelude::*;

use crate::models::{with_album_art, TrackInfo, TrackInfoV};

verus! {

/// A failure of a catalog operation, carrying a description.
#[derive(Debug)]
pub struct SourceError {
    pub message: String,
}

/// A music catalog: searched by free text, it yields partial records, and can
/// resolve a record's album art and detail fields. Implementations perform
/// network work, so nothing is promised of their results beyond the types.
pub trait MusicSource {
    /// The catalog's display name.
    fn name(&self) -> String;

    /// Searches the catalog; each result is a partial record with an album
    /// art reference but no art bytes.
    fn search(&self, query: &str) -> Result<Vec<TrackInfo>, SourceError>;

    /// Downloads the album art that the record's reference names.
    fn fetch_album_art(&self, track: &TrackInfo) -> Result<Vec<u8>, SourceError>;

    /// Resolves a record's detail: by default, fetches the album art alone
    /// and attaches it, leaving every other field as given. A successful
    /// result carries some album art and is otherwise the given record;
    /// implementations that override this are held to the same shape by
    /// their callers.
    fn fetch_detail(&self, track: &TrackInfo) -> (r: Result<TrackInfo, SourceError>)
        ensures
            r matches Ok(d) ==> d@.album_art is Some && d@ == (TrackInfoV {
                album_art: d@.album_art,
                ..track@
            }),
    {
        let art = match self.fetch_album_art(track) {
            Ok(art) => art,
            Err(e) => {
                return Err(e);
            },
        };
        Ok(with_album_art(track, art))
    }
}

} // verus!
