//! Plain data carried between the control surface and its collaborators.

use vstd::prelude::*;

verus! {

/// What the control surface knows about the stream being played, as
/// handed to the media-session integration.
#[derive(Clone, Debug)]
pub struct NowPlayingMetadata {
    pub title: String,
    pub artist: Option<String>,
    pub album: Option<String>,
    pub artwork_url: Option<String>,
}

/// One recognized track, as the song-recognition collaborator reports
/// it and as its history persists it.
#[derive(Clone, Debug)]
pub struct RecognizedTrack {
    pub shazam_id: Option<String>,
    pub title: String,
    pub artist: Option<String>,
    pub artwork_url: Option<String>,
    pub apple_music_url: Option<String>,
    pub web_url: Option<String>,
    pub recognized_at: u64,
    pub source_title: Option<String>,
    pub source_artist: Option<String>,
}

} // verus!
