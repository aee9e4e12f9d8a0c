//! Read-side logic of a music-library service: browsing the distinct values
//! of a catalog field, and ranking a listener's most played tracks with a
//! deterministic artwork identifier per (artist, album) pair.
pub mod artwork;
pub mod category;
pub mod error;
pub mod top_tracks;

pub use artwork::image_url;
pub use category::{browse_all, distinct_values, parse_category, Category};
pub use error::ServiceError;
pub use top_tracks::{
    effective_limit, get_top_tracks, paginate, rank_plays, to_response, Music, MusicResponse,
    PlayRecord, TopTracksQueryParams,
};
