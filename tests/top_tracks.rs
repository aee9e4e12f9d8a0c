use std::collections::hash_map::DefaultHasher;
use std::hash::{Hash, Hasher};
use lobic_music::{
    effective_limit, get_top_tracks, image_url, paginate, rank_plays, to_response, Music,
    MusicResponse, PlayRecord, ServiceError, TopTracksQueryParams,
};

fn track(id: &str, artist: &str, album: &str, times_played: i32) -> Music {
    Music {
        music_id: id.to_string(),
        artist: artist.to_string(),
        title: format!("title of {id}"),
        album: album.to_string(),
        genre: "rock".to_string(),
        times_played,
    }
}

fn play(user: &str, plays: i32, music: Music) -> PlayRecord {
    PlayRecord { user_id: user.to_string(), user_times_played: plays, music }
}

fn params(user: &str, start_index: i64, page_length: Option<i64>) -> TopTracksQueryParams {
    TopTracksQueryParams { user_id: user.to_string(), start_index, page_length }
}

fn ids(v: &[MusicResponse]) -> Vec<&str> {
    v.iter().map(|r| r.id.as_str()).collect()
}

fn u1_rows() -> Vec<PlayRecord> {
    vec![
        play("u1", 5, track("trackA", "Band", "First", 50)),
        play("u1", 9, track("trackB", "Other", "Second", 12)),
        play("u1", 0, track("trackC", "Third", "Third", 99)),
    ]
}

#[test]
fn u1_top_tracks_order_and_artwork() {
    let out = get_top_tracks(&params("u1", 0, None), u1_rows()).unwrap();
    assert_eq!(ids(&out), vec!["trackB", "trackA"]);
    let d = to_response(&track("trackD", "Band", "First", 1));
    assert_eq!(out[1].image_url, d.image_url);
    assert_ne!(out[0].image_url, out[1].image_url);
    assert_eq!(out[0].times_played, 12);
    assert_eq!(out[0].title, "title of trackB");
}

#[test]
fn start_past_count_is_not_found() {
    let r = get_top_tracks(&params("u1", 2, None), u1_rows());
    assert!(matches!(r, Err(ServiceError::NotFound)));
    let r = get_top_tracks(&params("u1", 50, Some(3)), u1_rows());
    assert!(matches!(r, Err(ServiceError::NotFound)));
}

#[test]
fn user_without_qualifying_plays_is_not_found() {
    let r = get_top_tracks(&params("nobody", 0, None), u1_rows());
    assert!(matches!(r, Err(ServiceError::NotFound)));
    let r = get_top_tracks(&params("u1", 0, None), Vec::new());
    assert!(matches!(r, Err(ServiceError::NotFound)));
}

#[test]
fn non_positive_page_length_keeps_everything() {
    let mut rows = u1_rows();
    rows.push(play("u1", 7, track("trackE", "E", "E", 0)));
    rows.push(play("u1", 1, track("trackF", "F", "F", 0)));
    for length in [Some(0), Some(-3), None] {
        let out = get_top_tracks(&params("u1", 1, length), rows.clone()).unwrap();
        assert_eq!(ids(&out), vec!["trackE", "trackA", "trackF"]);
    }
    let out = get_top_tracks(&params("u1", 1, Some(2)), rows.clone()).unwrap();
    assert_eq!(ids(&out), vec!["trackE", "trackA"]);
    let out = get_top_tracks(&params("u1", 0, Some(10)), rows).unwrap();
    assert_eq!(ids(&out), vec!["trackB", "trackE", "trackA", "trackF"]);
}

#[test]
fn other_users_rows_are_ignored() {
    let mut rows = u1_rows();
    rows.push(play("u2", 100, track("trackX", "X", "X", 0)));
    let out = get_top_tracks(&params("u1", 0, None), rows).unwrap();
    assert_eq!(ids(&out), vec!["trackB", "trackA"]);
}

#[test]
fn ranking_is_non_increasing_and_complete() {
    let counts = [3, 0, 8, 8, 1, 5, 0, 2, 8, 4];
    let rows: Vec<PlayRecord> = counts
        .iter()
        .enumerate()
        .map(|(i, c)| play("u", *c, track(&format!("t{i}"), "a", "b", 0)))
        .collect();
    let ranked = rank_plays(&"u".to_string(), rows);
    let got: Vec<i32> = ranked.iter().map(|r| r.user_times_played).collect();
    assert_eq!(got, vec![8, 8, 8, 5, 4, 3, 2, 1]);
    assert!(got.windows(2).all(|w| w[0] >= w[1]));
}

#[test]
fn paginate_windows() {
    assert_eq!(paginate(vec![1, 2, 3, 4, 5], 0, None), vec![1, 2, 3, 4, 5]);
    assert_eq!(paginate(vec![1, 2, 3, 4, 5], 2, Some(2)), vec![3, 4]);
    assert_eq!(paginate(vec![1, 2, 3, 4, 5], 4, Some(9)), vec![5]);
    assert_eq!(paginate(vec![1, 2, 3, 4, 5], 5, None), Vec::<i32>::new());
    assert_eq!(paginate(vec![1, 2, 3, 4, 5], 1, Some(0)), vec![2, 3, 4, 5]);
    assert_eq!(paginate(vec![1, 2, 3, 4, 5], 1, Some(-1)), vec![2, 3, 4, 5]);
    assert_eq!(paginate(vec![1, 2, 3], i64::MAX, Some(1)), Vec::<i32>::new());
}

#[test]
fn limit_only_when_positive() {
    assert_eq!(effective_limit(Some(3)), Some(3));
    assert_eq!(effective_limit(Some(0)), None);
    assert_eq!(effective_limit(Some(-5)), None);
    assert_eq!(effective_limit(None), None);
}

#[test]
fn image_url_is_deterministic() {
    let a = image_url(&"Band".to_string(), &"First".to_string());
    let b = image_url(&"Band".to_string(), &"First".to_string());
    assert_eq!(a, b);
    assert_ne!(a, image_url(&"Band".to_string(), &"Second".to_string()));
    assert_ne!(a, image_url(&"BandF".to_string(), &"irst".to_string()));
}

#[test]
fn image_url_matches_hashing_artist_then_album() {
    let (artist, album) = ("Band".to_string(), "First".to_string());
    let mut hasher = DefaultHasher::new();
    artist.hash(&mut hasher);
    album.hash(&mut hasher);
    let h = hasher.finish();
    let expected = format!("{:016x}{:016x}", h, h);
    let expected = format!(
        "{}-{}-{}-{}-{}",
        &expected[0..8],
        &expected[8..12],
        &expected[12..16],
        &expected[16..20],
        &expected[20..32]
    );
    let got = image_url(&artist, &album);
    assert_eq!(got, expected);
    assert_eq!(got, uuid::Uuid::from_u64_pair(h, h).to_string());
    assert_eq!(got.len(), 36);
    assert_ne!(got, "BandFirst");
}

#[test]
fn to_response_copies_fields() {
    let m = track("id9", "Artist", "Album", 42);
    let r = to_response(&m);
    assert_eq!(r.id, "id9");
    assert_eq!(r.artist, "Artist");
    assert_eq!(r.album, "Album");
    assert_eq!(r.genre, "rock");
    assert_eq!(r.title, "title of id9");
    assert_eq!(r.times_played, 42);
    assert_eq!(r.image_url, image_url(&m.artist, &m.album));
}
