use std::io::Write;

use serde_json::Value;

use tuneterm::domain::{ChartSection, MediaId, MediaItem, MediaKind, RegionCode, SearchFilter};
use tuneterm::lyrics::MAX_LYRICS_TEXT_BYTES;
use tuneterm::provider::charts::{
    check_opaque_id, normalize_text, parse_chart_response, parse_duration_ms,
    parse_search_response, ChartCacheKey, ChartPlaylistReference, ParseError, ParseResource, ParseWarningKind,
    MAX_RESPONSE_BYTES,
};
use tuneterm::provider::model::{
    AuthenticationState, BrowseItem, LibraryItem, LibrarySection, Page, PlainLyrics, Podcast,
    ProviderError, ProviderErrorKind, ProviderOperation, SearchItem,
};
use tuneterm::provider::queries::{
    encode_processed_chart_value, normalize_processed_chart_bytes,
    normalize_processed_chart_value, CappedWriter, ChartsQuery, ChartsQueryOutput,
};
use tuneterm::provider::ytmusic::{
    artwork_url, check_library_request, check_media_request, join_names, lyrics_of_page,
    lyrics_page, map_upstream_error, means_no_lyrics, normalize_album_results,
    normalize_artist_results, normalize_episode_results, normalize_library_albums,
    normalize_playlist_items, normalize_playlist_results, normalize_podcast,
    normalize_podcast_results, normalize_song_results, normalize_watch_tracks, radio_items,
    AlbumResult, ArtistResult, ChartResolution, EpisodeResult, ListedEpisode, ListedPlaylist,
    PlaylistEntry, PlaylistResult, PodcastDetail, PodcastEpisode, PodcastResult, SearchAll,
    SongResult, Thumbnail, UpstreamError, WatchTrack,
};

fn text(value: &str) -> Value {
    Value::String(value.to_owned())
}

fn object(members: Vec<(&str, Value)>) -> Value {
    let mut map = serde_json::Map::new();
    for (key, value) in members {
        map.insert(key.to_owned(), value);
    }
    Value::Object(map)
}

fn list(items: Vec<Value>) -> Value {
    Value::Array(items)
}

fn runs(texts: Vec<&str>) -> Value {
    object(vec![(
        "runs",
        list(texts.into_iter().map(|run| object(vec![("text", text(run))])).collect()),
    )])
}

fn thumbnails(url: &str) -> Value {
    object(vec![(
        "musicThumbnailRenderer",
        object(vec![(
            "thumbnail",
            object(vec![(
                "thumbnails",
                list(vec![object(vec![
                    ("url", text(url)),
                    ("width", Value::from(226)),
                    ("height", Value::from(226)),
                ])]),
            )]),
        )]),
    )])
}

fn column(texts: Vec<&str>) -> Value {
    object(vec![(
        "musicResponsiveListItemFlexColumnRenderer",
        object(vec![("text", runs(texts))]),
    )])
}

fn played(video_id: &str, video_type: &str) -> Value {
    let config = object(vec![(
        "watchEndpointMusicConfig",
        object(vec![("musicVideoType", text(video_type))]),
    )]);
    let endpoint = object(vec![
        ("videoId", text(video_id)),
        ("watchEndpointMusicSupportedConfigs", config),
    ]);
    object(vec![(
        "musicItemThumbnailOverlayRenderer",
        object(vec![(
            "content",
            object(vec![(
                "musicPlayButtonRenderer",
                object(vec![(
                    "playNavigationEndpoint",
                    object(vec![("watchEndpoint", endpoint)]),
                )]),
            )]),
        )]),
    )])
}

fn page_run(content: &str, page_type: &str) -> Value {
    object(vec![
        ("text", text(content)),
        (
            "navigationEndpoint",
            object(vec![(
                "browseEndpoint",
                object(vec![(
                    "browseEndpointContextSupportedConfigs",
                    object(vec![(
                        "browseEndpointContextMusicConfig",
                        object(vec![("pageType", text(page_type))]),
                    )]),
                )]),
            )]),
        ),
    ])
}

fn row_members(video_id: &str, video_type: &str) -> Vec<(&'static str, Value)> {
    vec![
        ("playlistItemData", object(vec![("videoId", text(video_id))])),
        ("overlay", played(video_id, video_type)),
        ("flexColumns", list(vec![column(vec!["Harbour  Lights"]), column(vec!["Neon"])])),
        ("thumbnail", thumbnails("https://art.invalid/hk.jpg")),
    ]
}

fn row(members: Vec<(&str, Value)>) -> Value {
    object(vec![("musicResponsiveListItemRenderer", object(members))])
}

fn chart_row(video_id: &str) -> Value {
    row(row_members(video_id, "MUSIC_VIDEO_TYPE_ATV"))
}

fn page_of(sections: Vec<Value>) -> Value {
    object(vec![(
        "contents",
        object(vec![(
            "singleColumnBrowseResultsRenderer",
            object(vec![(
                "tabs",
                list(vec![object(vec![(
                    "tabRenderer",
                    object(vec![(
                        "content",
                        object(vec![(
                            "sectionListRenderer",
                            object(vec![("contents", list(sections))]),
                        )]),
                    )]),
                )])]),
            )]),
        )]),
    )])
}

fn carousel(title: &str, contents: Vec<Value>) -> Value {
    object(vec![(
        "musicCarouselShelfRenderer",
        object(vec![
            (
                "header",
                object(vec![(
                    "musicCarouselShelfBasicHeaderRenderer",
                    object(vec![("title", runs(vec![title]))]),
                )]),
            ),
            ("contents", list(contents)),
        ]),
    )])
}

fn playlist_card(title: &str, browse_id: &str) -> Value {
    let endpoint = object(vec![(
        "browseEndpoint",
        object(vec![
            ("browseId", text(browse_id)),
            (
                "browseEndpointContextSupportedConfigs",
                object(vec![(
                    "browseEndpointContextMusicConfig",
                    object(vec![("pageType", text("MUSIC_PAGE_TYPE_PLAYLIST"))]),
                )]),
            ),
        ]),
    )]);
    object(vec![(
        "musicTwoRowItemRenderer",
        object(vec![
            (
                "title",
                object(vec![(
                    "runs",
                    list(vec![object(vec![
                        ("text", text(title)),
                        ("navigationEndpoint", endpoint.clone()),
                    ])]),
                )]),
            ),
            ("navigationEndpoint", endpoint),
        ]),
    )])
}

fn charts_fixture() -> Value {
    page_of(vec![carousel("Top songs", vec![chart_row("hk_fixture_01")])])
}

fn playlist_charts_fixture(title: &str, browse_id: &str) -> Value {
    page_of(vec![
        carousel("Video charts", Vec::new()),
        carousel("Top artists", Vec::new()),
        carousel("Trending", vec![playlist_card(title, browse_id)]),
    ])
}

fn encode(value: &Value) -> Vec<u8> {
    encode_processed_chart_value(value)
}

#[test]
fn processed_chart_value_is_bounded_and_normalized_without_raw_debug() {
    let value = charts_fixture();

    let output = normalize_processed_chart_value(&value)
        .unwrap_or_else(|| panic!("charts are recognised"));
    let rendered = output.summary();
    assert!(rendered.contains("section_count"));
    assert!(!rendered.contains("hk_fixture_01"));
    assert!(!rendered.contains("https://"));

    let (sections, playlist_references) = output.into_parts();
    assert!(playlist_references.is_empty());
    assert_eq!(sections.len(), 1);
    assert_eq!(sections[0].title(), "Top songs");
    assert_eq!(sections[0].items()[0].id.video_id, "hk_fixture_01");
}

#[test]
fn processed_jp_chart_playlist_is_recognized() {
    let value = playlist_charts_fixture("Trending 20 Japan", "VLJP_CHART_FIXTURE");

    let output = normalize_processed_chart_value(&value)
        .unwrap_or_else(|| panic!("playlists are recognised"));
    let (sections, playlist_references) = output.into_parts();

    assert!(sections.is_empty());
    assert_eq!(playlist_references.len(), 1);
    assert_eq!(playlist_references[0].title(), "Trending 20 Japan");
    assert_eq!(playlist_references[0].playlist_id(), "JP_CHART_FIXTURE");
}

#[test]
fn processed_chart_playlist_recognition_is_country_agnostic() {
    let value = playlist_charts_fixture("Trending 20 United States", "VLUS_CHART_FIXTURE");

    let (_, playlist_references) = normalize_processed_chart_value(&value)
        .unwrap_or_else(|| panic!("playlists are recognised"))
        .into_parts();

    assert_eq!(playlist_references[0].title(), "Trending 20 United States");
    assert_eq!(playlist_references[0].playlist_id(), "US_CHART_FIXTURE");
}

#[test]
fn rejected_processed_chart_value_never_renders_payload() {
    let sentinel = "RAW_CHART_PAYLOAD_SENTINEL";
    let value = object(vec![("unrelated", text(sentinel))]);
    let encoded = encode(&value);

    assert!(normalize_processed_chart_value(&value).is_none());
    assert!(normalize_processed_chart_bytes(&encoded).is_none());
    let error = match parse_chart_response(&encoded) {
        Err(error) => error,
        Ok(_) => panic!("unrelated processed response must fail"),
    };
    let rendered = format!("{error:?} {}", error.message());
    assert!(!rendered.contains(sentinel));
}

#[test]
fn processed_chart_encoding_stops_at_one_byte_over_the_parser_limit() {
    let value = object(vec![("oversized", text(&"x".repeat(MAX_RESPONSE_BYTES * 2)))]);

    let encoded = encode(&value);

    assert_eq!(encoded.len(), MAX_RESPONSE_BYTES + 1);
    assert!(matches!(
        parse_chart_response(&encoded),
        Err(ParseError::InputTooLarge { response: "charts" })
    ));
}

fn chart_track(video_id: &str) -> MediaItem {
    MediaItem {
        id: MediaId {
            provider: "youtube-music".to_owned(),
            video_id: video_id.to_owned(),
        },
        kind: MediaKind::Song,
        title: format!("Track {video_id}"),
        creators: vec!["Fixture artist".to_owned()],
        collection: None,
        duration_ms: None,
        artwork_url: None,
        explicit: false,
    }
}

#[test]
fn chart_playlist_references_are_hydrated_in_order_and_partial_failure_is_tolerated() {
    let output = ChartsQueryOutput::from_playlist_references(vec![
        ChartPlaylistReference::new("Unavailable chart".to_owned(), "FAILED_CHART".to_owned()),
        ChartPlaylistReference::new(
            "Trending 20 Japan".to_owned(),
            "JP_CHART_FIXTURE".to_owned(),
        ),
    ]);
    let mut calls = Vec::new();
    let mut resolution = ChartResolution::new(output);
    while let Some(playlist_id) = resolution.next_playlist() {
        let playlist_id = playlist_id.to_owned();
        calls.push(playlist_id.clone());
        resolution.record(if playlist_id == "FAILED_CHART" {
            Err(ProviderError::new(
                ProviderOperation::Playlist,
                ProviderErrorKind::Unavailable,
            ))
        } else {
            Ok(vec![chart_track("jp_track_01")])
        });
    }
    let sections = resolution.finish().unwrap_or_else(|_| panic!("one chart was found"));

    assert_eq!(calls, ["FAILED_CHART", "JP_CHART_FIXTURE"]);
    assert_eq!(sections.len(), 1);
    assert_eq!(sections[0].title(), "Trending 20 Japan");
    assert_eq!(sections[0].items()[0].id.video_id, "jp_track_01");
}

#[test]
fn chart_legacy_sections_bypass_playlist_hydration() {
    let legacy = ChartSection::new("Top songs".to_owned(), vec![chart_track("legacy_track")]);
    let output = ChartsQueryOutput::from_sections(vec![legacy]);

    let resolution = ChartResolution::new(output);
    assert!(resolution.next_playlist().is_none());
    let sections = resolution.finish().unwrap_or_else(|_| panic!("the sections stand"));

    assert_eq!(sections[0].title(), "Top songs");
    assert_eq!(sections[0].items()[0].id.video_id, "legacy_track");
}

fn thumbnail() -> Thumbnail {
    Thumbnail {
        height: 128,
        width: 128,
        url: "https://signed.invalid/art.jpg?signature=ARTWORK_SENTINEL".to_owned(),
    }
}

fn is_invalid_search<T>(result: Result<T, ProviderError>) -> bool {
    match result {
        Ok(_) => false,
        Err(error) => {
            error.kind == ProviderErrorKind::InvalidResponse
                && error.operation == ProviderOperation::Search
        }
    }
}

fn neon_harbour(video_id: &str) -> SongResult {
    SongResult {
        video_id: video_id.to_owned(),
        title: "Neon Harbour".to_owned(),
        artist: "Harbour Unit".to_owned(),
        album: Some("Midnight Ferries".to_owned()),
        duration: "3:21".to_owned(),
        thumbnails: vec![thumbnail()],
        explicit: true,
    }
}

fn midnight_ferries() -> AlbumResult {
    AlbumResult {
        album_id: "MPREb_album".to_owned(),
        title: "Midnight Ferries".to_owned(),
        artist: "Harbour Unit".to_owned(),
        thumbnails: vec![thumbnail()],
    }
}

#[test]
fn typed_search_results_map_to_normalized_contract_models() {
    let artist = ArtistResult {
        browse_id: "UC_harbour".to_owned(),
        artist: "Harbour Unit".to_owned(),
        subscribers: None,
        thumbnails: vec![thumbnail()],
    };
    let playlist = PlaylistResult::Featured(ListedPlaylist {
        playlist_id: "VL_night".to_owned(),
        title: "Night Ferries".to_owned(),
        author: "YouTube Music".to_owned(),
        thumbnails: vec![thumbnail()],
    });
    let podcast = PodcastResult {
        podcast_id: "MPSP_signal".to_owned(),
        title: "Signal Stories".to_owned(),
        publisher: "Signal Network".to_owned(),
        thumbnails: vec![thumbnail()],
    };
    let episode = EpisodeResult {
        episode_id: "MPSPE_terminal".to_owned(),
        title: "The Rust Terminal".to_owned(),
        channel_name: "Signal Stories".to_owned(),
        thumbnails: vec![thumbnail()],
    };

    let songs = normalize_song_results(&vec![neon_harbour("song_01")])
        .unwrap_or_else(|_| panic!("songs"));
    let albums =
        normalize_album_results(&vec![midnight_ferries()]).unwrap_or_else(|_| panic!("albums"));
    let artists = normalize_artist_results(&vec![artist]).unwrap_or_else(|_| panic!("artists"));
    let playlists =
        normalize_playlist_results(&vec![playlist]).unwrap_or_else(|_| panic!("playlists"));
    let podcasts =
        normalize_podcast_results(&vec![podcast]).unwrap_or_else(|_| panic!("podcasts"));
    let episodes =
        normalize_episode_results(&vec![episode]).unwrap_or_else(|_| panic!("episodes"));

    let SearchItem::Playable(song) = &songs.items[0] else {
        panic!("song must be playable");
    };
    assert_eq!(song.kind, MediaKind::Song);
    assert_eq!(song.duration_ms, Some(201_000));
    assert_eq!(song.collection.as_deref(), Some("Midnight Ferries"));
    assert!(song.explicit);
    assert!(matches!(albums.items[0], SearchItem::Album(_)));
    assert!(matches!(artists.items[0], SearchItem::Artist(_)));
    assert!(matches!(playlists.items[0], SearchItem::Playlist(_)));
    assert!(matches!(podcasts.items[0], SearchItem::Podcast(_)));
    let SearchItem::Playable(episode) = &episodes.items[0] else {
        panic!("episode must be playable");
    };
    assert_eq!(episode.kind, MediaKind::PodcastEpisode);
    assert_eq!(episode.creators, ["Signal Stories"]);

    for page in [&songs, &albums, &artists, &playlists, &podcasts, &episodes] {
        assert_eq!(page.continuation, None);
        assert!(!page.stale);
    }
}

#[test]
fn typed_normalization_rejects_invalid_opaque_ids() {
    let song = SongResult {
        video_id: "contains whitespace".to_owned(),
        title: "Invalid".to_owned(),
        artist: "Fixture".to_owned(),
        album: None,
        duration: "1:00".to_owned(),
        thumbnails: Vec::new(),
        explicit: false,
    };

    let Err(error) = normalize_song_results(&vec![song]) else {
        panic!("whitespace in an opaque media id must fail");
    };
    assert_eq!(error.kind, ProviderErrorKind::InvalidResponse);
    assert_eq!(error.operation, ProviderOperation::Search);
}

#[test]
fn typed_podcast_detail_retains_requested_id_and_maps_episodes() {
    let detail = PodcastDetail {
        channels: vec!["Signal Network".to_owned()],
        title: "Signal Stories".to_owned(),
        description: "Stories from the edge".to_owned(),
        episodes: vec![PodcastEpisode {
            episode_id: "MPSPE_terminal".to_owned(),
            title: "The Rust Terminal".to_owned(),
            total_duration: "1:02:03".to_owned(),
            thumbnails: vec![thumbnail()],
        }],
    };

    let podcast =
        normalize_podcast("MPSP_signal", &detail).unwrap_or_else(|_| panic!("a podcast"));
    assert_eq!(podcast.id, "MPSP_signal");
    assert_eq!(podcast.creators, ["Signal Network"]);
    assert_eq!(podcast.description.as_deref(), Some("Stories from the edge"));
    assert_eq!(podcast.episodes.len(), 1);
    assert_eq!(podcast.episodes[0].kind, MediaKind::PodcastEpisode);
    assert_eq!(podcast.episodes[0].duration_ms, Some(3_723_000));
}

#[test]
fn typed_watch_and_playlist_results_preserve_media_kinds() {
    let watch = WatchTrack {
        video_id: "radio_song".to_owned(),
        title: "Radio song".to_owned(),
        author: "Radio artist".to_owned(),
        duration: "4:05".to_owned(),
        thumbnails: Vec::new(),
    };
    let episode = PlaylistEntry::Episode(ListedEpisode {
        is_available: true,
        episode_id: "MPSPE_queue".to_owned(),
        title: "Queued episode".to_owned(),
        podcast_name: "Signal Stories".to_owned(),
        duration: Some("42:10".to_owned()),
        thumbnails: Vec::new(),
    });

    let watch = normalize_watch_tracks(&vec![watch]).unwrap_or_else(|_| panic!("tracks"));
    let playlist = normalize_playlist_items(&vec![episode]).unwrap_or_else(|_| panic!("items"));
    assert_eq!(watch[0].kind, MediaKind::Song);
    assert_eq!(watch[0].duration_ms, Some(245_000));
    assert_eq!(playlist[0].kind, MediaKind::PodcastEpisode);
    assert_eq!(playlist[0].duration_ms, Some(2_530_000));
}

#[test]
fn search_through_every_category_keeps_what_was_found() {
    let mut search = SearchAll::new();
    let mut categories = Vec::new();
    while let Some(category) = search.next_category() {
        categories.push(category);
        search.record(if category == SearchFilter::Songs {
            normalize_song_results(&vec![neon_harbour("song_01")])
        } else {
            Err(ProviderError::new(ProviderOperation::Search, ProviderErrorKind::Unavailable))
        });
    }
    assert_eq!(categories.len(), 6);
    assert!(!categories.contains(&SearchFilter::All));
    let page = search.finish().unwrap_or_else(|_| panic!("songs were found"));
    assert_eq!(page.items.len(), 1);

    let mut failing = SearchAll::new();
    while failing.next_category().is_some() {
        failing.record(Err(ProviderError::new(
            ProviderOperation::Search,
            ProviderErrorKind::Unavailable,
        )));
    }
    assert!(failing.finish().is_err());
}

#[test]
fn charts_fail_only_where_every_playlist_fails() {
    let output = ChartsQueryOutput::from_playlist_references(vec![ChartPlaylistReference::new(
        "Chart".to_owned(),
        "ONLY".to_owned(),
    )]);
    let mut resolution = ChartResolution::new(output);
    assert_eq!(resolution.next_playlist(), Some("ONLY"));
    resolution.record(Err(ProviderError::new(
        ProviderOperation::Playlist,
        ProviderErrorKind::Unavailable,
    )));
    assert!(resolution.finish().is_err());
}

#[test]
fn nothing_of_a_response_is_logged() {
    let page = normalize_song_results(&vec![neon_harbour("song_01")])
        .unwrap_or_else(|_| panic!("songs"));
    assert_eq!(
        page.summary(),
        "Page { item_count: 1, continuation_present: false, stale: false, .. }"
    );
    assert_eq!(
        page.items[0].summary(),
        "SearchItem::Playable { kind: Song, artwork_present: true, .. }"
    );
    let item = BrowseItem {
        id: "UC".to_owned(),
        title: "A \"title\"".to_owned(),
        subtitle: None,
        artwork_url: Some("https://x.invalid/SENTINEL".to_owned()),
    };
    let expected = "BrowseItem { id: \"UC\", title: \"A \\\"title\\\"\", subtitle: None, \
                    artwork_present: true, .. }";
    assert_eq!(item.summary(), expected);
    assert_eq!(LibraryItem::Artist(item).summary(), format!("LibraryItem::Artist({expected})"));
    let podcast = Podcast {
        id: "P".to_owned(),
        title: "T".to_owned(),
        creators: vec!["C".to_owned()],
        description: None,
        artwork_url: None,
        episodes: Vec::new(),
    };
    assert_eq!(
        podcast.summary(),
        "Podcast { id: \"P\", title: \"T\", creator_count: 1, description_present: false, \
         artwork_present: false, episode_count: 0, .. }"
    );
    let lyrics = PlainLyrics::new("  la\n").unwrap_or_else(|_| panic!("lyrics"));
    assert_eq!(lyrics.text(), "la");
    assert_eq!(lyrics.summary(), "PlainLyrics { text_bytes: 2, .. }");
    let reference = ChartPlaylistReference::new("SENTINEL".to_owned(), "SENTINEL".to_owned());
    assert!(!reference.summary().contains("SENTINEL"));
    let query = ChartsQuery::new(RegionCode::parse("hk").unwrap_or_else(|| panic!("a region")));
    assert_eq!(query.summary(), "ChartsQuery { region: RegionCode(\"HK\"), .. }");
    assert_eq!(query.browse_id(), "FEmusic_charts");
    assert_eq!(query.selected_values(), ["HK"]);
    let report = parse_chart_response(&encode(&charts_fixture()))
        .unwrap_or_else(|_| panic!("charts are read"));
    assert_eq!(
        report.summary(),
        "ParseReport { value_redacted: true, warning_count: 0, .. }"
    );
}

#[test]
fn errors_say_what_failed() {
    let error = ProviderError::new(ProviderOperation::Charts, ProviderErrorKind::Unavailable);
    assert!(error.message().contains(error.operation.name()));
    assert_eq!(ParseResource::MetadataRuns.name(), "metadata runs");
    for error in [
        ParseError::InputTooLarge { response: "charts" },
        ParseError::InvalidJson { response: "charts" },
        ParseError::UnsupportedShape { response: "charts" },
        ParseError::ResourceLimit { response: "charts", resource: ParseResource::Items },
        ParseError::UnusableResponse { response: "charts" },
    ] {
        assert!(error.message().contains("charts"));
    }
    assert!(matches!(
        parse_chart_response(b"{"),
        Err(ParseError::InvalidJson { response: "charts" })
    ));
    assert!(matches!(
        parse_search_response(b"[]"),
        Err(ParseError::UnsupportedShape { response: "search" })
    ));
    let key = ChartCacheKey::new(RegionCode::parse("jp").unwrap_or_else(|| panic!("a region")));
    assert!(key.text().contains("JP"));
}

#[test]
fn texts_ids_and_durations_are_checked() {
    assert_eq!(normalize_text("  a \t b\n"), Some("a b".to_owned()));
    assert_eq!(normalize_text(" \n"), None);
    assert!(check_opaque_id("abc-_1", 6));
    assert!(!check_opaque_id("abc-_1", 5));
    assert!(!check_opaque_id("", 5));
    assert!(!check_opaque_id("a b", 5));
    assert_eq!(parse_duration_ms("1:02:03"), Some(3_723_000));
    assert_eq!(parse_duration_ms("2:03"), Some(123_000));
    assert_eq!(parse_duration_ms("x"), None);
    assert_eq!(
        artwork_url(&vec![
            Thumbnail { height: 1, width: 1, url: "https://small.invalid/".to_owned() },
            Thumbnail { height: 9, width: 9, url: "https://large.invalid/".to_owned() },
            Thumbnail { height: 99, width: 99, url: "ftp://other.invalid/".to_owned() },
        ]),
        Some("https://large.invalid/".to_owned())
    );
    assert_eq!(
        artwork_url(&vec![Thumbnail {
            height: 1,
            width: 1,
            url: "HTTPS://Large.INVALID/a b".to_owned(),
        }]),
        Some("https://large.invalid/a%20b".to_owned())
    );
    assert_eq!(
        artwork_url(&vec![Thumbnail { height: 1, width: 1, url: "no address".to_owned() }]),
        None
    );
    assert_eq!(join_names(&vec!["a".to_owned(), "b".to_owned()]), "a, b");
}

#[test]
fn requests_are_checked_before_they_are_made() {
    let id = MediaId { provider: "youtube-music".to_owned(), video_id: "ok".to_owned() };
    assert!(check_media_request(&id, ProviderOperation::Radio).is_ok());
    let other = MediaId { provider: "elsewhere".to_owned(), video_id: "ok".to_owned() };
    assert!(check_media_request(&other, ProviderOperation::Radio).is_err());
    assert!(check_library_request(
        AuthenticationState::Unauthenticated,
        LibrarySection::Songs
    )
    .is_err());
    assert!(
        check_library_request(AuthenticationState::Authenticated, LibrarySection::Songs).is_ok()
    );
    let kept = radio_items(vec![chart_track("seed"), chart_track("next")], &chart_track("seed").id);
    assert_eq!(kept.len(), 1);
    assert_eq!(kept[0].id.video_id, "next");
    assert!(lyrics_page(None).is_err());
    assert_eq!(lyrics_page(Some("MPLY".to_owned())).ok(), Some("MPLY".to_owned()));
    assert!(lyrics_of_page(None).is_err());
    assert_eq!(
        lyrics_of_page(Some("la la".to_owned())).ok().map(|lyrics| lyrics.text().to_owned()),
        Some("la la".to_owned())
    );
}

#[test]
fn upstream_errors_are_sorted() {
    let operation = ProviderOperation::Search;
    assert!(means_no_lyrics(UpstreamError::JsonParsing) != means_no_lyrics(UpstreamError::Other));
    assert_eq!(map_upstream_error(UpstreamError::Other, operation).operation, operation);
    assert!(
        map_upstream_error(UpstreamError::JsonParsing, operation).kind
            == ProviderErrorKind::InvalidResponse
    );
    assert!(
        map_upstream_error(UpstreamError::Other, operation).kind == ProviderErrorKind::Unavailable
    );
}

#[test]
fn library_albums_are_opened_by_their_id() {
    let page: Page<LibraryItem> =
        normalize_library_albums(&vec![midnight_ferries()]).unwrap_or_else(|_| panic!("albums"));
    match &page.items[0] {
        LibraryItem::Album(item) => assert_eq!(item.id, "MPREb_album"),
        _ => panic!("an album"),
    }
    let mut broken = midnight_ferries();
    broken.album_id = String::new();
    assert!(normalize_library_albums(&vec![broken]).is_err());
    let unnamed = SongResult { video_id: String::new(), ..neon_harbour("x") };
    assert!(is_invalid_search(normalize_song_results(&vec![unnamed])));
}

#[test]
fn rows_are_read_in_full() {
    let credits = object(vec![(
        "musicResponsiveListItemFlexColumnRenderer",
        object(vec![(
            "text",
            object(vec![(
                "runs",
                list(vec![
                    page_run("Harbour Unit", "MUSIC_PAGE_TYPE_ARTIST"),
                    object(vec![("text", text(" & "))]),
                    page_run("Harbour Unit", "MUSIC_PAGE_TYPE_ARTIST"),
                    page_run("Second", "MUSIC_PAGE_TYPE_ARTIST"),
                    page_run("Ferries", "MUSIC_PAGE_TYPE_ALBUM"),
                ]),
            )]),
        )]),
    )]);
    let fixed = object(vec![(
        "musicResponsiveListItemFixedColumnRenderer",
        object(vec![("text", object(vec![("simpleText", text("3:21"))]))]),
    )]);
    let badge = object(vec![(
        "musicInlineBadgeRenderer",
        object(vec![("icon", object(vec![("iconType", text("MUSIC_EXPLICIT_BADGE"))]))]),
    )]);
    let mut members = row_members("full", "MUSIC_VIDEO_TYPE_OMV");
    members.retain(|(key, _)| *key != "flexColumns");
    members.push(("flexColumns", list(vec![column(vec!["A ", "title"]), credits])));
    members.push(("fixedColumns", list(vec![fixed])));
    members.push(("badges", list(vec![badge])));
    let value = page_of(vec![carousel("Top videos", vec![row(members)])]);

    let report = parse_chart_response(&encode(&value)).unwrap_or_else(|_| panic!("charts"));
    assert!(report.warnings.is_empty());
    let item = &report.value[0].items()[0];
    assert_eq!(item.id.provider, "youtube-music");
    assert_eq!(item.kind, MediaKind::Video);
    assert_eq!(item.title, "A title");
    assert_eq!(item.creators, ["Harbour Unit", "Second"]);
    assert_eq!(item.collection.as_deref(), Some("Ferries"));
    assert_eq!(item.duration_ms, Some(201_000));
    assert_eq!(item.artwork_url.as_deref(), Some("https://art.invalid/hk.jpg"));
    assert!(item.explicit);
}

#[test]
fn rows_that_cannot_be_read_are_left_out_with_a_warning() {
    let mut conflicting = row_members("one", "MUSIC_VIDEO_TYPE_ATV");
    conflicting[0] = ("playlistItemData", object(vec![("videoId", text("two"))]));
    let mut unnamed = row_members("unnamed", "MUSIC_VIDEO_TYPE_ATV");
    unnamed.retain(|(key, _)| *key != "flexColumns");
    let mut unidentified = row_members("x", "MUSIC_VIDEO_TYPE_ATV");
    unidentified.retain(|(key, _)| *key != "playlistItemData" && *key != "overlay");
    let unsupported = row_members("other", "MUSIC_VIDEO_TYPE_OTHER");
    let invalid = row_members("a b", "MUSIC_VIDEO_TYPE_ATV");
    let value = page_of(vec![carousel(
        "Top songs",
        vec![
            row(conflicting),
            row(unnamed),
            row(unidentified),
            row(unsupported),
            row(invalid),
            chart_row("kept"),
        ],
    )]);
    let report = parse_chart_response(&encode(&value)).unwrap_or_else(|_| panic!("charts"));
    let kinds: Vec<ParseWarningKind> =
        report.warnings.iter().map(|warning| warning.kind).collect();
    assert_eq!(
        kinds,
        [
            ParseWarningKind::ConflictingVideoId,
            ParseWarningKind::MissingTitle,
            ParseWarningKind::MissingVideoId,
            ParseWarningKind::UnsupportedMediaKind,
            ParseWarningKind::InvalidVideoId,
        ]
    );
    assert_eq!(report.value.len(), 1);
    assert_eq!(report.value[0].items().len(), 1);
    assert_eq!(report.value[0].items()[0].title, "Harbour Lights");

    let nothing = page_of(vec![carousel("Top songs", vec![row(Vec::new())])]);
    assert!(matches!(
        parse_chart_response(&encode(&nothing)),
        Err(ParseError::UnusableResponse { response: "charts" })
    ));
    let crowd = page_of((0..65).map(|_| carousel("Top songs", Vec::new())).collect());
    assert!(matches!(
        parse_chart_response(&encode(&crowd)),
        Err(ParseError::ResourceLimit {
            response: "charts",
            resource: ParseResource::Sections
        })
    ));
}

#[test]
fn search_results_are_read_from_their_shelves() {
    let shelf = object(vec![(
        "musicShelfRenderer",
        object(vec![("contents", list(vec![chart_row("found")]))]),
    )]);
    let value = object(vec![(
        "contents",
        object(vec![(
            "tabbedSearchResultsRenderer",
            object(vec![(
                "tabs",
                list(vec![object(vec![(
                    "tabRenderer",
                    object(vec![(
                        "content",
                        object(vec![(
                            "sectionListRenderer",
                            object(vec![("contents", list(vec![shelf]))]),
                        )]),
                    )]),
                )])]),
            )]),
        )]),
    )]);
    let report = parse_search_response(&encode(&value)).unwrap_or_else(|_| panic!("results"));
    assert_eq!(report.value.items.len(), 1);
    match &report.value.items[0] {
        SearchItem::Playable(item) => assert_eq!(item.id.video_id, "found"),
        _ => panic!("a song"),
    }
}

#[test]
fn a_full_writer_takes_nothing_more() {
    let mut writer = CappedWriter::new(5);
    assert_eq!(writer.write(b"abc").ok(), Some(3));
    assert_eq!(writer.accept(b"defg"), 2);
    assert_eq!(writer.write(b"h").ok(), Some(0));
    assert!(writer.flush().is_ok());
    assert_eq!(writer.into_bytes(), b"abcde");
    assert_eq!(encode(&object(vec![("b", list(vec![Value::Null])), ("a", Value::from(1))])), br#"{"a":1,"b":[null]}"#);
}

#[test]
fn plain_lyrics_are_clean_whatever_they_are_made_of() {
    for (source, text) in [
        ("  la\r\nla  ", "la\nla"),
        ("\u{7} la \u{7}", "la"),
        ("\u{a0}la\tla\u{2003}", "la la"),
    ] {
        let lyrics = PlainLyrics::new(source).unwrap_or_else(|_| panic!("lyrics"));
        assert_eq!(lyrics.text(), text);
        assert_eq!(lyrics.text(), lyrics.text().trim());
        assert_eq!(lyrics.clone().text(), lyrics.text());
        let again = PlainLyrics::new(lyrics.text()).unwrap_or_else(|_| panic!("lyrics"));
        assert_eq!(again.text(), lyrics.text());
    }
    assert!(PlainLyrics::new(" \u{7}\n ").is_err());
    let long = "a".repeat(MAX_LYRICS_TEXT_BYTES);
    assert!(PlainLyrics::new(&long).is_ok_and(|lyrics| lyrics.text() == long));
    assert!(PlainLyrics::new(&format!("{long}a")).is_err());
}

#[test]
fn pages_are_empty_at_first_and_copied_whole() {
    let empty: Page<SearchItem> = Page::default();
    assert!(empty.items.is_empty());
    assert!(empty.continuation.is_none());
    assert!(!empty.stale);
    let page = normalize_song_results(&vec![neon_harbour("song_01")])
        .unwrap_or_else(|_| panic!("songs"));
    assert!(page.clone() == page);
}
