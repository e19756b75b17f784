//! Extraction: what an input becomes, and how links of Spotify are read.
use soulrust::config::{AppContext, Config, ConfigChanged};
use soulrust::extract::{
    ExtractError, ExtractRequest, Extractor, ExtractorComponent, ExtractorRegistry, Job,
    PlainQueryExtractor, SearchJob, StandardExtractor,
};
use soulrust::json::Json;
use soulrust::spotify::{
    parse_spotify_ref, token_from_json, token_granted, SpotifyExtractor, SpotifyRef, SpotifyStep,
    SpotifyToken,
};

struct FixedExtractor {
    prefix: &'static str,
    label: &'static str,
}

impl Extractor for FixedExtractor {
    fn matches(&self, input: &str) -> bool {
        input.starts_with(self.prefix)
    }

    fn extract(&self, input: &str, _config: &Config) -> Result<Job, ExtractError> {
        Ok(Job {
            source_label: self.label.into(),
            searches: vec![SearchJob { raw_query: Some(input.into()), ..Default::default() }],
            folder: None,
        })
    }
}

#[test]
fn first_matching_extractor_wins() {
    let registry = ExtractorRegistry::new(vec![
        FixedExtractor { prefix: "spotify", label: "first" },
        FixedExtractor { prefix: "", label: "fallback" },
    ]);
    let config = Config::default();
    assert_eq!(registry.extract("spotify-thing", &config).unwrap().source_label, "first");
    assert_eq!(registry.extract("anything else", &config).unwrap().source_label, "fallback");
}

#[test]
fn empty_input_is_rejected_before_matching() {
    let registry = ExtractorRegistry::new(vec![FixedExtractor { prefix: "", label: "fallback" }]);
    assert_eq!(registry.extract("   ", &Config::default()), Err(ExtractError::EmptyInput));
}

#[test]
fn an_input_that_nobody_reads_is_refused() {
    let registry = ExtractorRegistry::new(vec![FixedExtractor { prefix: "x", label: "x" }]);
    assert_eq!(
        registry.extract("y", &Config::default()),
        Err(ExtractError::Parse("no extractor matches this input".into()))
    );
}

#[test]
fn search_job_query_prefers_raw() {
    let job = SearchJob {
        artist: Some("Artist".into()),
        title: Some("Title".into()),
        raw_query: Some("verbatim".into()),
        ..Default::default()
    };
    assert_eq!(job.to_query(), "verbatim");

    let job = SearchJob {
        artist: Some("Artist".into()),
        title: Some("Title".into()),
        ..Default::default()
    };
    assert_eq!(job.to_query(), "Artist Title");
}

#[test]
fn plain_input_becomes_one_verbatim_search() {
    let job = PlainQueryExtractor.extract("  artist - title  ", &Config::default()).unwrap();
    assert_eq!(job.searches.len(), 1);
    assert_eq!(job.searches[0].to_query(), "artist - title");
}

#[test]
fn the_component_answers_with_a_job_or_with_words() {
    let registry = ExtractorRegistry::new(vec![
        StandardExtractor::Links(FixedExtractor { prefix: "link:", label: "links" }),
        StandardExtractor::Plain(PlainQueryExtractor),
    ]);
    let mut component = ExtractorComponent::with_registry(registry, Config::default());
    let found = component.extract_request(&ExtractRequest { corr: 8, input: "link:1".into() });
    assert_eq!(found.corr, 8);
    assert_eq!(found.result.unwrap().source_label, "links");
    let plain = component.extract_request(&ExtractRequest { corr: 9, input: "a b".into() });
    assert_eq!(plain.result.unwrap().source_label, "search: a b");
    let empty = component.extract_request(&ExtractRequest { corr: 10, input: " ".into() });
    assert_eq!(empty.result, Err("input is empty".to_owned()));
    component.config_changed(&ConfigChanged { config: Config::default() });
    let ctx = AppContext::new(Config::default(), "/tmp/x".into());
    let standard = ExtractorComponent::new(&ctx, LinkExtractor);
    assert!(standard.extract_request(&ExtractRequest { corr: 1, input: "q".into() }).result.is_ok());
}

/// Takes Spotify links, and no other input.
struct LinkExtractor;

impl Extractor for LinkExtractor {
    fn matches(&self, input: &str) -> bool {
        parse_spotify_ref(input).is_some()
    }

    fn extract(&self, _input: &str, _config: &Config) -> Result<Job, ExtractError> {
        Ok(Job { source_label: "link".into(), searches: vec![], folder: None })
    }
}

#[test]
fn a_link_is_never_taken_as_plain_text() {
    let registry = ExtractorRegistry::standard(LinkExtractor);
    let config = Config::default();
    for link in [
        "https://open.spotify.com/track/4uLU6hMCjMI75M1A2tKUQC",
        "  spotify:album:4uLU6hMCjMI75M1A2tKUQC ",
    ] {
        assert_eq!(registry.extract(link, &config).unwrap().source_label, "link");
    }
    for text in ["spotify", "artist - title", "https://example.org/track/1"] {
        let job = registry.extract(text, &config).unwrap();
        assert_eq!(job.source_label, format!("search: {text}"));
        assert_eq!(job.searches[0].to_query(), text);
    }
}

#[test]
fn errors_have_words() {
    assert_eq!(
        ExtractError::MissingCredentials("x".into()).message(),
        "missing credentials: x"
    );
    assert_eq!(ExtractError::Api("x".into()).message(), "api error: x");
    assert_eq!(ExtractError::Parse("x".into()).message(), "parse error: x");
}

#[test]
fn parses_spotify_urls_and_uris() {
    assert_eq!(
        parse_spotify_ref("https://open.spotify.com/playlist/37i9dQZF1DXcBWIGoYBM5M?si=x"),
        Some(SpotifyRef::Playlist("37i9dQZF1DXcBWIGoYBM5M".into()))
    );
    assert_eq!(
        parse_spotify_ref("https://open.spotify.com/intl-nl/track/abc123"),
        Some(SpotifyRef::Track("abc123".into()))
    );
    assert_eq!(
        parse_spotify_ref("open.spotify.com/album/xyz"),
        Some(SpotifyRef::Album("xyz".into()))
    );
    assert_eq!(
        parse_spotify_ref("spotify:track:abc123"),
        Some(SpotifyRef::Track("abc123".into()))
    );
    assert_eq!(parse_spotify_ref("https://example.com/track/abc"), None);
    assert_eq!(parse_spotify_ref("plain search text"), None);
    assert_eq!(parse_spotify_ref("https://open.spotify.com/artist/abc"), None);
}

fn text(s: &str) -> Json {
    Json::Text(s.to_owned())
}

fn object(members: Vec<(&str, Json)>) -> Json {
    Json::Object(members.into_iter().map(|(k, v)| (k.to_owned(), v)).collect())
}

fn track(artist: &str, title: &str) -> Json {
    object(vec![
        ("name", text(title)),
        ("artists", Json::Array(vec![object(vec![("name", text(artist))])])),
    ])
}

struct MockApi {
    responses: Vec<(String, Json)>,
    token_calls: u32,
    fail_token: bool,
}

impl MockApi {
    fn new(responses: Vec<(&str, Json)>) -> Self {
        MockApi {
            responses: responses.into_iter().map(|(k, v)| (k.to_owned(), v)).collect(),
            token_calls: 0,
            fail_token: false,
        }
    }

    fn client_credentials_token(&mut self) -> Result<SpotifyToken, String> {
        self.token_calls += 1;
        if self.fail_token {
            return Err("401 invalid_client".into());
        }
        Ok(SpotifyToken { access_token: "test-token".into(), expires_at: 3600 * 1_000_000_000 })
    }

    fn get_json(&mut self, access_token: &str, url: &str) -> Result<Json, String> {
        assert_eq!(access_token, "test-token");
        match self.responses.iter().position(|(u, _)| u == url) {
            Some(i) => Ok(copy(&self.responses[i].1)),
            None => Err(format!("unexpected url in test: {url}")),
        }
    }
}

fn copy(value: &Json) -> Json {
    match value {
        Json::Null => Json::Null,
        Json::Bool(b) => Json::Bool(*b),
        Json::Number(n) => Json::Number(*n),
        Json::Text(t) => Json::Text(t.clone()),
        Json::Array(items) => Json::Array(items.iter().map(copy).collect()),
        Json::Object(members) => {
            Json::Object(members.iter().map(|(k, v)| (k.clone(), copy(v))).collect())
        }
    }
}

fn run(
    extractor: &mut SpotifyExtractor,
    api: &mut MockApi,
    input: &str,
    config: &Config,
) -> Result<Job, ExtractError> {
    let mut step = extractor.begin(input, config, 1);
    loop {
        step = match step {
            SpotifyStep::Nothing => panic!("an extraction was begun"),
            SpotifyStep::FetchToken { client_id, client_secret } => {
                assert_eq!((client_id.as_str(), client_secret.as_str()), ("id", "secret"));
                let reply = api.client_credentials_token();
                extractor.token(reply)
            }
            SpotifyStep::Fetch { token, url } => {
                let reply = api.get_json(&token, &url);
                extractor.page(reply)
            }
            SpotifyStep::Done(result) => return result,
        };
    }
}

fn config_with_creds() -> Config {
    let mut config = Config::default();
    config.spotify.client_id = Some("id".into());
    config.spotify.client_secret = Some("secret".into());
    config
}

#[test]
fn missing_credentials_is_a_clear_error() {
    let mut extractor = SpotifyExtractor::new();
    let mut api = MockApi::new(vec![]);
    let result = run(&mut extractor, &mut api, "spotify:track:abc", &Config::default());
    assert!(matches!(result, Err(ExtractError::MissingCredentials(_))));
    assert_eq!(api.token_calls, 0);
}

#[test]
fn token_failure_surfaces_as_api_error() {
    let mut api = MockApi::new(vec![]);
    api.fail_token = true;
    let mut extractor = SpotifyExtractor::new();
    let result = run(&mut extractor, &mut api, "spotify:track:abc", &config_with_creds());
    assert!(matches!(result, Err(ExtractError::Api(e)) if e.contains("401")));
}

#[test]
fn track_extraction() {
    let mut api = MockApi::new(vec![(
        "https://api.spotify.com/v1/tracks/abc",
        object(vec![
            ("name", text("Song")),
            ("artists", Json::Array(vec![object(vec![("name", text("Artist"))])])),
            ("album", object(vec![("name", text("Album"))])),
        ]),
    )]);
    let mut extractor = SpotifyExtractor::new();
    let job = run(
        &mut extractor,
        &mut api,
        "https://open.spotify.com/track/abc",
        &config_with_creds(),
    )
    .unwrap();
    assert_eq!(job.source_label, "spotify track: Song");
    assert_eq!(
        job.searches,
        vec![SearchJob {
            artist: Some("Artist".into()),
            title: Some("Song".into()),
            album: Some("Album".into()),
            raw_query: None,
        }]
    );
}

#[test]
fn album_extraction_follows_pagination() {
    let mut api = MockApi::new(vec![
        (
            "https://api.spotify.com/v1/albums/alb",
            object(vec![
                ("name", text("The Album")),
                (
                    "tracks",
                    object(vec![
                        ("items", Json::Array(vec![track("A", "One")])),
                        ("next", text("https://api.spotify.com/v1/albums/alb/tracks?offset=1")),
                    ]),
                ),
            ]),
        ),
        (
            "https://api.spotify.com/v1/albums/alb/tracks?offset=1",
            object(vec![("items", Json::Array(vec![track("A", "Two")])), ("next", Json::Null)]),
        ),
    ]);
    let mut extractor = SpotifyExtractor::new();
    let job =
        run(&mut extractor, &mut api, "spotify:album:alb", &config_with_creds()).unwrap();
    assert_eq!(job.source_label, "spotify album: The Album");
    assert_eq!(job.searches.len(), 2);
    assert_eq!(job.searches[1].title.as_deref(), Some("Two"));
    assert!(job.searches.iter().all(|s| s.album.as_deref() == Some("The Album")));
    assert_eq!(job.folder.as_deref(), Some("The Album"));
}

#[test]
fn playlist_extraction_follows_pagination_and_skips_local_files() {
    let mut api = MockApi::new(vec![
        (
            "https://api.spotify.com/v1/playlists/pl?fields=name",
            object(vec![("name", text("Mix"))]),
        ),
        (
            "https://api.spotify.com/v1/playlists/pl/tracks?limit=100",
            object(vec![
                (
                    "items",
                    Json::Array(vec![
                        object(vec![("track", track("X", "First"))]),
                        object(vec![("track", Json::Null)]),
                    ]),
                ),
                (
                    "next",
                    text("https://api.spotify.com/v1/playlists/pl/tracks?limit=100&offset=100"),
                ),
            ]),
        ),
        (
            "https://api.spotify.com/v1/playlists/pl/tracks?limit=100&offset=100",
            object(vec![
                ("items", Json::Array(vec![object(vec![("track", track("Y", "Second"))])])),
                ("next", Json::Null),
            ]),
        ),
    ]);
    let mut extractor = SpotifyExtractor::new();
    let job = run(
        &mut extractor,
        &mut api,
        "https://open.spotify.com/playlist/pl",
        &config_with_creds(),
    )
    .unwrap();
    assert_eq!(job.source_label, "spotify playlist: Mix");
    assert_eq!(job.searches.len(), 2);
    assert_eq!(job.searches[0].to_query(), "X First");
    assert_eq!(job.searches[1].to_query(), "Y Second");
}

#[test]
fn token_is_cached_across_extractions() {
    let mut api =
        MockApi::new(vec![("https://api.spotify.com/v1/tracks/abc", track("A", "T"))]);
    let mut extractor = SpotifyExtractor::new();
    let config = config_with_creds();
    run(&mut extractor, &mut api, "spotify:track:abc", &config).unwrap();
    run(&mut extractor, &mut api, "spotify:track:abc", &config).unwrap();
    assert_eq!(api.token_calls, 1, "token must be fetched once and cached");
}

#[test]
fn a_track_without_a_name_is_refused() {
    let mut api = MockApi::new(vec![("https://api.spotify.com/v1/tracks/abc", Json::Null)]);
    let mut extractor = SpotifyExtractor::new();
    assert_eq!(
        run(&mut extractor, &mut api, "spotify:track:abc", &config_with_creds()),
        Err(ExtractError::Parse("track response missing name".into()))
    );
    assert_eq!(
        run(&mut extractor, &mut api, "nothing", &config_with_creds()),
        Err(ExtractError::Parse("not a spotify url".into()))
    );
    assert!(matches!(extractor.page(Ok(Json::Null)), SpotifyStep::Nothing));
    assert!(extractor.matches("spotify:track:abc"));
}

#[test]
fn tokens_are_read_from_their_response() {
    let granted = object(vec![("access_token", text("t")), ("expires_in", Json::Number(Some(100)))]);
    let token = token_from_json(&granted, 5).ok().unwrap();
    assert_eq!(token.access_token, "t");
    assert_eq!(token.expires_at, 40_000_000_005);
    let short = object(vec![("access_token", text("t")), ("expires_in", Json::Number(Some(7)))]);
    assert_eq!(token_from_json(&short, 5).ok().unwrap().expires_at, 5);
    let unsaid = object(vec![("access_token", text("t"))]);
    assert_eq!(token_from_json(&unsaid, 0).ok().unwrap().expires_at, 3_540_000_000_000);
    assert_eq!(
        token_from_json(&Json::Null, 0).err().as_deref(),
        Some("token response missing access_token")
    );
    assert_eq!(token_granted(&granted), Ok(()));
    assert!(token_granted(&Json::Bool(true)).is_err());
}
