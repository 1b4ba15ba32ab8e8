use hakuren_bot::config::{default_interval, default_state_path, Config, ConfigError, Watch, YoutubeWatch};
use hakuren_bot::feed::{sort_by_published, EmbedField, FeedItem, SourceKind};
use hakuren_bot::note::{contents_url, published_items, read_publish_at, Note, NoteUser};
use hakuren_bot::notifier::{after_response, build_embed, build_payload, truncate, Delivery, NotifyError, NotifyTarget};
use hakuren_bot::state::{CreatorState, State};
use hakuren_bot::text::{first_chars, trim};
use hakuren_bot::time::Timestamp;
use hakuren_bot::watcher::{note_target, youtube_target, Round};
use hakuren_bot::youtube::{
    channel_page_url, direct_channel_id, extract_channel_id, feed_items, feed_url, state_key, ChannelResolver, Entry, Feed,
};

const ID: &str = "UCabcdefghijklmnopqrstuv";

fn watch(urlname: &str, hook: Option<&str>) -> Watch {
    Watch { urlname: urlname.to_string(), webhook_url: hook.map(str::to_string), discord_username: None, mention: None }
}

fn config(hook: Option<&str>, watches: Vec<Watch>) -> Config {
    Config {
        poll_interval_secs: default_interval(),
        notify_on_first_run: false,
        state_path: default_state_path(),
        webhook_url: hook.map(str::to_string),
        discord_username: None,
        watch: watches,
        youtube: Vec::new(),
    }
}

fn item(id: &str, when: Option<&str>) -> FeedItem {
    FeedItem {
        id: id.to_string(),
        title: format!("title {id}"),
        url: format!("https://example.com/{id}"),
        published_at: when.and_then(Timestamp::parse_rfc3339),
        author_name: "author".to_string(),
        author_url: None,
        author_icon: None,
        description: None,
        thumbnail: None,
        source: SourceKind::Note,
        fields: Vec::new(),
    }
}

fn ids(items: &[FeedItem]) -> Vec<String> {
    items.iter().map(|i| i.id.clone()).collect()
}

fn announced(round: &mut Round, state: &State) -> Vec<String> {
    let mut out = Vec::new();
    while let Some(i) = round.next_to_announce(state) {
        out.push(round.item(i).unwrap().id.clone());
    }
    out
}

#[test]
fn defaults_match_the_documented_values() {
    assert_eq!(default_interval(), 300);
    assert_eq!(default_state_path(), "state.json");
}

#[test]
fn webhook_prefers_the_entry_then_the_top_level() {
    let cfg = config(Some("top"), vec![watch("a", Some("own")), watch("b", Some("")), watch("c", None)]);
    assert_eq!(cfg.webhook_for(&cfg.watch[0]), "own");
    assert_eq!(cfg.webhook_for(&cfg.watch[1]), "top");
    assert_eq!(cfg.webhook_for(&cfg.watch[2]), "top");
    let bare = config(Some(""), vec![watch("a", None)]);
    assert_eq!(bare.webhook_for(&bare.watch[0]), "");
}

#[test]
fn username_prefers_the_entry_then_the_top_level() {
    let mut cfg = config(Some("top"), vec![watch("a", None)]);
    assert_eq!(cfg.username_for(&cfg.watch[0]), None);
    cfg.discord_username = Some("bot".to_string());
    assert_eq!(cfg.username_for(&cfg.watch[0]), Some("bot"));
    cfg.watch[0].discord_username = Some("mine".to_string());
    assert_eq!(cfg.username_for(&cfg.watch[0]), Some("mine"));
}

#[test]
fn validate_reports_each_problem() {
    assert!(matches!(config(Some("top"), vec![]).validate(), Err(ConfigError::NoWatch)));
    assert!(matches!(config(Some("top"), vec![watch(" \t", None)]).validate(), Err(ConfigError::EmptyUrlname)));
    let err = config(None, vec![watch("alice", Some("x")), watch("bob", None)]).validate().unwrap_err();
    match &err {
        ConfigError::NoWebhook { urlname } => assert_eq!(urlname, "bob"),
        other => panic!("unexpected {other:?}"),
    }
    assert_eq!(err.message(), "watch 'bob' has no webhook_url and no top-level webhook_url is set");
    assert_eq!(ConfigError::NoWatch.message(), "no [[watch]] entries in config");
    assert!(config(Some("top"), vec![watch("alice", None)]).validate().is_ok());
}

#[test]
fn environment_webhook_fills_a_missing_top_level_one() {
    let cfg = config(None, vec![watch("alice", None)]).with_env_webhook(Some("env".to_string())).unwrap();
    assert_eq!(cfg.webhook_url.as_deref(), Some("env"));
    let kept = config(Some("file"), vec![watch("alice", None)]).with_env_webhook(Some("env".to_string())).unwrap();
    assert_eq!(kept.webhook_url.as_deref(), Some("file"));
    assert!(config(None, vec![watch("alice", None)]).with_env_webhook(Some(String::new())).is_err());
    assert!(config(None, vec![watch("alice", None)]).with_env_webhook(None).is_err());
}

#[test]
fn timestamps_are_parsed_by_chrono() {
    let t = Timestamp::parse_rfc3339("2024-01-02T03:04:05+09:00").unwrap();
    assert_eq!(t.secs, 1_704_132_245);
    assert_eq!(t.nanos, 0);
    assert_eq!(t.rfc3339, "2024-01-02T03:04:05+09:00");
    assert!(Timestamp::parse_rfc3339("yesterday").is_none());
    let relaxed = Timestamp::parse_relaxed("2024-01-02 03:04:05.5+09:00").unwrap();
    assert_eq!(relaxed.secs, 1_704_132_245);
    assert_eq!(relaxed.nanos, 500_000_000);
}

#[test]
fn sorting_puts_undated_first_and_keeps_ties_in_order() {
    let items = vec![
        item("late", Some("2024-01-03T00:00:00Z")),
        item("none", None),
        item("early", Some("2024-01-01T00:00:00Z")),
        item("tie", Some("2024-01-03T09:00:00+09:00")),
    ];
    let sorted = sort_by_published(items);
    assert_eq!(ids(&sorted), vec!["none", "early", "late", "tie"]);
}

#[test]
fn truncate_cuts_with_an_ellipsis() {
    assert_eq!(truncate("short", 10), "short");
    assert_eq!(truncate("abcdef", 4), "abc\u{2026}");
    assert_eq!(truncate("あいうえお", 3), "あい\u{2026}");
    assert_eq!(truncate("abc", 0), "\u{2026}");
    assert_eq!(truncate(&"x".repeat(300), 256).chars().count(), 256);
}

#[test]
fn trim_and_first_chars() {
    assert_eq!(trim("  hi there \n"), "hi there");
    assert_eq!(trim(" \u{3000} "), "");
    assert_eq!(first_chars("héllo", 2), "hé");
    assert_eq!(first_chars("hi", 200), "hi");
}

#[test]
fn embed_shows_the_item() {
    let mut it = item("n1", Some("2024-01-02T03:04:05+09:00"));
    it.description = Some("  desc  ".to_string());
    it.author_url = Some(String::new());
    it.author_icon = Some("icon".to_string());
    it.thumbnail = Some("thumb".to_string());
    it.fields = vec![EmbedField { name: "k".to_string(), value: "v".to_string() }];
    let e = build_embed(&it);
    assert_eq!(e.title, "title n1");
    assert_eq!(e.color, 0x41c9b4);
    assert_eq!(e.footer, "note");
    assert_eq!(e.author.url, None);
    assert_eq!(e.author.icon_url.as_deref(), Some("icon"));
    assert_eq!(e.description.as_deref(), Some("desc"));
    assert_eq!(e.image.as_deref(), Some("thumb"));
    assert_eq!(e.timestamp.as_deref(), Some("2024-01-02T03:04:05+09:00"));
    assert_eq!(e.fields.len(), 1);

    it.description = Some("   ".to_string());
    it.source = SourceKind::Youtube;
    let e = build_embed(&it);
    assert_eq!(e.description, None);
    assert_eq!(e.color, 0xff0000);
    assert_eq!(e.footer, "YouTube");
}

#[test]
fn payload_needs_a_webhook() {
    let it = item("n1", None);
    let empty = NotifyTarget { webhook_url: "", username: None, mention: None };
    assert!(matches!(build_payload(&empty, &it), Err(NotifyError::EmptyWebhookUrl)));
    let target = NotifyTarget { webhook_url: "https://hook", username: Some("bot"), mention: Some("@here") };
    let p = build_payload(&target, &it).unwrap();
    assert_eq!(p.embeds.len(), 1);
    assert_eq!(p.username.as_deref(), Some("bot"));
    assert_eq!(p.content.as_deref(), Some("@here"));
}

#[test]
fn delivery_retries_rate_limits_twice_at_most() {
    assert_eq!(after_response(1, 204), Delivery::Delivered);
    assert_eq!(after_response(1, 429), Delivery::RetryAfterWait);
    assert_eq!(after_response(2, 429), Delivery::RetryAfterWait);
    assert_eq!(after_response(3, 429), Delivery::Failed);
    assert_eq!(after_response(1, 500), Delivery::Failed);
    assert_eq!(after_response(1, 199), Delivery::Failed);
}

#[test]
fn channel_ids_are_recognised() {
    assert_eq!(direct_channel_id(ID).as_deref(), Some(ID));
    assert_eq!(direct_channel_id(&format!("https://www.youtube.com/channel/{ID}")).as_deref(), Some(ID));
    assert_eq!(direct_channel_id(&format!("channel/{ID}")).as_deref(), Some(ID));
    assert_eq!(direct_channel_id("@somebody"), None);
    assert_eq!(direct_channel_id("UCabcdefghijklmnopqrstu!"), None);
    assert_eq!(direct_channel_id("UCshort"), None);
}

#[test]
fn channel_ids_are_found_in_pages() {
    let page = format!("<link rel=\"canonical\" href=\"https://www.youtube.com/channel/{ID}\">");
    assert_eq!(extract_channel_id(&page).as_deref(), Some(ID));
    let fallback = format!("<a href=\"//youtube.com/channel/XX\"></a> youtube.com/channel/{ID}");
    assert_eq!(extract_channel_id(&fallback), None);
    let other = format!("see https://www.youtube.com/channel/{ID}/videos");
    assert_eq!(extract_channel_id(&other).as_deref(), Some(ID));
    assert_eq!(extract_channel_id("nothing here"), None);
}

#[test]
fn resolver_remembers_what_it_learned() {
    let mut r = ChannelResolver::new();
    assert_eq!(r.known(ID).as_deref(), Some(ID));
    assert_eq!(r.known("@someone"), None);
    let page = format!("youtube.com/channel/{ID}\"");
    assert_eq!(r.learn("@someone", &page).as_deref(), Some(ID));
    assert_eq!(r.known("@someone").as_deref(), Some(ID));
    assert_eq!(r.learn("@other", "no id"), None);
    assert_eq!(r.known("@other"), None);
}

#[test]
fn youtube_urls() {
    assert_eq!(channel_page_url("@handle"), "https://www.youtube.com/@handle");
    assert_eq!(channel_page_url("handle"), "https://www.youtube.com/@handle");
    assert_eq!(channel_page_url("https://youtube.com/@h"), "https://youtube.com/@h");
    assert_eq!(feed_url(ID), format!("https://www.youtube.com/feeds/videos.xml?channel_id={ID}"));
    assert_eq!(state_key(ID), format!("youtube:{ID}"));
}

#[test]
fn feed_entries_become_items() {
    let feed = Feed {
        title: "Channel".to_string(),
        entries: vec![
            Entry { id: "yt:video:abc".to_string(), title: "first".to_string(), published: "2024-01-01T00:00:00+00:00".to_string() },
            Entry { id: "raw".to_string(), title: "second".to_string(), published: "bad".to_string() },
        ],
    };
    let items = feed_items(ID, &feed);
    assert_eq!(items.len(), 2);
    assert_eq!(items[0].id, "abc");
    assert_eq!(items[0].url, "https://www.youtube.com/watch?v=abc");
    assert_eq!(items[0].thumbnail.as_deref(), Some("https://i.ytimg.com/vi/abc/hqdefault.jpg"));
    assert_eq!(items[0].author_url.as_deref(), Some(format!("https://www.youtube.com/channel/{ID}").as_str()));
    assert_eq!(items[0].author_name, "Channel");
    assert_eq!(items[0].published_at.as_ref().map(|t| t.secs), Some(1_704_067_200));
    assert_eq!(items[1].id, "raw");
    assert!(items[1].published_at.is_none());
    assert_eq!(items[1].source, SourceKind::Youtube);
}

fn note(key: &str, status: &str) -> Note {
    Note {
        key: key.to_string(),
        name: format!("name {key}"),
        note_url: format!("https://note.com/u/n/{key}"),
        status: status.to_string(),
        description: None,
        eyecatch: Some("eye".to_string()),
        publish_at: None,
        like_count: 3,
        comment_count: 1,
        user: NoteUser { nickname: "Nick".to_string(), urlname: "u".to_string(), profile_image: None },
    }
}

#[test]
fn only_published_notes_are_items() {
    assert!(note("a", "").is_published());
    assert!(note("a", "published").is_published());
    assert!(!note("a", "draft").is_published());
    let items = published_items(vec![note("a", "published"), note("b", "draft"), note("c", "")]);
    assert_eq!(ids(&items), vec!["a", "c"]);
    assert_eq!(items[0].author_url.as_deref(), Some("https://note.com/u"));
    assert_eq!(items[0].thumbnail.as_deref(), Some("eye"));
    assert_eq!(items[0].author_name, "Nick");
    assert_eq!(contents_url("u"), "https://note.com/api/v2/creators/u/contents?kind=note&page=1");
}

#[test]
fn publish_dates_are_read_like_serde() {
    assert!(matches!(read_publish_at(None), Ok(None)));
    let t = read_publish_at(Some("2024-01-02T03:04:05+09:00")).unwrap().unwrap();
    assert_eq!(t.secs, 1_704_132_245);
    assert!(read_publish_at(Some("soon")).is_err());
}

#[test]
fn creator_state_is_made_on_demand() {
    let mut state = State::new();
    let cs = state.creator_mut("alice");
    assert!(!cs.initialized);
    cs.insert_seen("x");
    cs.insert_seen("x");
    assert_eq!(state.creators.len(), 1);
    assert!(state.is_seen("alice", "x"));
    assert!(!state.is_seen("bob", "x"));
    assert_eq!(state.creator_mut("alice").seen_keys.len(), 1);
    let fresh = CreatorState::new();
    assert!(!fresh.is_seen("x"));
}

#[test]
fn first_poll_takes_in_existing_items_silently() {
    let mut state = State::new();
    let items = vec![item("a", None), item("b", None)];
    let mut round = Round::start(&mut state, "alice", items, false);
    assert!(round.is_first_run());
    assert!(announced(&mut round, &state).is_empty());
    assert!(state.is_seen("alice", "a") && state.is_seen("alice", "b"));
}

#[test]
fn first_poll_can_announce_everything() {
    let mut state = State::new();
    let items = vec![item("b", Some("2024-02-01T00:00:00Z")), item("a", Some("2024-01-01T00:00:00Z"))];
    let mut round = Round::start(&mut state, "alice", items, true);
    assert_eq!(round.item_count(), 2);
    assert_eq!(announced(&mut round, &state), vec!["a", "b"]);
    assert!(state.is_seen("alice", "a"));
}

#[test]
fn later_polls_announce_only_new_items_until_delivered() {
    let mut state = State::new();
    Round::start(&mut state, "alice", vec![item("a", None)], false);

    let items = vec![item("a", None), item("b", Some("2024-01-01T00:00:00Z")), item("c", Some("2024-01-02T00:00:00Z"))];
    let mut round = Round::start(&mut state, "alice", items, true);
    assert!(!round.is_first_run());
    let first = round.next_to_announce(&state).unwrap();
    assert_eq!(round.item(first).unwrap().id, "b");
    round.report(&mut state, first, true);
    let second = round.next_to_announce(&state).unwrap();
    assert_eq!(round.item(second).unwrap().id, "c");
    round.report(&mut state, second, false);
    assert_eq!(round.next_to_announce(&state), None);
    assert!(state.is_seen("alice", "b"));
    assert!(!state.is_seen("alice", "c"));

    let again = vec![item("b", None), item("c", None)];
    let mut round = Round::start(&mut state, "alice", again, false);
    assert_eq!(announced(&mut round, &state), vec!["c"]);
}

#[test]
fn duplicate_ids_are_announced_once_when_delivered() {
    let mut state = State::new();
    Round::start(&mut state, "k", vec![], false);
    let mut round = Round::start(&mut state, "k", vec![item("x", None), item("x", None)], false);
    let i = round.next_to_announce(&state).unwrap();
    round.report(&mut state, i, true);
    assert_eq!(round.next_to_announce(&state), None);
}

#[test]
fn targets_follow_the_entry_settings() {
    let mut cfg = config(Some("top"), vec![watch("alice", None)]);
    cfg.watch[0].mention = Some(String::new());
    cfg.youtube.push(YoutubeWatch {
        channel: ID.to_string(),
        webhook_url: Some("yt".to_string()),
        discord_username: Some("tube".to_string()),
        mention: None,
    });
    let t = note_target(&cfg, &cfg.watch[0]);
    assert_eq!(t.webhook_url, "top");
    assert_eq!(t.mention, Some(""));
    let y = youtube_target(&cfg, &cfg.youtube[0]);
    assert_eq!(y.webhook_url, "yt");
    assert_eq!(y.username, Some("tube"));
    assert_eq!(y.mention, None);
}

#[test]
fn white_space_agrees_with_std_for_every_char() {
    for c in (0u32..=0x10ffff).filter_map(char::from_u32) {
        assert_eq!(hakuren_bot::text::char_is_whitespace(c), c.is_whitespace(), "{c:?}");
    }
}
