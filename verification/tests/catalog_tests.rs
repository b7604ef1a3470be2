use stream_portal::catalog::{
    classify_status, convert_lineups_to_streams, convert_lineups_to_streams_at, is_premium,
    requires_auth, stream_id, thumbnail_url, Image, Images, Lineup, LineupItem, SeenIds,
    StreamStatus,
};
use stream_portal::clock::{read_air_instant, Instant};

fn create_test_lineup_item(
    title: &str,
    item_type: &str,
    tier: &str,
    id_media: Option<i64>,
    key: &str,
) -> LineupItem {
    LineupItem {
        title: title.to_string(),
        key: key.to_string(),
        description: "Test description".to_string(),
        url: format!("https://cbc.ca/stream/{}", key),
        images: Some(Images {
            card: Some(Image { url: "https://cbc.ca/image/card.jpg".to_string() }),
            background: Some(Image { url: "https://cbc.ca/image/bg.jpg".to_string() }),
        }),
        air_date: Some("2024-07-26T14:00:00Z".to_string()),
        air_date_alt: None,
        item_type: item_type.to_string(),
        tier: tier.to_string(),
        is_vod_enabled: false,
        id_media,
    }
}

fn plain_item(images: Option<Images>, air_date: Option<&str>, air_date_alt: Option<&str>) -> LineupItem {
    LineupItem {
        title: "Game".to_string(),
        key: "game".to_string(),
        description: "Test".to_string(),
        url: "https://cbc.ca/stream".to_string(),
        images,
        air_date: air_date.map(|d| d.to_string()),
        air_date_alt: air_date_alt.map(|d| d.to_string()),
        item_type: "Live".to_string(),
        tier: "Free".to_string(),
        is_vod_enabled: false,
        id_media: Some(1),
    }
}

#[test]
fn test_convert_lineups_to_streams_filters_by_type() {
    let lineup = Lineup {
        title: "Hockey".to_string(),
        items: vec![
            create_test_lineup_item("Live Game", "Live", "Free", Some(123), "hockey-live"),
            create_test_lineup_item("Media Clip", "Media", "Free", Some(124), "hockey-media"),
            create_test_lineup_item("Article", "Article", "Free", Some(125), "hockey-article"),
        ],
    };

    let mut seen_ids = SeenIds::new();
    let streams = convert_lineups_to_streams(&[lineup], &mut seen_ids);

    assert_eq!(streams.len(), 2);
    assert!(streams.iter().any(|s| s.title == "Live Game"));
    assert!(streams.iter().any(|s| s.title == "Media Clip"));
    assert!(!streams.iter().any(|s| s.title == "Article"));
}

#[test]
fn test_convert_lineups_to_streams_deduplicates() {
    let lineup = Lineup {
        title: "Hockey".to_string(),
        items: vec![
            create_test_lineup_item("Game 1", "Live", "Free", Some(123), "game1"),
            create_test_lineup_item("Game 1 Duplicate", "Live", "Free", Some(123), "game1-dup"),
        ],
    };

    let mut seen_ids = SeenIds::new();
    let streams = convert_lineups_to_streams(&[lineup], &mut seen_ids);

    assert_eq!(streams.len(), 1);
    assert_eq!(streams[0].title, "Game 1");
}

#[test]
fn test_convert_lineups_to_streams_uses_id_media_as_key() {
    let lineup = Lineup {
        title: "Hockey".to_string(),
        items: vec![create_test_lineup_item("Game", "Live", "Free", Some(12345), "fallback-key")],
    };

    let mut seen_ids = SeenIds::new();
    let streams = convert_lineups_to_streams(&[lineup], &mut seen_ids);

    assert_eq!(streams.len(), 1);
    assert_eq!(streams[0].id, "12345");
}

#[test]
fn test_convert_lineups_to_streams_fallbacks_to_key() {
    let lineup = Lineup {
        title: "Hockey".to_string(),
        items: vec![LineupItem {
            title: "Game".to_string(),
            key: "fallback-key".to_string(),
            description: "Test".to_string(),
            url: "https://cbc.ca/stream".to_string(),
            images: None,
            air_date: Some("2024-07-26T14:00:00Z".to_string()),
            air_date_alt: None,
            item_type: "Live".to_string(),
            tier: "Free".to_string(),
            is_vod_enabled: false,
            id_media: None,
        }],
    };

    let mut seen_ids = SeenIds::new();
    let streams = convert_lineups_to_streams(&[lineup], &mut seen_ids);

    assert_eq!(streams.len(), 1);
    assert_eq!(streams[0].id, "fallback-key");
}

#[test]
fn test_convert_lineups_to_streams_sets_premium_flag() {
    let lineup = Lineup {
        title: "Hockey".to_string(),
        items: vec![
            create_test_lineup_item("Free Game", "Live", "Free", Some(1), "free"),
            create_test_lineup_item("Member Game", "Live", "Member", Some(2), "member"),
            create_test_lineup_item("Premium Game", "Live", "Premium", Some(3), "premium"),
        ],
    };

    let mut seen_ids = SeenIds::new();
    let streams = convert_lineups_to_streams(&[lineup], &mut seen_ids);

    let free_stream = streams.iter().find(|s| s.id == "1").unwrap();
    let member_stream = streams.iter().find(|s| s.id == "2").unwrap();
    let premium_stream = streams.iter().find(|s| s.id == "3").unwrap();

    assert!(!free_stream.requires_auth);
    assert!(!free_stream.is_premium);

    assert!(member_stream.requires_auth);
    assert!(!member_stream.is_premium);

    assert!(premium_stream.requires_auth);
    assert!(premium_stream.is_premium);
}

#[test]
fn test_convert_lineups_to_streams_extracts_thumbnail() {
    let lineup = Lineup {
        title: "Hockey".to_string(),
        items: vec![plain_item(
            Some(Images {
                card: Some(Image { url: "https://cbc.ca/card.jpg".to_string() }),
                background: Some(Image { url: "https://cbc.ca/bg.jpg".to_string() }),
            }),
            Some("2024-07-26T14:00:00Z"),
            None,
        )],
    };

    let mut seen_ids = SeenIds::new();
    let streams = convert_lineups_to_streams(&[lineup], &mut seen_ids);

    assert_eq!(streams[0].thumbnail_url, "https://cbc.ca/card.jpg");
}

#[test]
fn test_convert_lineups_to_streams_fallbacks_to_background_thumbnail() {
    let lineup = Lineup {
        title: "Hockey".to_string(),
        items: vec![plain_item(
            Some(Images {
                card: None,
                background: Some(Image { url: "https://cbc.ca/bg.jpg".to_string() }),
            }),
            Some("2024-07-26T14:00:00Z"),
            None,
        )],
    };

    let mut seen_ids = SeenIds::new();
    let streams = convert_lineups_to_streams(&[lineup], &mut seen_ids);

    assert_eq!(streams[0].thumbnail_url, "https://cbc.ca/bg.jpg");
}

#[test]
fn test_convert_lineups_to_streams_default_thumbnail() {
    let lineup = Lineup {
        title: "Hockey".to_string(),
        items: vec![plain_item(None, Some("2024-07-26T14:00:00Z"), None)],
    };

    let mut seen_ids = SeenIds::new();
    let streams = convert_lineups_to_streams(&[lineup], &mut seen_ids);

    assert_eq!(streams[0].thumbnail_url, "");
}

#[test]
fn test_convert_lineups_to_streams_uses_air_date_alt() {
    let lineup = Lineup {
        title: "Hockey".to_string(),
        items: vec![plain_item(None, None, Some("2024-07-26T16:00:00Z"))],
    };

    let mut seen_ids = SeenIds::new();
    let streams = convert_lineups_to_streams(&[lineup], &mut seen_ids);

    assert_eq!(streams[0].start_time, "2024-07-26T16:00:00Z");
}

#[test]
fn test_convert_lineups_to_streams_sets_sport() {
    let lineup = Lineup {
        title: "Figure Skating".to_string(),
        items: vec![create_test_lineup_item("Event", "Live", "Free", Some(1), "event")],
    };

    let mut seen_ids = SeenIds::new();
    let streams = convert_lineups_to_streams(&[lineup], &mut seen_ids);

    assert_eq!(streams[0].sport, "Figure Skating");
}

#[test]
fn test_convert_lineups_to_streams_preserves_stream_url() {
    let lineup = Lineup {
        title: "Hockey".to_string(),
        items: vec![LineupItem {
            title: "Game".to_string(),
            key: "game123".to_string(),
            description: "Test".to_string(),
            url: "https://gem.cbc.ca/media/sports/hockey/game123".to_string(),
            images: None,
            air_date: Some("2024-07-26T14:00:00Z".to_string()),
            air_date_alt: None,
            item_type: "Live".to_string(),
            tier: "Free".to_string(),
            is_vod_enabled: false,
            id_media: Some(1),
        }],
    };

    let mut seen_ids = SeenIds::new();
    let streams = convert_lineups_to_streams(&[lineup], &mut seen_ids);

    assert_eq!(streams[0].stream_url, "https://gem.cbc.ca/media/sports/hockey/game123");
}

#[test]
fn test_convert_lineups_to_streams_handles_multiple_lineups() {
    let lineups = vec![
        Lineup {
            title: "Hockey".to_string(),
            items: vec![create_test_lineup_item("Hockey Game", "Live", "Free", Some(1), "hockey")],
        },
        Lineup {
            title: "Figure Skating".to_string(),
            items: vec![create_test_lineup_item("Skating Event", "Live", "Free", Some(2), "skating")],
        },
    ];

    let mut seen_ids = SeenIds::new();
    let streams = convert_lineups_to_streams(&lineups, &mut seen_ids);

    assert_eq!(streams.len(), 2);
    assert!(streams.iter().any(|s| s.sport == "Hockey"));
    assert!(streams.iter().any(|s| s.sport == "Figure Skating"));
}

#[test]
fn test_convert_lineups_to_streams_empty_lineups() {
    let lineups: Vec<Lineup> = vec![];
    let mut seen_ids = SeenIds::new();
    let streams = convert_lineups_to_streams(&lineups, &mut seen_ids);

    assert!(streams.is_empty());
}

#[test]
fn test_convert_lineups_to_streams_lineup_with_no_items() {
    let lineup = Lineup { title: "Empty Sport".to_string(), items: vec![] };

    let mut seen_ids = SeenIds::new();
    let streams = convert_lineups_to_streams(&[lineup], &mut seen_ids);

    assert!(streams.is_empty());
}

#[test]
fn test_convert_lineups_to_streams_all_items_filtered() {
    let lineup = Lineup {
        title: "Hockey".to_string(),
        items: vec![
            create_test_lineup_item("Article 1", "Article", "Free", Some(1), "art1"),
            create_test_lineup_item("Article 2", "Article", "Free", Some(2), "art2"),
        ],
    };

    let mut seen_ids = SeenIds::new();
    let streams = convert_lineups_to_streams(&[lineup], &mut seen_ids);

    assert!(streams.is_empty());
}

#[test]
fn identity_key_prefers_the_media_number() {
    let item = create_test_lineup_item("Game", "Live", "Free", Some(-42), "fallback-key");
    assert_eq!(stream_id(&item), "-42");
    let item = create_test_lineup_item("Game", "Live", "Free", Some(0), "fallback-key");
    assert_eq!(stream_id(&item), "0");
    let item = create_test_lineup_item("Game", "Live", "Free", Some(i64::MIN), "fallback-key");
    assert_eq!(stream_id(&item), "-9223372036854775808");
    let item = create_test_lineup_item("Game", "Live", "Free", Some(i64::MAX), "fallback-key");
    assert_eq!(stream_id(&item), "9223372036854775807");
    let item = create_test_lineup_item("Game", "Live", "Free", None, "fallback-key");
    assert_eq!(stream_id(&item), "fallback-key");
}

#[test]
fn thumbnail_prefers_card_then_background() {
    let both = plain_item(
        Some(Images {
            card: Some(Image { url: "card".to_string() }),
            background: Some(Image { url: "bg".to_string() }),
        }),
        None,
        None,
    );
    assert_eq!(thumbnail_url(&both), "card");
    let neither = plain_item(Some(Images { card: None, background: None }), None, None);
    assert_eq!(thumbnail_url(&neither), "");
}

#[test]
fn status_follows_air_date_and_on_demand_flag() {
    let now = Instant { secs: 1_800_000_000, nanos: 0 };
    let past = read_air_instant("2024-07-26T14:00:00Z");
    let future = read_air_instant("2999-01-01T00:00:00Z");
    assert_eq!(past, Some(Instant { secs: 1722002400, nanos: 0 }));
    assert_eq!(classify_status(false, past, now), StreamStatus::Live);
    assert_eq!(classify_status(true, past, now), StreamStatus::Replay);
    assert_eq!(classify_status(false, future, now), StreamStatus::Upcoming);
    assert_eq!(classify_status(true, future, now), StreamStatus::Replay);
    assert_eq!(classify_status(false, None, now), StreamStatus::Upcoming);
    assert_eq!(classify_status(true, None, now), StreamStatus::Replay);
    assert_eq!(classify_status(false, Some(now), now), StreamStatus::Upcoming);
    assert_eq!(
        classify_status(false, Some(Instant { secs: now.secs, nanos: 0 }), Instant { secs: now.secs, nanos: 1 }),
        StreamStatus::Live
    );
    assert_eq!(StreamStatus::Live.label(), "live");
    assert_eq!(StreamStatus::Replay.label(), "replay");
    assert_eq!(StreamStatus::Upcoming.label(), "upcoming");
}

#[test]
fn air_dates_are_read_as_rfc3339() {
    assert_eq!(read_air_instant(""), None);
    assert_eq!(read_air_instant("yesterday"), None);
    assert_eq!(read_air_instant("2024-07-26"), None);
    assert_eq!(read_air_instant("1970-01-01T00:00:00Z"), Some(Instant { secs: 0, nanos: 0 }));
    assert_eq!(
        read_air_instant("2024-07-26T16:00:00.5+02:00"),
        Some(Instant { secs: 1722002400, nanos: 500_000_000 })
    );
}

#[test]
fn status_in_converted_streams() {
    let now = Instant { secs: 1_800_000_000, nanos: 0 };
    let mut on_demand = plain_item(None, Some("2024-07-26T14:00:00Z"), None);
    on_demand.is_vod_enabled = true;
    on_demand.id_media = Some(2);
    let mut later = plain_item(None, None, Some("2999-01-01T00:00:00Z"));
    later.id_media = Some(3);
    let mut undated = plain_item(None, None, None);
    undated.id_media = Some(4);
    let lineup = Lineup {
        title: "Hockey".to_string(),
        items: vec![plain_item(None, Some("2024-07-26T14:00:00Z"), None), on_demand, later, undated],
    };
    let mut seen_ids = SeenIds::new();
    let streams = convert_lineups_to_streams_at(&[lineup], &mut seen_ids, now);
    assert_eq!(streams.len(), 4);
    assert_eq!(streams[0].status, "live");
    assert_eq!(streams[1].status, "replay");
    assert_eq!(streams[2].status, "upcoming");
    assert_eq!(streams[3].status, "upcoming");
    assert_eq!(streams[3].start_time, "");
    assert_eq!(streams[0].end_time, None);
    assert_eq!(streams[0].description, "Test");
}

#[test]
fn tiers_decide_the_auth_flags() {
    assert_eq!((requires_auth("Free"), is_premium("Free")), (false, false));
    assert_eq!((requires_auth("Member"), is_premium("Member")), (true, false));
    assert_eq!((requires_auth("Premium"), is_premium("Premium")), (true, true));
    assert_eq!((requires_auth(""), is_premium("")), (false, false));
    assert_eq!((requires_auth("premium"), is_premium("premium")), (false, false));
}

#[test]
fn keys_seen_on_an_earlier_page_are_dropped() {
    let now = Instant { secs: 0, nanos: 0 };
    let mut seen_ids = SeenIds::new();
    let first = convert_lineups_to_streams_at(
        &[Lineup {
            title: "Hockey".to_string(),
            items: vec![
                create_test_lineup_item("Game 1", "Live", "Free", Some(123), "game1"),
                create_test_lineup_item("Story", "Article", "Free", Some(77), "story"),
            ],
        }],
        &mut seen_ids,
        now,
    );
    let second = convert_lineups_to_streams_at(
        &[Lineup {
            title: "Replays".to_string(),
            items: vec![
                create_test_lineup_item("Game 1 again", "Media", "Free", Some(123), "game1-again"),
                create_test_lineup_item("Clip", "Media", "Free", Some(77), "clip"),
                create_test_lineup_item("Keyed", "Live", "Free", None, "123"),
            ],
        }],
        &mut seen_ids,
        now,
    );
    assert_eq!(first.len(), 1);
    assert_eq!(first[0].title, "Game 1");
    assert_eq!(second.len(), 1);
    assert_eq!(second[0].title, "Clip");
    assert_eq!(second[0].id, "77");
    assert!(seen_ids.contains("123"));
    assert!(seen_ids.contains("77"));
    assert_eq!(seen_ids.len(), 2);
}

#[test]
fn status_by_the_system_clock() {
    let mut on_demand = plain_item(None, Some("2024-07-26T14:00:00Z"), None);
    on_demand.is_vod_enabled = true;
    on_demand.id_media = Some(2);
    let mut later = plain_item(None, Some("9999-12-31T23:59:59Z"), None);
    later.id_media = Some(3);
    let lineup = Lineup {
        title: "Hockey".to_string(),
        items: vec![plain_item(None, Some("2024-07-26T14:00:00Z"), None), on_demand, later],
    };
    let mut seen_ids = SeenIds::new();
    let streams = convert_lineups_to_streams(&[lineup], &mut seen_ids);
    assert_eq!(streams.len(), 3);
    assert_eq!(streams[0].status, "live");
    assert_eq!(streams[1].status, "replay");
    assert_eq!(streams[2].status, "upcoming");
}
