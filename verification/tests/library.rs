use radrad::area::area_index;
use radrad::auth::{
    get_auth_token, get_partialkey, is_served_area, Auth1Reply, Auth2Reply, AuthError, AuthFlow, HeaderField,
};
use radrad::decimal::parse_usize;
use radrad::player::{play_args, Player};
use radrad::playlist::{_get_playlists, read_playlist, PlaylistError, PlaylistFetch, PlaylistInfo, PlaylistReply};
use radrad::record::StationRecord;
use radrad::server::{radrad, station_status, RadradAction, Station};
use radrad::station_list::try_to_stations_map;
use radrad::stations::{_get_station, get_area_id_4_station_id, get_station_ids, is_available_station_id};
use radrad::stream::{
    get_auth_token_4_station_id, get_live_stream_info, live_stream_url, station_list_url, stream_description_url,
    StreamStage, TokenLookup,
};
use radrad::stream_urls::{check_attr, try_to_urls_map};
use radrad::xml::{read_xml_events, XmlAttr, XmlEvent};

const STATIONS_XML: &str = r#"<?xml version="1.0" encoding="UTF-8"?>
<region>
  <stations ascii_name="HOKKAIDO" region_id="hokkaido" region_name="Hokkaido">
    <station>
      <id>HBC</id>
      <name>HBC Radio</name>
      <area_id>JP1</area_id>
    </station>
    <station>
      <id>STV</id>
      <name>STV &amp; Radio</name>
      <area_id>JP1</area_id>
    </station>
  </stations>
  <stations region_id="kanto">
    <station>
      <id>TBS</id>
      <area_id>JP13</area_id>
    </station>
    <station>
      <name>no id</name>
    </station>
  </stations>
</region>
"#;

const STREAM_XML: &str = r#"<?xml version="1.0" encoding="UTF-8"?>
<urls>
  <url areafree="0" max_delay="0" timefree="0">
    <playlist_create_url>https://f-radiko.example/TBS/simul.m3u8</playlist_create_url>
  </url>
  <url areafree="1" max_delay="0" timefree="0">
    <playlist_create_url>https://c-radiko.example/TBS/area.m3u8</playlist_create_url>
  </url>
  <url areafree="0" timefree="1">
    <playlist_create_url>https://tf-radiko.example/TBS/timefree.m3u8</playlist_create_url>
  </url>
  <url areafree="0" max_delay="0" timefree="0">
    <playlist_create_url>https://f-radiko.example/TBS/second.m3u8</playlist_create_url>
  </url>
</urls>
"#;

fn record(pairs: &[(&str, &str)]) -> StationRecord {
    let mut r = StationRecord::new();
    for (k, v) in pairs {
        r.insert(k.to_string(), v.to_string());
    }
    r
}

fn sample_stations() -> Option<Vec<StationRecord>> {
    Some(vec![
        record(&[("id", "HBC"), ("area_id", "JP1")]),
        record(&[("name", "no id")]),
        record(&[("id", "TBS")]),
        record(&[("id", "TBS"), ("area_id", "JP13")]),
    ])
}

#[test]
fn record_get_returns_the_last_insert() {
    let mut r = StationRecord::new();
    assert_eq!(r.get("id"), None);
    r.insert("id".to_string(), "HBC".to_string());
    r.insert("name".to_string(), "one".to_string());
    r.insert("id".to_string(), "STV".to_string());
    assert_eq!(r.get("id"), Some(&"STV".to_string()));
    assert_eq!(r.get("name"), Some(&"one".to_string()));
    assert_eq!(r.get("area_id"), None);
}

#[test]
fn xml_events_of_a_small_document() {
    let events = read_xml_events("<a x=\"1\">  hi &amp; bye </a><b/>");
    assert_eq!(events.len(), 4);
    match &events[0] {
        XmlEvent::Start { name, attrs } => {
            assert_eq!(name.as_deref(), Some("a"));
            assert_eq!(attrs.len(), 1);
            match &attrs[0] {
                XmlAttr::Attr { key, value } => {
                    assert_eq!(key.as_deref(), Some("x"));
                    assert_eq!(value.as_deref(), Some("1"));
                }
                XmlAttr::Malformed => panic!("attribute should read"),
            }
        }
        _ => panic!("expected a start tag"),
    }
    match &events[1] {
        XmlEvent::Text { text } => assert_eq!(text.as_deref(), Some("hi & bye")),
        _ => panic!("expected text"),
    }
    match &events[2] {
        XmlEvent::End { name } => assert_eq!(name.as_deref(), Some("a")),
        _ => panic!("expected an end tag"),
    }
    assert!(matches!(events[3], XmlEvent::Other));
}

#[test]
fn stations_map_reads_every_station() {
    let stations = try_to_stations_map(&STATIONS_XML.to_string()).unwrap();
    assert_eq!(stations.len(), 4);
    assert_eq!(stations[0].get("id"), Some(&"HBC".to_string()));
    assert_eq!(stations[0].get("name"), Some(&"HBC Radio".to_string()));
    assert_eq!(stations[0].get("area_id"), Some(&"JP1".to_string()));
    assert_eq!(stations[1].get("name"), Some(&"STV & Radio".to_string()));
    assert_eq!(stations[2].get("id"), Some(&"TBS".to_string()));
    assert_eq!(stations[2].get("area_id"), Some(&"JP13".to_string()));
    assert_eq!(stations[3].get("id"), None);
    assert_eq!(stations[3].get("name"), Some(&"no id".to_string()));
}

#[test]
fn stations_map_ignores_text_outside_stations() {
    let stations = try_to_stations_map(&"<root><id>X</id><station><id>A</id></station>tail</root>".to_string()).unwrap();
    assert_eq!(stations.len(), 1);
    assert_eq!(stations[0].get("id"), Some(&"A".to_string()));
    let empty = try_to_stations_map(&"".to_string()).unwrap();
    assert_eq!(empty.len(), 0);
}

#[test]
fn stations_map_refuses_undecodable_station_text() {
    assert!(try_to_stations_map(&"<station><id>&bogus;</id></station>".to_string()).is_none());
    let ok = try_to_stations_map(&"<id>&bogus;</id><station><id>A</id></station>".to_string()).unwrap();
    assert_eq!(ok.len(), 1);
}

#[test]
fn urls_map_selects_by_flags() {
    let contents = STREAM_XML.to_string();
    assert_eq!(
        try_to_urls_map(&contents, false, false).unwrap(),
        vec!["https://f-radiko.example/TBS/simul.m3u8".to_string(), "https://f-radiko.example/TBS/second.m3u8".to_string()]
    );
    assert_eq!(try_to_urls_map(&contents, false, true).unwrap(), vec!["https://c-radiko.example/TBS/area.m3u8".to_string()]);
    assert_eq!(try_to_urls_map(&contents, true, false).unwrap(), vec!["https://tf-radiko.example/TBS/timefree.m3u8".to_string()]);
    assert_eq!(try_to_urls_map(&contents, true, true).unwrap(), Vec::<String>::new());
}

#[test]
fn urls_map_reads_escaped_flags() {
    let contents = r#"<urls><url timefree="&#49;" areafree="0"><playlist_create_url>u</playlist_create_url></url></urls>"#;
    assert_eq!(try_to_urls_map(&contents.to_string(), true, false).unwrap(), vec!["u".to_string()]);
}

#[test]
fn urls_map_refuses_unreadable_flags() {
    let contents = r#"<urls><url timefree="&zz;"><playlist_create_url>u</playlist_create_url></url></urls>"#;
    assert_eq!(try_to_urls_map(&contents.to_string(), false, false), None);
}

#[test]
fn check_attr_stops_at_the_first_match() {
    let attrs = vec![
        XmlAttr::Attr { key: Some("timefree".to_string()), value: Some("0".to_string()) },
        XmlAttr::Attr { key: Some("timefree".to_string()), value: Some("1".to_string()) },
        XmlAttr::Malformed,
    ];
    assert_eq!(check_attr(&attrs, "timefree", "1"), Some(true));
    assert_eq!(check_attr(&attrs, "areafree", "1"), None);
    assert_eq!(check_attr(&attrs[..2].iter().map(copy_attr).collect(), "areafree", "1"), Some(false));
    let undecodable = vec![XmlAttr::Attr { key: Some("areafree".to_string()), value: None }];
    assert_eq!(check_attr(&undecodable, "areafree", "1"), None);
    assert_eq!(check_attr(&undecodable, "timefree", "1"), Some(false));
    let bad_key = vec![XmlAttr::Attr { key: None, value: Some("1".to_string()) }];
    assert_eq!(check_attr(&bad_key, "timefree", "1"), None);
}

fn copy_attr(a: &XmlAttr) -> XmlAttr {
    match a {
        XmlAttr::Malformed => XmlAttr::Malformed,
        XmlAttr::Attr { key, value } => XmlAttr::Attr { key: key.clone(), value: value.clone() },
    }
}

#[test]
fn station_ids_in_list_order() {
    assert_eq!(
        get_station_ids(&sample_stations()),
        Some(vec!["HBC".to_string(), "TBS".to_string(), "TBS".to_string()])
    );
    assert_eq!(get_station_ids(&None), None);
}

#[test]
fn available_station_ids() {
    assert!(is_available_station_id(&sample_stations(), &"TBS".to_string()));
    assert!(!is_available_station_id(&sample_stations(), &"QRR".to_string()));
    assert!(!is_available_station_id(&None, &"TBS".to_string()));
}

#[test]
fn get_station_finds_the_first_match() {
    let found = _get_station(sample_stations(), &"TBS".to_string()).unwrap();
    assert_eq!(found.get("id"), Some(&"TBS".to_string()));
    assert_eq!(found.get("area_id"), None);
    assert!(_get_station(sample_stations(), &"QRR".to_string()).is_none());
    assert!(_get_station(None, &"TBS".to_string()).is_none());
}

#[test]
fn area_of_the_first_station_that_has_one() {
    assert_eq!(get_area_id_4_station_id(&sample_stations(), &"TBS".to_string()), Some("JP13".to_string()));
    assert_eq!(get_area_id_4_station_id(&sample_stations(), &"HBC".to_string()), Some("JP1".to_string()));
    assert_eq!(get_area_id_4_station_id(&sample_stations(), &"QRR".to_string()), None);
    assert_eq!(get_area_id_4_station_id(&None, &"HBC".to_string()), None);
}

#[test]
fn decimal_numbers() {
    assert_eq!(parse_usize("0"), Some(0));
    assert_eq!(parse_usize("16"), Some(16));
    assert_eq!(parse_usize("+7"), Some(7));
    assert_eq!(parse_usize(""), None);
    assert_eq!(parse_usize("+"), None);
    assert_eq!(parse_usize("-1"), None);
    assert_eq!(parse_usize(" 1"), None);
    assert_eq!(parse_usize("1a"), None);
    assert_eq!(parse_usize("99999999999999999999999"), None);
    assert_eq!(parse_usize(&usize::MAX.to_string()), Some(usize::MAX));
}

#[test]
fn partial_key_is_base64_of_the_key_slice() {
    assert_eq!(get_partialkey(0, 3), "YmNk");
    assert_eq!(get_partialkey(0, 16), "YmNkMTUxMDczYzAzYjM1Mg==");
    assert_eq!(get_partialkey(38, 2), "ZmE=");
    assert_eq!(get_partialkey(40, 0), "");
}

#[test]
fn served_areas_follow_the_pattern() {
    assert!(is_served_area("JP1"));
    assert!(is_served_area("JP13"));
    assert!(is_served_area("JP47"));
    assert!(is_served_area("xJP7"));
    assert!(!is_served_area("JP5"));
    assert!(!is_served_area("JP"));
    assert!(!is_served_area("jp1"));
}

fn value(s: &str) -> HeaderField {
    HeaderField::Value(s.to_string())
}

#[test]
fn auth_handshake_success() {
    let flow = get_auth_token(&"JP13".to_string());
    assert!(matches!(flow, AuthFlow::SendAuth1 { .. }));
    let request = AuthFlow::auth1_request();
    assert_eq!(request.url, "https://radiko.jp/v2/api/auth1");
    assert_eq!(request.headers[0], ("X-Radiko-App".to_string(), "aSmartPhone7o".to_string()));
    assert_eq!(request.headers.len(), 4);
    let flow = flow.on_auth1(Auth1Reply::Accepted {
        auth_token: value("tok"),
        key_offset: value("0"),
        key_length: value("3"),
    });
    match &flow {
        AuthFlow::SendAuth2 { area_id, auth_token, partial_key } => {
            assert_eq!(area_id, "JP13");
            assert_eq!(auth_token, "tok");
            assert_eq!(partial_key, "YmNk");
        }
        _ => panic!("expected the second request"),
    }
    let request = flow.auth2_request(&"35.689488,139.691706,gps".to_string());
    assert_eq!(request.url, "https://radiko.jp/v2/api/auth2");
    let names: Vec<&str> = request.headers.iter().map(|(n, _)| n.as_str()).collect();
    assert_eq!(
        names,
        vec![
            "X-Radiko-App",
            "X-Radiko-App-Version",
            "X-Radiko-AuthToken",
            "X-Radiko-Connection",
            "X-Radiko-Device",
            "X-Radiko-Location",
            "X-Radiko-PartialKey",
            "X-Radiko-User",
        ]
    );
    assert!(request.headers.contains(&("X-Radiko-Location".to_string(), "35.689488,139.691706,gps".to_string())));
    assert!(request.headers.contains(&("X-Radiko-PartialKey".to_string(), "YmNk".to_string())));
    assert!(request.headers.contains(&("X-Radiko-AuthToken".to_string(), "tok".to_string())));
    match flow.on_auth2(Auth2Reply::Accepted) {
        AuthFlow::Finished(Ok(token)) => assert_eq!(token, "tok"),
        _ => panic!("expected a token"),
    }
}

#[test]
fn auth_handshake_errors() {
    assert!(matches!(get_auth_token(&"JP5".to_string()), AuthFlow::Finished(Err(AuthError::AreaNotServed))));
    let start = || get_auth_token(&"JP1".to_string());
    assert!(matches!(start().on_auth1(Auth1Reply::Failed), AuthFlow::Finished(Err(AuthError::Transport))));
    assert!(matches!(start().on_auth1(Auth1Reply::Rejected), AuthFlow::Finished(Err(AuthError::Rejected))));
    let bad = start().on_auth1(Auth1Reply::Accepted {
        auth_token: value("tok"),
        key_offset: value("x"),
        key_length: HeaderField::Missing,
    });
    assert!(matches!(bad, AuthFlow::Finished(Err(AuthError::BadHeader))));
    let unreadable = start().on_auth1(Auth1Reply::Accepted {
        auth_token: HeaderField::Unreadable,
        key_offset: HeaderField::Missing,
        key_length: HeaderField::Missing,
    });
    assert!(matches!(unreadable, AuthFlow::Finished(Err(AuthError::BadHeader))));
    let second = start().on_auth1(Auth1Reply::Accepted {
        auth_token: value("t"),
        key_offset: value("1"),
        key_length: value("1"),
    });
    assert!(matches!(second.on_auth2(Auth2Reply::Rejected), AuthFlow::Finished(Err(AuthError::Rejected))));
}

const MASTER: &str = "#EXTM3U\n#EXT-X-STREAM-INF:BANDWIDTH=52973,CODECS=\"mp4a.40.5\"\nhttps://example.invalid/media.m3u8\n";
const MEDIA: &str = "#EXTM3U\n#EXT-X-VERSION:3\n#EXT-X-TARGETDURATION:5\n#EXT-X-MEDIA-SEQUENCE:1\n#EXTINF:5,\nhttps://example.invalid/seg1.aac\n#EXTINF:5,\nhttps://example.invalid/seg2.aac\n";

#[test]
fn playlists_are_read() {
    match read_playlist(&MASTER.to_string()) {
        PlaylistInfo::Master { variant_uris } => assert_eq!(variant_uris, vec!["https://example.invalid/media.m3u8".to_string()]),
        _ => panic!("expected a master playlist"),
    }
    match read_playlist(&MEDIA.to_string()) {
        PlaylistInfo::Media { segment_uris } => assert_eq!(
            segment_uris,
            vec!["https://example.invalid/seg1.aac".to_string(), "https://example.invalid/seg2.aac".to_string()]
        ),
        _ => panic!("expected a media playlist"),
    }
    assert!(!matches!(read_playlist(&"not a playlist".to_string()), PlaylistInfo::Master { .. }));
}

#[test]
fn playlist_resolution() {
    let fetch = _get_playlists(&"https://example.invalid/master.m3u8".to_string(), &"tok".to_string());
    let request = fetch.request();
    assert_eq!(request.url, "https://example.invalid/master.m3u8");
    assert_eq!(request.headers, vec![("X-Radiko-AuthToken".to_string(), "tok".to_string())]);
    let fetch = fetch.on_reply(PlaylistReply::Received(read_playlist(&MASTER.to_string())));
    assert_eq!(fetch.request().url, "https://example.invalid/media.m3u8");
    match fetch.on_reply(PlaylistReply::Received(read_playlist(&MEDIA.to_string()))) {
        PlaylistFetch::Finished(Ok(uris)) => assert_eq!(uris.len(), 2),
        _ => panic!("expected segments"),
    }
    let fetch = _get_playlists(&"u".to_string(), &"t".to_string());
    assert!(matches!(
        fetch.on_reply(PlaylistReply::Received(read_playlist(&MEDIA.to_string()))),
        PlaylistFetch::Finished(Err(PlaylistError::NotFound))
    ));
    let fetch = _get_playlists(&"u".to_string(), &"t".to_string());
    assert!(matches!(fetch.on_reply(PlaylistReply::Failed), PlaylistFetch::Finished(Err(PlaylistError::Transport))));
    let fetch = _get_playlists(&"u".to_string(), &"t".to_string());
    assert!(matches!(fetch.on_reply(PlaylistReply::Rejected), PlaylistFetch::Finished(Err(PlaylistError::NotFound))));
}

#[test]
fn urls_of_the_service() {
    assert_eq!(station_list_url(), "https://radiko.jp/v3/station/region/full.xml");
    assert_eq!(
        stream_description_url(&"TBS".to_string()),
        "https://radiko.jp/v3/station/stream/aSmartPhone7o/TBS.xml"
    );
    assert_eq!(
        live_stream_url(&"https://x.example/p.m3u8".to_string(), &"TBS".to_string()),
        "https://x.example/p.m3u8?station_id=TBS&l=15&lsid=&type=b"
    );
}

#[test]
fn token_lookup_for_a_listed_station() {
    let lookup = get_auth_token_4_station_id(&"TBS".to_string());
    let lookup = lookup.on_station_list(&sample_stations());
    assert!(matches!(lookup, TokenLookup::FindArea { .. }));
    let lookup = lookup.on_station_list(&sample_stations());
    assert!(matches!(lookup, TokenLookup::Authorize(AuthFlow::SendAuth1 { .. })));
    let lookup = lookup.on_auth1(Auth1Reply::Accepted { auth_token: value("tk"), key_offset: value("2"), key_length: value("4") });
    let lookup = lookup.on_auth2(Auth2Reply::Accepted);
    match lookup {
        TokenLookup::Finished(Some(t)) => assert_eq!(t, "tk"),
        _ => panic!("expected a token"),
    }
}

#[test]
fn token_lookup_for_an_unlisted_station() {
    let lookup = get_auth_token_4_station_id(&"QRR".to_string()).on_station_list(&sample_stations());
    assert!(matches!(lookup, TokenLookup::Finished(None)));
    let lookup = get_auth_token_4_station_id(&"TBS".to_string()).on_station_list(&None);
    assert!(matches!(lookup, TokenLookup::Finished(None)));
}

#[test]
fn live_stream_lookup_end_to_end() {
    let lookup = get_live_stream_info(&"TBS".to_string(), false, false);
    let lookup = lookup.on_station_list(&sample_stations());
    let lookup = lookup.on_station_list(&sample_stations());
    let lookup = lookup.on_station_list(&sample_stations());
    let lookup = lookup.on_auth1(Auth1Reply::Accepted { auth_token: value("tk"), key_offset: value("0"), key_length: value("16") });
    let lookup = lookup.on_auth2(Auth2Reply::Accepted);
    assert!(matches!(lookup.stage, StreamStage::FetchUrls { .. }));
    let urls = try_to_urls_map(&STREAM_XML.to_string(), lookup.timefree, lookup.areafree);
    let lookup = lookup.on_stream_urls(urls);
    match &lookup.stage {
        StreamStage::Finished(Some((token, url))) => {
            assert_eq!(token, "tk");
            assert_eq!(url, "https://f-radiko.example/TBS/simul.m3u8?station_id=TBS&l=15&lsid=&type=b");
        }
        _ => panic!("expected a stream"),
    }
}

#[test]
fn live_stream_lookup_fails_without_the_description() {
    let lookup = get_live_stream_info(&"HBC".to_string(), true, false);
    let lookup = lookup.on_station_list(&sample_stations());
    let lookup = lookup.on_station_list(&sample_stations());
    let lookup = lookup.on_station_list(&sample_stations());
    let lookup = lookup.on_auth1(Auth1Reply::Accepted { auth_token: value("tk"), key_offset: value("0"), key_length: value("1") });
    let lookup = lookup.on_auth2(Auth2Reply::Accepted);
    let lookup = lookup.on_stream_urls(None);
    assert!(matches!(lookup.stage, StreamStage::Finished(None)));
}

#[test]
fn player_play_and_stop() {
    let mut player = Player::new();
    assert_eq!(player.get_station_id(), None);
    assert_eq!(player.get_child_id(), None);
    let (kill, lookup) = player.play(&"TBS".to_string(), true, false);
    assert_eq!(kill, None);
    assert!(lookup.areafree && !lookup.timefree);
    player.on_started(&lookup, Some(42));
    assert_eq!(player.get_station_id(), Some("TBS".to_string()));
    assert!(player.get_option_af());
    assert!(!player.get_option_tf());
    assert_eq!(player.get_child_id(), Some(42));
    let status = station_status(&player);
    assert_eq!(status.id, Some("TBS".to_string()));
    assert!(status.af && !status.tf);
    let (kill, _) = player.play(&"HBC".to_string(), false, false);
    assert_eq!(kill, Some(42));
    assert_eq!(player.get_station_id(), None);
    assert_eq!(player.stop(), None);
    assert!(!player.get_option_af());
}

#[test]
fn player_args_for_ffplay() {
    assert_eq!(
        play_args(&"https://x/p.m3u8".to_string(), &"tok".to_string()),
        vec!["-headers", "X-Radiko-AuthToken:tok", "-i", "https://x/p.m3u8", "-nodisp"]
    );
    let lookup = get_live_stream_info(&"TBS".to_string(), false, false);
    assert!(Player::player_args(&lookup.on_station_list(&None)).is_none());
}

#[test]
fn radrad_commands() {
    let station = Station { id: Some("TBS".to_string()), af: true, tf: false };
    match radrad("play", &station) {
        RadradAction::Play { station_id, af, tf } => {
            assert_eq!(station_id, "TBS");
            assert!(af && !tf);
        }
        _ => panic!("expected play"),
    }
    assert!(matches!(radrad("stop", &station), RadradAction::Stop));
    match radrad("pause", &station) {
        RadradAction::NotFound(body) => assert_eq!(body, "'pause' is not found."),
        _ => panic!("expected not found"),
    }
    let no_id = Station { id: None, af: false, tf: false };
    match radrad("play", &no_id) {
        RadradAction::NotFound(body) => assert_eq!(body, "An error occurred while running 'play'"),
        _ => panic!("expected not found"),
    }
}

#[test]
fn area_index_finds_each_area() {
    assert_eq!(area_index("JP1"), Some(0));
    assert_eq!(area_index("JP13"), Some(12));
    assert_eq!(area_index("JP47"), Some(46));
    assert_eq!(area_index("JP48"), None);
    assert_eq!(area_index("jp1"), None);
    assert_eq!(area_index(""), None);
}

#[test]
fn partial_key_length_is_four_per_three_bytes() {
    for length in 0..=40usize {
        let key = get_partialkey(0, length);
        assert_eq!(key.len(), 4 * ((length + 2) / 3));
    }
}

#[test]
fn urls_of_joined_documents_are_joined() {
    let first = r#"<url timefree="0" areafree="0"><playlist_create_url>a</playlist_create_url></url><url timefree="1" areafree="0"><playlist_create_url>t</playlist_create_url></url>"#;
    let second = r#"<other/><url timefree="0" areafree="0"><playlist_create_url>b</playlist_create_url></url>"#;
    let wrap = |inner: &str| format!("<urls>{}</urls>", inner);
    for (tf, af) in [(false, false), (false, true), (true, false), (true, true)] {
        let mut expected = try_to_urls_map(&wrap(first), tf, af).unwrap();
        expected.extend(try_to_urls_map(&wrap(second), tf, af).unwrap());
        assert_eq!(try_to_urls_map(&wrap(&format!("{}{}", first, second)), tf, af).unwrap(), expected);
    }
    assert_eq!(
        try_to_urls_map(&wrap(&format!("{}{}", first, second)), false, false).unwrap(),
        vec!["a".to_string(), "b".to_string()]
    );
}

#[test]
fn every_url_is_read_under_one_choice_of_flags() {
    let contents = STREAM_XML.to_string();
    let mut all: Vec<String> = Vec::new();
    for (tf, af) in [(false, false), (false, true), (true, false), (true, true)] {
        all.extend(try_to_urls_map(&contents, tf, af).unwrap());
    }
    all.sort();
    let mut expected = vec![
        "https://f-radiko.example/TBS/simul.m3u8".to_string(),
        "https://c-radiko.example/TBS/area.m3u8".to_string(),
        "https://tf-radiko.example/TBS/timefree.m3u8".to_string(),
        "https://f-radiko.example/TBS/second.m3u8".to_string(),
    ];
    expected.sort();
    assert_eq!(all, expected);
}

#[test]
fn stations_of_joined_documents_are_joined() {
    let first = "<station><id>A</id><area_id>JP1</area_id></station><note>x</note>";
    let second = "<station><id>B</id></station><station><id>C</id></station>";
    let wrap = |inner: &str| format!("<stations>{}</stations>", inner);
    let joint = try_to_stations_map(&wrap(&format!("{}{}", first, second))).unwrap();
    let mut expected = try_to_stations_map(&wrap(first)).unwrap();
    expected.extend(try_to_stations_map(&wrap(second)).unwrap());
    assert_eq!(joint.len(), 3);
    assert_eq!(joint.len(), expected.len());
    for (a, b) in joint.iter().zip(expected.iter()) {
        assert_eq!(a.get("id"), b.get("id"));
        assert_eq!(a.get("area_id"), b.get("area_id"));
    }
    assert_eq!(joint[2].get("id"), Some(&"C".to_string()));
}

#[test]
fn token_lookup_fails_where_the_area_is_not_served() {
    let stations = Some(vec![record(&[("id", "XYZ"), ("area_id", "JP5")])]);
    let lookup = get_auth_token_4_station_id(&"XYZ".to_string()).on_station_list(&stations);
    let lookup = lookup.on_station_list(&stations);
    assert!(matches!(lookup, TokenLookup::Finished(None)));
}

#[test]
fn token_lookup_fails_where_the_handshake_is_refused() {
    let lookup = get_auth_token_4_station_id(&"TBS".to_string()).on_station_list(&sample_stations());
    let lookup = lookup.on_station_list(&sample_stations());
    let lookup = lookup.on_auth1(Auth1Reply::Rejected);
    assert!(matches!(lookup, TokenLookup::Finished(None)));
    let lookup = get_auth_token_4_station_id(&"TBS".to_string()).on_station_list(&sample_stations());
    let lookup = lookup.on_station_list(&sample_stations());
    let lookup = lookup.on_auth1(Auth1Reply::Accepted { auth_token: value("tk"), key_offset: value("0"), key_length: value("3") });
    let lookup = lookup.on_auth2(Auth2Reply::Failed);
    assert!(matches!(lookup, TokenLookup::Finished(None)));
}

#[test]
fn live_stream_lookup_for_an_unlisted_station() {
    let lookup = get_live_stream_info(&"QRR".to_string(), false, false).on_station_list(&sample_stations());
    assert!(matches!(lookup.stage, StreamStage::Finished(None)));
    let lookup = get_live_stream_info(&"TBS".to_string(), false, false).on_station_list(&None);
    assert!(matches!(lookup.stage, StreamStage::Finished(None)));
}

#[test]
fn player_stays_consistent_over_calls() {
    let mut player = Player::new();
    assert_eq!(player.get_station_id().is_some(), player.get_child_id().is_some());
    let (kill, lookup) = player.play(&"TBS".to_string(), true, false);
    assert_eq!(kill, None);
    assert_eq!(player.get_station_id(), None);
    assert!(!player.get_option_af() && !player.get_option_tf());
    player.on_started(&lookup, Some(7));
    assert_eq!(player.get_station_id(), Some("TBS".to_string()));
    assert_eq!(player.get_child_id(), Some(7));
    assert!(player.get_option_af() && !player.get_option_tf());
    let (kill, lookup) = player.play(&"HBC".to_string(), false, true);
    assert_eq!(kill, Some(7));
    player.on_started(&lookup, None);
    assert_eq!(player.get_station_id(), None);
    assert_eq!(player.get_child_id(), None);
    assert!(!player.get_option_af() && !player.get_option_tf());
    assert_eq!(player.stop(), None);
}
