use netspeed::meta::{colo_from_ray, map_colo_to_server, LocationRecord, MetaHeaders, ServiceMeta};
use netspeed::control::{PhaseOutput, RunProgress};
use netspeed::model::{enrich_result, IceServer, NetworkInfo, Phase, RunConfig, ServiceIdentity};
use netspeed::text::is_whitespace;
use netspeed::stats::latency_summary_from_samples;
use netspeed::throughput::throughput_summary;
use netspeed::stun::turn_info_from_servers;

fn s(v: &str) -> Option<String> {
    Some(v.to_string())
}

#[test]
fn turn_descriptor_merges_servers() {
    let servers = vec![
        IceServer { urls: vec!["stun:a.example:3478".to_string()], username: None, credential: None },
        IceServer {
            urls: vec!["turn:b.example:3478?transport=udp".to_string(), "turn:b.example:80".to_string()],
            username: s("user1"),
            credential: s("SECRET-REDACTED"),
        },
        IceServer { urls: vec![], username: s("user2"), credential: s("other") },
    ];
    let t = turn_info_from_servers(servers);
    assert_eq!(t.urls, vec!["stun:a.example:3478", "turn:b.example:3478?transport=udp", "turn:b.example:80"]);
    assert_eq!(t.username, s("user1"));
    assert_eq!(t.credential, s("SECRET-REDACTED"));
    let empty = turn_info_from_servers(Vec::new());
    assert!(empty.urls.is_empty() && empty.username.is_none() && empty.credential.is_none());
}

fn headers() -> MetaHeaders {
    MetaHeaders {
        cf_meta_ip: None,
        cf_meta_colo: None,
        cf_meta_city: None,
        cf_meta_country: None,
        cf_meta_asn: None,
        cf_connecting_ip: None,
        cf_ray: None,
    }
}

#[test]
fn meta_headers_are_preferred() {
    let mut h = headers();
    h.cf_meta_ip = s("198.51.100.7");
    h.cf_meta_colo = s("AMS");
    h.cf_meta_city = s("Amsterdam");
    h.cf_meta_asn = s("64500");
    h.cf_connecting_ip = s("192.0.2.1");
    h.cf_ray = s("8a1b2c3d4e5f6789-SJC");
    let m = ServiceMeta::from_headers(&h);
    assert_eq!(m.client_ip, s("198.51.100.7"));
    assert_eq!(m.colo, s("AMS"));
    assert_eq!(m.city, s("Amsterdam"));
    assert_eq!(m.asn, s("64500"));
    assert_eq!(m.country, None);
}

#[test]
fn meta_falls_back_to_ray_and_connecting_ip() {
    let mut h = headers();
    h.cf_connecting_ip = s("192.0.2.1");
    h.cf_ray = s("8a1b2c3d4e5f6789-SJC");
    let m = ServiceMeta::from_headers(&h);
    assert_eq!(m.client_ip, s("192.0.2.1"));
    assert_eq!(m.colo, s("SJC"));
    assert!(!m.is_empty());
    assert!(ServiceMeta::from_headers(&headers()).is_empty());
}

#[test]
fn colo_of_ray_ids() {
    assert_eq!(colo_from_ray("8a1b2c3d4e5f6789-SJC"), s("SJC"));
    assert_eq!(colo_from_ray("abc-LHR-extra"), s("LHR"));
    assert_eq!(colo_from_ray("abc-"), s(""));
    assert_eq!(colo_from_ray("no-dash-here").as_deref(), Some("dash"));
    assert_eq!(colo_from_ray("nodash"), None);
}

#[test]
fn enrichment_adds_network_and_identity() {
    let mut r = RunProgress::new(false);
    while r.phase.is_some() {
        let out = match r.phase {
            Some(Phase::IdleLatency) => PhaseOutput::Latency(latency_summary_from_samples(0, 0, &Vec::new(), None)),
            Some(Phase::Download) | Some(Phase::Upload) => PhaseOutput::Transfer(
                throughput_summary(0, 0),
                latency_summary_from_samples(0, 0, &Vec::new(), None),
            ),
            _ => PhaseOutput::Done,
        };
        r.complete_phase(out);
    }
    let base = r.into_result(&sample_config(), "t".to_string(), None, s("LHR - London"));
    let info = NetworkInfo {
        interface_name: s("wlan0"),
        network_name: s("home"),
        is_wireless: Some(true),
        interface_mac: s("00:11:22:33:44:55"),
        link_speed_mbps: Some(866),
    };
    let plain = enrich_result(base.clone(), &info, None);
    assert_eq!(plain.interface_name, s("wlan0"));
    assert_eq!(plain.is_wireless, Some(true));
    assert_eq!(plain.link_speed_mbps, Some(866));
    assert_eq!(plain.ip, None);
    assert_eq!(plain.server, s("LHR - London"));
    let id = ServiceIdentity { ip: s("198.51.100.7"), colo: s("LHR"), asn: s("64500"), as_org: s("Example Net") };
    let full = enrich_result(base, &info, Some(id));
    assert_eq!(full.ip, s("198.51.100.7"));
    assert_eq!(full.colo, s("LHR"));
    assert_eq!(full.asn, s("64500"));
    assert_eq!(full.as_org, s("Example Net"));
    assert_eq!(full.network_name, s("home"));
}

fn sample_config() -> RunConfig {
    RunConfig {
        base_url: "https://example.net".to_string(),
        meas_id: "m".to_string(),
        download_bytes_per_req: 1,
        upload_bytes_per_req: 1,
        concurrency: 1,
        idle_latency_duration_ms: 1,
        download_duration_ms: 1,
        upload_duration_ms: 1,
        probe_interval_ms: 1,
        probe_timeout_ms: 1,
        user_agent: "a".to_string(),
        experimental: false,
        interface: None,
        source_ip: None,
    }
}

#[test]
fn whitespace_matches_std() {
    for u in 0u32..=0x10FFFF {
        if let Some(c) = char::from_u32(u) {
            assert_eq!(is_whitespace(c), c.is_whitespace(), "U+{:04X}", u);
        }
    }
}

fn location(code: &str, city: Option<&str>, region: Option<&str>, country: Option<&str>) -> LocationRecord {
    LocationRecord {
        iata: s(code),
        colo: None,
        code: None,
        id: None,
        city: city.map(|c| c.to_string()),
        name: None,
        region: region.map(|c| c.to_string()),
        country: country.map(|c| c.to_string()),
        country_name: None,
    }
}

#[test]
fn server_label_of_colo() {
    let recs = vec![
        location("AMS", Some("Amsterdam"), None, Some("NL")),
        location("LHR", None, Some("Europe"), Some("GB")),
        location("LHR", Some("London"), None, None),
    ];
    assert_eq!(map_colo_to_server(&recs, "AMS"), s("AMS - Amsterdam - NL"));
    assert_eq!(map_colo_to_server(&recs, "LHR"), s("LHR - Europe - GB"));
    assert_eq!(map_colo_to_server(&recs, "SJC"), None);
    let bare = vec![location("SJC", None, None, None)];
    assert_eq!(map_colo_to_server(&bare, "SJC"), s("SJC"));
}
