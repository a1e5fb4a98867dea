use scanmap::model::{Network, Sighting};
use scanmap::scan::{aligned_copy, from_scan, listing, max_ssid_len, sort_by_mac};

fn sighting(mac: &str, ssid: &str) -> Sighting {
    Sighting {
        mac: mac.to_string(),
        ssid: ssid.to_string(),
        channel: "6".to_string(),
        signal_level: "-50".to_string(),
    }
}

fn network(mac: &str, ssid: &str) -> Network {
    Network {
        mac: mac.to_string(),
        ssid: ssid.to_string(),
        channel: "6".to_string(),
        strength: "-50".to_string(),
        time_scanned: 1,
    }
}

fn macs(networks: &[Network]) -> Vec<&str> {
    networks.iter().map(|n| n.mac.as_str()).collect()
}

fn ssids(networks: &[Network]) -> Vec<&str> {
    networks.iter().map(|n| n.ssid.as_str()).collect()
}

#[test]
fn from_scan_stamps_every_sighting_with_the_same_time() {
    let found = vec![
        Sighting {
            mac: "b1".to_string(),
            ssid: "home".to_string(),
            channel: "11".to_string(),
            signal_level: "-40.5".to_string(),
        },
        Sighting {
            mac: "a2".to_string(),
            ssid: "cafe".to_string(),
            channel: "1".to_string(),
            signal_level: "-71".to_string(),
        },
    ];
    let networks = from_scan(found, 1_700_000_000_123);
    assert_eq!(
        networks,
        vec![
            Network {
                mac: "b1".to_string(),
                ssid: "home".to_string(),
                channel: "11".to_string(),
                strength: "-40.5".to_string(),
                time_scanned: 1_700_000_000_123,
            },
            Network {
                mac: "a2".to_string(),
                ssid: "cafe".to_string(),
                channel: "1".to_string(),
                strength: "-71".to_string(),
                time_scanned: 1_700_000_000_123,
            },
        ]
    );
}

#[test]
fn from_scan_of_nothing_is_nothing() {
    assert_eq!(from_scan(Vec::new(), 5), Vec::<Network>::new());
}

#[test]
fn from_scan_keeps_duplicate_addresses() {
    let networks = from_scan(vec![sighting("aa", "one"), sighting("aa", "two")], 9);
    assert_eq!(macs(&networks), vec!["aa", "aa"]);
    assert_eq!(ssids(&networks), vec!["one", "two"]);
}

#[test]
fn sort_by_mac_orders_ascending() {
    let mut networks = vec![network("b1", "x"), network("a2", "y"), network("c3", "z")];
    sort_by_mac(&mut networks);
    assert_eq!(macs(&networks), vec!["a2", "b1", "c3"]);
    assert_eq!(ssids(&networks), vec!["y", "x", "z"]);
}

#[test]
fn sort_by_mac_keeps_ties_in_scan_order() {
    let mut networks = vec![
        network("b1", "first b"),
        network("a2", "first a"),
        network("b1", "second b"),
        network("a2", "second a"),
        network("b1", "third b"),
    ];
    sort_by_mac(&mut networks);
    assert_eq!(macs(&networks), vec!["a2", "a2", "b1", "b1", "b1"]);
    assert_eq!(
        ssids(&networks),
        vec!["first a", "second a", "first b", "second b", "third b"]
    );
}

#[test]
fn sort_by_mac_handles_short_lists() {
    let mut none: Vec<Network> = Vec::new();
    sort_by_mac(&mut none);
    assert!(none.is_empty());
    let mut one = vec![network("zz", "only")];
    sort_by_mac(&mut one);
    assert_eq!(macs(&one), vec!["zz"]);
}

#[test]
fn sort_by_mac_compares_bytes_not_letters() {
    let mut networks = vec![network("aa", "1"), network("B0", "2"), network("a", "3"), network("", "4")];
    sort_by_mac(&mut networks);
    assert_eq!(macs(&networks), vec!["", "B0", "a", "aa"]);
}

#[test]
fn sort_by_mac_agrees_with_the_standard_stable_sort() {
    let mut networks = Vec::new();
    let mut seed: u32 = 7;
    for i in 0..40 {
        seed = seed.wrapping_mul(1_103_515_245).wrapping_add(12_345);
        let mac = format!("{:02x}", (seed >> 16) % 6);
        networks.push(network(&mac, &format!("n{}", i)));
    }
    let mut expected = networks.clone();
    expected.sort_by_key(|n| n.mac.clone());
    sort_by_mac(&mut networks);
    assert_eq!(networks, expected);
}

#[test]
fn max_ssid_len_is_the_longest_name_in_bytes() {
    assert_eq!(max_ssid_len(&Vec::new()), 0);
    assert_eq!(max_ssid_len(&vec![network("a", "cafe"), network("b", "me")]), 4);
    assert_eq!(max_ssid_len(&vec![network("a", "café"), network("b", "home")]), 5);
    assert_eq!(max_ssid_len(&vec![network("a", "")]), 0);
}

#[test]
fn aligned_copy_pads_names_to_one_width() {
    let networks = vec![network("a", "cafe-guest"), network("b", "me"), network("c", "")];
    let shown = aligned_copy(&networks);
    assert_eq!(ssids(&shown), vec!["cafe-guest", "me        ", "          "]);
    assert_eq!(macs(&shown), vec!["a", "b", "c"]);
    assert!(shown.iter().all(|n| n.channel == "6" && n.strength == "-50" && n.time_scanned == 1));
}

#[test]
fn aligned_copy_leaves_the_observations_as_they_are() {
    let networks = vec![network("a", "cafe-guest"), network("b", "me")];
    let before = networks.clone();
    let _ = aligned_copy(&networks);
    assert_eq!(networks, before);
    assert_eq!(networks[1].ssid, "me");
}

#[test]
fn listing_shows_heading_and_aligned_lines() {
    let networks = vec![network("a2", "cafe"), network("b1", "me")];
    assert_eq!(
        listing(&networks),
        vec![
            "Measured 2 networks:".to_string(),
            "    cafe (a2, -50 dBm)".to_string(),
            "    me   (b1, -50 dBm)".to_string(),
        ]
    );
}

#[test]
fn listing_counts_one_network_in_the_singular() {
    assert_eq!(
        listing(&vec![network("a2", "cafe")]),
        vec!["Measured 1 network:".to_string(), "    cafe (a2, -50 dBm)".to_string()]
    );
}

#[test]
fn listing_of_no_network_is_the_heading_alone() {
    assert_eq!(listing(&Vec::new()), vec!["Measured 0 networks:".to_string()]);
}
