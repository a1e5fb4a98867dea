use scanmap::error::{ScanError, ScanFault};
use scanmap::model::{is_finite_bits, Coordinate, Network, Node, ScanMap};

fn position(x: f32, y: f32, z: f32) -> Coordinate {
    Coordinate { x: x.to_bits(), y: y.to_bits(), z: z.to_bits() }
}

fn network(mac: &str) -> Network {
    Network {
        mac: mac.to_string(),
        ssid: "net".to_string(),
        channel: "1".to_string(),
        strength: "-60".to_string(),
        time_scanned: 42,
    }
}

fn node(notes: &str, macs: &[&str]) -> Node {
    Node {
        position: position(1.0, 2.0, 3.0),
        notes: notes.to_string(),
        networks: macs.iter().map(|m| network(m)).collect(),
    }
}

fn map_with(name: &str, notes: &str, nodes: Vec<Node>) -> ScanMap {
    ScanMap { name: name.to_string(), notes: notes.to_string(), nodes }
}

#[test]
fn coordinate_new_is_the_origin() {
    let c = Coordinate::new();
    assert_eq!(f32::from_bits(c.x), 0.0);
    assert_eq!(f32::from_bits(c.y), 0.0);
    assert_eq!(f32::from_bits(c.z), 0.0);
    assert_eq!(c, position(0.0, 0.0, 0.0));
    assert!(c.is_finite());
}

#[test]
fn finite_bits_tells_numbers_from_infinities_and_nans() {
    for v in [0.0f32, -0.0, 1.5, -273.15, f32::MAX, f32::MIN, f32::MIN_POSITIVE, 1e-45] {
        assert!(is_finite_bits(v.to_bits()), "{}", v);
    }
    for v in [f32::INFINITY, f32::NEG_INFINITY, f32::NAN, -f32::NAN] {
        assert!(!is_finite_bits(v.to_bits()), "{}", v);
    }
}

#[test]
fn finite_bits_agrees_with_the_standard_library() {
    let mut bits: u32 = 1;
    for _ in 0..2000 {
        bits = bits.wrapping_mul(1_664_525).wrapping_add(1_013_904_223);
        assert_eq!(is_finite_bits(bits), f32::from_bits(bits).is_finite());
    }
}

#[test]
fn coordinate_is_finite_needs_every_axis_finite() {
    assert!(position(1.0, -2.5, 1e30).is_finite());
    assert!(!position(f32::INFINITY, 0.0, 0.0).is_finite());
    assert!(!position(0.0, f32::NAN, 0.0).is_finite());
    assert!(!position(0.0, 0.0, f32::NEG_INFINITY).is_finite());
}

#[test]
fn network_to_text_shows_name_address_and_strength() {
    let n = Network {
        mac: "aa:bb:cc:dd:ee:ff".to_string(),
        ssid: "cafe".to_string(),
        channel: "11".to_string(),
        strength: "-40.5".to_string(),
        time_scanned: 7,
    };
    assert_eq!(n.to_text(), "cafe (aa:bb:cc:dd:ee:ff, -40.5 dBm)");
}

#[test]
fn network_to_text_with_empty_fields() {
    let n = Network {
        mac: String::new(),
        ssid: String::new(),
        channel: String::new(),
        strength: String::new(),
        time_scanned: 0,
    };
    assert_eq!(n.to_text(), " (,  dBm)");
}

#[test]
fn scan_map_new_is_empty() {
    let m = ScanMap::new();
    assert_eq!(m.name, "");
    assert_eq!(m.notes, "");
    assert!(m.nodes.is_empty());
}

#[test]
fn overview_of_a_map_without_notes_or_nodes() {
    assert_eq!(map_with("Office", "", Vec::new()).overview(), "Office Scan Map (0 Node)");
}

#[test]
fn overview_shows_notes_and_count() {
    let m = map_with("Office", "third floor", vec![node("a", &[]), node("b", &[])]);
    assert_eq!(m.overview(), "Office Scan Map (third floor, 2 Nodes)");
}

#[test]
fn overview_writes_nodes_as_soon_as_there_is_one() {
    assert_eq!(map_with("Home", "", vec![node("a", &[])]).overview(), "Home Scan Map (1 Nodes)");
}

#[test]
fn overview_with_many_nodes() {
    let nodes: Vec<Node> = (0..12).map(|_| node("", &[])).collect();
    assert_eq!(map_with("", "n", nodes).overview(), " Scan Map (n, 12 Nodes)");
}

#[test]
fn acquire_appends_exactly_one_node() {
    let mut m = map_with("Office", "notes", vec![node("first", &["a"]), node("second", &[])]);
    let before = m.clone();
    let added = node("third", &["x", "y"]);
    let line = m.acquire(Ok(added.clone()));
    assert_eq!(line, Ok("Recorded a new measurement with 2 networks".to_string()));
    assert_eq!(m.nodes.len(), before.nodes.len() + 1);
    assert_eq!(&m.nodes[..2], &before.nodes[..]);
    assert_eq!(m.nodes[2], added);
    assert_eq!(m.name, "Office");
    assert_eq!(m.notes, "notes");
}

#[test]
fn acquire_into_an_empty_map() {
    let mut m = ScanMap::new();
    assert_eq!(
        m.acquire(Ok(node("only", &["a"]))),
        Ok("Recorded a new measurement with 1 network".to_string())
    );
    assert_eq!(m.nodes, vec![node("only", &["a"])]);
}

#[test]
fn acquire_accepts_a_node_without_networks() {
    let mut m = ScanMap::new();
    assert_eq!(
        m.acquire(Ok(node("quiet", &[]))),
        Ok("Recorded a new measurement with 0 networks".to_string())
    );
    assert_eq!(m.nodes.len(), 1);
    assert!(m.nodes[0].networks.is_empty());
}

#[test]
fn acquire_of_a_failure_leaves_the_map_untouched() {
    let mut m = map_with("Office", "notes", vec![node("first", &["a"])]);
    let before = m.clone();
    let failure = ScanError::from(ScanFault::CommandNotFound);
    assert_eq!(m.acquire(Err(failure)), Err(failure));
    assert_eq!(m, before);
}

#[test]
fn acquire_twice_keeps_the_order_of_recording() {
    let mut m = ScanMap::new();
    m.acquire(Ok(node("one", &[]))).unwrap();
    m.acquire(Ok(node("two", &[]))).unwrap();
    m.acquire(Ok(node("three", &[]))).unwrap();
    let notes: Vec<&str> = m.nodes.iter().map(|n| n.notes.as_str()).collect();
    assert_eq!(notes, vec!["one", "two", "three"]);
}
