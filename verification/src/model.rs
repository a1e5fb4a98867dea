//! The survey data: coordinates, network observations, nodes and the scan map.

use vstd::prelude::*;
use vstd::string::StringExecFns;
use crate::error::ScanError;
use crate::text::{decimal, decimal_string, plural, plural_str};

verus! {

/// A position in space. Each axis holds the bit pattern of an IEEE-754
/// single-precision number; `x` and `y` span the horizontal plane, `z` is the
/// height.
#[derive(Debug, Clone, Copy, PartialEq, Eq)]
pub struct Coordinate {
    pub x: u32,
    pub y: u32,
    pub z: u32,
}

/// The exponent field of a single-precision bit pattern, in place.
pub const EXPONENT_MASK: u32 = 0x7f80_0000;

/// Whether `bits` stands for a finite number: neither an infinity nor a NaN,
/// which are the patterns with every exponent bit set.
pub open spec fn finite_bits(bits: u32) -> bool {
    bits & EXPONENT_MASK != EXPONENT_MASK
}

/// Decides `finite_bits`.
pub fn is_finite_bits(bits: u32) -> (b: bool)
    ensures
        b == finite_bits(bits),
{
    bits & EXPONENT_MASK != EXPONENT_MASK
}

impl Coordinate {
    /// Every axis is a finite number.
    pub open spec fn finite(self) -> bool {
        finite_bits(self.x) && finite_bits(self.y) && finite_bits(self.z)
    }

    /// The origin: every axis is positive zero.
    pub fn new() -> (c: Coordinate)
        ensures
            c == (Coordinate { x: 0, y: 0, z: 0 }),
            c.finite(),
    {
        assert(0u32 & 0x7f80_0000u32 != 0x7f80_0000u32) by (bit_vector);
        Coordinate { x: 0, y: 0, z: 0 }
    }

    /// Decides whether every axis is a finite number.
    pub fn is_finite(&self) -> (b: bool)
        ensures
            b == self.finite(),
    {
        is_finite_bits(self.x) && is_finite_bits(self.y) && is_finite_bits(self.z)
    }
}

/// One wireless network as a scan reports it.
#[derive(Debug, Clone, PartialEq, Eq)]
pub struct Sighting {
    /// Hardware address of the access point.
    pub mac: String,
    /// Name of the network.
    pub ssid: String,
    /// Channel the network is broadcast on.
    pub channel: String,
    /// Signal level, by convention in dBm, as the scan wrote it.
    pub signal_level: String,
}

/// One wireless network measured at one point in time.
#[derive(Debug, Clone, PartialEq, Eq)]
pub struct Network {
    /// Hardware address of the access point.
    pub mac: String,
    /// Name of the network.
    pub ssid: String,
    /// Channel the network is broadcast on.
    pub channel: String,
    /// Signal strength, by convention in dBm, kept as text.
    pub strength: String,
    /// When the measurement was taken: milliseconds since the Unix epoch.
    pub time_scanned: u128,
}

/// What a `Network` holds, as plain values.
pub struct NetworkView {
    pub mac: Seq<char>,
    pub ssid: Seq<char>,
    pub channel: Seq<char>,
    pub strength: Seq<char>,
    pub time_scanned: u128,
}

impl View for Network {
    type V = NetworkView;

    open spec fn view(&self) -> NetworkView {
        NetworkView {
            mac: self.mac@,
            ssid: self.ssid@,
            channel: self.channel@,
            strength: self.strength@,
            time_scanned: self.time_scanned,
        }
    }
}

impl NetworkView {
    /// One line for the observation: the name, then the hardware address and
    /// the strength in brackets.
    pub open spec fn text(self) -> Seq<char> {
        self.ssid + " ("@ + self.mac + ", "@ + self.strength + " dBm)"@
    }
}

impl Network {
    /// Writes the observation as one line: `ssid (mac, strength dBm)`.
    pub fn to_text(&self) -> (out: String)
        ensures
            out@ == self@.text(),
    {
        let mut out = self.ssid.clone();
        out.append(" (");
        out.append(self.mac.as_str());
        out.append(", ");
        out.append(self.strength.as_str());
        out.append(" dBm)");
        out
    }
}

/// The views of a sequence of networks.
pub open spec fn network_views(s: Seq<Network>) -> Seq<NetworkView> {
    s.map_values(|n: Network| n@)
}

/// One recorded location: where it is, what was noted, what was measured.
#[derive(Debug, Clone, PartialEq, Eq)]
pub struct Node {
    pub position: Coordinate,
    pub notes: String,
    pub networks: Vec<Network>,
}

/// What a `Node` holds, as plain values.
pub struct NodeView {
    pub position: Coordinate,
    pub notes: Seq<char>,
    pub networks: Seq<NetworkView>,
}

impl View for Node {
    type V = NodeView;

    open spec fn view(&self) -> NodeView {
        NodeView {
            position: self.position,
            notes: self.notes@,
            networks: network_views(self.networks@),
        }
    }
}

/// The views of a sequence of nodes.
pub open spec fn node_views(s: Seq<Node>) -> Seq<NodeView> {
    s.map_values(|n: Node| n@)
}

/// All nodes recorded for one survey, in the order of recording.
#[derive(Debug, Clone, PartialEq, Eq)]
pub struct ScanMap {
    /// Title of the scan map.
    pub name: String,
    /// Free-form description of any additional details.
    pub notes: String,
    /// The recorded nodes; a node's index is its identity.
    pub nodes: Vec<Node>,
}

/// What a `ScanMap` holds, as plain values.
pub struct ScanMapView {
    pub name: Seq<char>,
    pub notes: Seq<char>,
    pub nodes: Seq<NodeView>,
}

impl View for ScanMap {
    type V = ScanMapView;

    open spec fn view(&self) -> ScanMapView {
        ScanMapView { name: self.name@, notes: self.notes@, nodes: node_views(self.nodes@) }
    }
}

/// The line that confirms a recorded node with `count` networks.
pub open spec fn recorded_text(count: nat) -> Seq<char> {
    "Recorded a new measurement with "@ + decimal(count) + " network"@ + plural(count)
}

impl ScanMapView {
    /// The notes as the overview shows them: followed by a comma and a space,
    /// or nothing at all where there are none.
    pub open spec fn notes_part(self) -> Seq<char> {
        if self.notes.len() > 0 {
            self.notes + ", "@
        } else {
            Seq::empty()
        }
    }

    /// The ending of the word "Node" in the overview: an `s` as soon as the
    /// map holds a node.
    pub open spec fn nodes_ending(self) -> Seq<char> {
        if self.nodes.len() > 0 {
            "s"@
        } else {
            Seq::empty()
        }
    }

    /// The overview of the map: its name, its notes and the number of its
    /// nodes.
    pub open spec fn overview(self) -> Seq<char> {
        self.name + " Scan Map ("@ + self.notes_part() + decimal(self.nodes.len()) + " Node"@
            + self.nodes_ending() + ")"@
    }
}

impl ScanMap {
    /// Writes a one-line summary: `name Scan Map (notes, N Nodes)`.
    pub fn overview(&self) -> (out: String)
        ensures
            out@ == self@.overview(),
    {
        let mut out = self.name.clone();
        out.append(" Scan Map (");
        if !self.notes.as_str().is_empty() {
            out.append(self.notes.as_str());
            out.append(", ");
        }
        let count = decimal_string(self.nodes.len() as u128);
        out.append(count.as_str());
        out.append(" Node");
        if self.nodes.len() > 0 {
            out.append("s");
        }
        out.append(")");
        proof {
            assert(self@.notes_part() + Seq::<char>::empty() =~= self@.notes_part());
            assert(self.name@ + " Scan Map ("@ =~= self.name@ + " Scan Map ("@
                + Seq::<char>::empty());
            assert(self.name@ + " Scan Map ("@ + self.notes@ + ", "@ =~= self.name@
                + " Scan Map ("@ + (self.notes@ + ", "@));
        }
        out
    }

    /// Takes what came of recording a node. A node is put behind those that
    /// the map holds, which stay as they are, and the line that confirms it is
    /// returned. A failure is handed back and the map is left untouched.
    pub fn acquire(&mut self, outcome: Result<Node, ScanError>) -> (r: Result<String, ScanError>)
        ensures
            match outcome {
                Ok(node) => {
                    &&& r matches Ok(line)
                    &&& line@ == recorded_text(node.networks@.len())
                    &&& final(self).nodes@ == old(self).nodes@.push(node)
                    &&& final(self).name == old(self).name
                    &&& final(self).notes == old(self).notes
                    &&& final(self)@.nodes == old(self)@.nodes.push(node@)
                },
                Err(e) => r == Err::<String, ScanError>(e) && *final(self) == *old(self),
            },
    {
        match outcome {
            Ok(node) => {
                let mut line = String::from_str("Recorded a new measurement with ");
                let count = decimal_string(node.networks.len() as u128);
                line.append(count.as_str());
                line.append(" network");
                line.append(plural_str(node.networks.len()));
                self.nodes.push(node);
                assert(node_views(self.nodes@) =~= node_views(old(self).nodes@).push(node@));
                Ok(line)
            },
            Err(e) => Err(e),
        }
    }

    /// A map without name, notes or nodes.
    pub fn new() -> (m: ScanMap)
        ensures
            m@ == (ScanMapView { name: Seq::empty(), notes: Seq::empty(), nodes: Seq::empty() }),
    {
        let m = ScanMap { name: String::new(), notes: String::new(), nodes: Vec::new() };
        assert(node_views(m.nodes@) =~= Seq::empty());
        m
    }
}

} // verus!
