//! The scan map as two tables of comma-separated values: one row for each
//! node, and one row for each observation with the index of its node.

use vstd::prelude::*;
use vstd::string::StringExecFns;
use crate::error::MapError;
use crate::model::{NetworkView, Node, NodeView, ScanMap};
use crate::text::{decimal, decimal_string, lemma_decimal_reads_back, views};

verus! {

/// A character that cannot stand in a field as it is: the comma, the quote
/// and the two line breaks.
pub open spec fn is_special(c: char) -> bool {
    c == ',' || c == '"' || c == '\n' || c == '\r'
}

/// The field holds a character that makes quotes necessary.
pub open spec fn needs_quotes(f: Seq<char>) -> bool {
    exists|i: int| 0 <= i < f.len() && is_special(#[trigger] f[i])
}

/// The characters of `f` with every quote written twice.
pub open spec fn doubled_quotes(f: Seq<char>) -> Seq<char>
    decreases f.len(),
{
    if f.len() == 0 {
        Seq::empty()
    } else if f.last() == '"' {
        doubled_quotes(f.drop_last()).push('"').push('"')
    } else {
        doubled_quotes(f.drop_last()).push(f.last())
    }
}

/// A field as it is written: as it is, or, where it holds a special
/// character, between quotes with its own quotes doubled.
pub open spec fn field(f: Seq<char>) -> Seq<char> {
    if needs_quotes(f) {
        seq!['"'] + doubled_quotes(f) + seq!['"']
    } else {
        f
    }
}

/// The fields as they are written, with a comma between neighbours.
pub open spec fn joined(fields: Seq<Seq<char>>) -> Seq<char>
    decreases fields.len(),
{
    if fields.len() == 0 {
        Seq::empty()
    } else if fields.len() == 1 {
        field(fields[0])
    } else {
        joined(fields.drop_last()) + seq![','] + field(fields.last())
    }
}

/// One row as it is written: its fields, then a line feed.
pub open spec fn record(fields: Seq<Seq<char>>) -> Seq<char> {
    joined(fields).push('\n')
}

/// The rows as they are written, one after the other.
pub open spec fn records(rows: Seq<Seq<Seq<char>>>) -> Seq<char>
    decreases rows.len(),
{
    if rows.len() == 0 {
        Seq::empty()
    } else {
        records(rows.drop_last()) + record(rows.last())
    }
}

/// A table as it is written: the row of column names, then the rows.
pub open spec fn table(header: Seq<Seq<char>>, rows: Seq<Seq<Seq<char>>>) -> Seq<char> {
    record(header) + records(rows)
}

fn has_special(f: &str) -> (b: bool)
    ensures
        b == needs_quotes(f@),
{
    for c in it: f.chars()
        invariant
            it.seq() == f@,
            forall|i: int| 0 <= i < it.index() ==> !is_special(f@[i]),
    {
        if c == ',' || c == '"' || c == '\n' || c == '\r' {
            assert(is_special(f@[it.index() as int]));
            return true;
        }
    }
    false
}

/// Writes one field behind `out`.
pub fn push_field(out: &mut String, f: &str)
    ensures
        final(out)@ == old(out)@ + field(f@),
{
    if has_special(f) {
        out.push('"');
        let ghost start = out@;
        for c in it: f.chars()
            invariant
                it.seq() == f@,
                out@ == start + doubled_quotes(f@.take(it.index() as int)),
        {
            proof {
                let k = it.index() as int;
                assert(f@.take(k + 1).drop_last() =~= f@.take(k));
                assert(f@.take(k + 1).last() == c);
            }
            if c == '"' {
                out.push('"');
                out.push('"');
            } else {
                out.push(c);
            }
            assert(out@ =~= start + doubled_quotes(f@.take(it.index() + 1)));
        }
        out.push('"');
        proof {
            assert(f@.take(f@.len() as int) =~= f@);
            assert(out@ =~= old(out)@ + (seq!['"'] + doubled_quotes(f@) + seq!['"']));
        }
    } else {
        out.append(f);
    }
}

/// Writes one row behind `out`.
pub fn push_record(out: &mut String, fields: &Vec<String>)
    ensures
        final(out)@ == old(out)@ + record(views(fields@)),
{
    let ghost all = views(fields@);
    for i in 0..fields.len()
        invariant
            all == views(fields@),
            out@ == old(out)@ + joined(all.take(i as int)),
    {
        proof {
            assert(all.take(i + 1).drop_last() =~= all.take(i as int));
            assert(all.take(i + 1).last() == fields@[i as int]@);
        }
        if i > 0 {
            out.push(',');
        }
        push_field(out, fields[i].as_str());
        proof {
            if i == 0 {
                assert(all.take(1)[0] == fields@[0]@);
                assert(out@ =~= old(out)@ + joined(all.take(1)));
            } else {
                assert(out@ =~= old(out)@ + joined(all.take(i + 1)));
            }
        }
    }
    out.push('\n');
    proof {
        assert(all.take(all.len() as int) =~= all);
        assert(out@ =~= old(out)@ + record(all));
    }
}

/// The position of a node as decimal text, axis by axis.
#[derive(Debug, Clone, PartialEq, Eq)]
pub struct PositionText {
    pub x: String,
    pub y: String,
    pub z: String,
}

/// What a `PositionText` holds, as plain values.
pub struct PositionTextView {
    pub x: Seq<char>,
    pub y: Seq<char>,
    pub z: Seq<char>,
}

impl View for PositionText {
    type V = PositionTextView;

    open spec fn view(&self) -> PositionTextView {
        PositionTextView { x: self.x@, y: self.y@, z: self.z@ }
    }
}

/// The views of a sequence of position texts.
pub open spec fn position_views(s: Seq<PositionText>) -> Seq<PositionTextView> {
    s.map_values(|p: PositionText| p@)
}

/// The column names of the table of nodes.
pub open spec fn node_header() -> Seq<Seq<char>> {
    seq!["index"@, "x"@, "y"@, "z"@, "notes"@]
}

/// The column names of the table of networks.
pub open spec fn network_header() -> Seq<Seq<char>> {
    seq!["node_index"@, "mac"@, "ssid"@, "channel"@, "strength"@, "time_scanned"@]
}

/// The row of the node with the given index.
pub open spec fn node_row(index: nat, p: PositionTextView, node: NodeView) -> Seq<Seq<char>> {
    seq![decimal(index), p.x, p.y, p.z, node.notes]
}

/// The rows of the table of nodes: one for each node, in the order of the
/// map, with the node's index in that order in front.
pub open spec fn node_rows(nodes: Seq<NodeView>, positions: Seq<PositionTextView>) -> Seq<
    Seq<Seq<char>>,
> {
    Seq::new(nodes.len(), |i: int| node_row(i as nat, positions[i], nodes[i]))
}

/// The row of one observation made at the node with the given index.
pub open spec fn network_row(index: nat, n: NetworkView) -> Seq<Seq<char>> {
    seq![decimal(index), n.mac, n.ssid, n.channel, n.strength, decimal(n.time_scanned as nat)]
}

/// The rows of the observations made at one node, in their order.
pub open spec fn rows_of_node(index: nat, networks: Seq<NetworkView>) -> Seq<Seq<Seq<char>>> {
    Seq::new(networks.len(), |i: int| network_row(index, networks[i]))
}

/// The rows of the table of networks: the observations of the first node,
/// then those of the second, and so on.
pub open spec fn network_rows(nodes: Seq<NodeView>) -> Seq<Seq<Seq<char>>>
    decreases nodes.len(),
{
    if nodes.len() == 0 {
        Seq::empty()
    } else {
        network_rows(nodes.drop_last()) + rows_of_node(
            (nodes.len() - 1) as nat,
            nodes.last().networks,
        )
    }
}

/// The number of observations in all nodes together.
pub open spec fn network_count(nodes: Seq<NodeView>) -> nat
    decreases nodes.len(),
{
    if nodes.len() == 0 {
        0
    } else {
        network_count(nodes.drop_last()) + nodes.last().networks.len()
    }
}

/// The row begins with the index of one of the nodes, which is the index
/// that begins a row of the table of nodes.
pub open spec fn names_a_node(
    row: Seq<Seq<char>>,
    nodes: Seq<NodeView>,
    positions: Seq<PositionTextView>,
) -> bool {
    exists|k: int|
        0 <= k < nodes.len() && row.len() > 0 && row[0] == decimal(k as nat) && (
        #[trigger] node_rows(nodes, positions)[k])[0] == row[0]
}

/// The table of nodes has one row for each node and the table of networks
/// one row for each observation, and the index in front of a row of the
/// table of networks stands in front of a row of the table of nodes.
pub proof fn lemma_export_rows(nodes: Seq<NodeView>, positions: Seq<PositionTextView>)
    ensures
        node_rows(nodes, positions).len() == nodes.len(),
        network_rows(nodes).len() == network_count(nodes),
        forall|r: int|
            0 <= r < network_rows(nodes).len() ==> names_a_node(
                #[trigger] network_rows(nodes)[r],
                nodes,
                positions,
            ),
    decreases nodes.len(),
{
    if nodes.len() > 0 {
        let front = nodes.drop_last();
        let last = (nodes.len() - 1) as int;
        let all = network_rows(nodes);
        lemma_export_rows(front, positions);
        assert(all.len() == network_count(nodes));
        assert forall|r: int| 0 <= r < all.len() implies names_a_node(
            #[trigger] all[r],
            nodes,
            positions,
        ) by {
            let row = all[r];
            if r < network_rows(front).len() {
                assert(row == network_rows(front)[r]);
                assert(names_a_node(row, front, positions));
                let k = choose|k: int|
                    0 <= k < front.len() && row.len() > 0 && row[0] == decimal(k as nat) && (
                    #[trigger] node_rows(front, positions)[k])[0] == row[0];
                assert(node_rows(nodes, positions)[k][0] == decimal(k as nat));
            } else {
                let i = r - network_rows(front).len();
                assert(row == rows_of_node(last as nat, nodes.last().networks)[i]);
                assert(row[0] == decimal(last as nat));
                assert(node_rows(nodes, positions)[last][0] == decimal(last as nat));
            }
        }
    }
}

/// No two rows of the table of nodes begin with the same index: the index
/// tells the nodes apart.
pub proof fn lemma_node_index_is_key(
    nodes: Seq<NodeView>,
    positions: Seq<PositionTextView>,
    i: int,
    j: int,
)
    requires
        0 <= i < nodes.len(),
        0 <= j < nodes.len(),
        node_rows(nodes, positions)[i][0] == node_rows(nodes, positions)[j][0],
    ensures
        i == j,
{
    lemma_decimal_reads_back(i as nat);
    lemma_decimal_reads_back(j as nat);
}

/// Writes the table of nodes: a row of column names, then one row for each
/// node with its index, its position and its notes. `positions` holds the
/// position of each node as decimal text, in the order of the nodes; where it
/// does not hold one for each node there is no table.
pub fn nodes_csv(map: &ScanMap, positions: &Vec<PositionText>) -> (r: Option<String>)
    ensures
        positions@.len() != map.nodes@.len() ==> r is None,
        positions@.len() == map.nodes@.len() ==> (r matches Some(t) && t@ == table(
            node_header(),
            node_rows(map@.nodes, position_views(positions@)),
        )),
{
    if positions.len() != map.nodes.len() {
        return None;
    }
    let mut out = String::new();
    let mut names: Vec<String> = Vec::new();
    names.push(String::from_str("index"));
    names.push(String::from_str("x"));
    names.push(String::from_str("y"));
    names.push(String::from_str("z"));
    names.push(String::from_str("notes"));
    assert(views(names@) =~= node_header());
    push_record(&mut out, &names);
    let ghost rows = node_rows(map@.nodes, position_views(positions@));
    assert(out@ =~= record(node_header()) + records(rows.take(0)));
    for i in 0..map.nodes.len()
        invariant
            positions@.len() == map.nodes@.len(),
            rows == node_rows(map@.nodes, position_views(positions@)),
            out@ == record(node_header()) + records(rows.take(i as int)),
    {
        let node = &map.nodes[i];
        let p = &positions[i];
        let mut fields: Vec<String> = Vec::new();
        fields.push(decimal_string(i as u128));
        fields.push(p.x.clone());
        fields.push(p.y.clone());
        fields.push(p.z.clone());
        fields.push(node.notes.clone());
        proof {
            assert(map@.nodes[i as int] == node@);
            assert(position_views(positions@)[i as int] == p@);
            assert(views(fields@) =~= rows[i as int]);
            assert(rows.take(i + 1).drop_last() =~= rows.take(i as int));
            assert(rows.take(i + 1).last() == rows[i as int]);
        }
        push_record(&mut out, &fields);
        assert(out@ =~= record(node_header()) + records(rows.take(i + 1)));
    }
    assert(rows.take(rows.len() as int) =~= rows);
    Some(out)
}

/// Writes the rows of the observations made at the node with the given
/// index behind `out`.
fn push_networks(out: &mut String, index: usize, node: &Node)
    ensures
        final(out)@ == old(out)@ + records(rows_of_node(index as nat, node@.networks)),
{
    let ghost rows = rows_of_node(index as nat, node@.networks);
    assert(out@ =~= old(out)@ + records(rows.take(0)));
    for i in 0..node.networks.len()
        invariant
            rows == rows_of_node(index as nat, node@.networks),
            out@ == old(out)@ + records(rows.take(i as int)),
    {
        let n = &node.networks[i];
        let mut fields: Vec<String> = Vec::new();
        fields.push(decimal_string(index as u128));
        fields.push(n.mac.clone());
        fields.push(n.ssid.clone());
        fields.push(n.channel.clone());
        fields.push(n.strength.clone());
        fields.push(decimal_string(n.time_scanned));
        proof {
            assert(node@.networks[i as int] == n@);
            assert(views(fields@) =~= rows[i as int]);
            assert(rows.take(i + 1).drop_last() =~= rows.take(i as int));
            assert(rows.take(i + 1).last() == rows[i as int]);
        }
        push_record(out, &fields);
        assert(out@ =~= old(out)@ + records(rows.take(i + 1)));
    }
    assert(rows.take(rows.len() as int) =~= rows);
}

/// Rows written one after the other are the rows of both lists written.
proof fn lemma_records_add(a: Seq<Seq<Seq<char>>>, b: Seq<Seq<Seq<char>>>)
    ensures
        records(a + b) == records(a) + records(b),
    decreases b.len(),
{
    if b.len() == 0 {
        assert(a + b =~= a);
        assert(records(a) + records(b) =~= records(a));
    } else {
        lemma_records_add(a, b.drop_last());
        assert((a + b).drop_last() =~= a + b.drop_last());
        assert((a + b).last() == b.last());
        assert(records(a + b) =~= records(a) + records(b));
    }
}

/// Writes the table of networks: a row of column names, then one row for
/// each observation of each node, with the index of the node in front.
pub fn networks_csv(map: &ScanMap) -> (t: String)
    ensures
        t@ == table(network_header(), network_rows(map@.nodes)),
{
    let mut out = String::new();
    let mut names: Vec<String> = Vec::new();
    names.push(String::from_str("node_index"));
    names.push(String::from_str("mac"));
    names.push(String::from_str("ssid"));
    names.push(String::from_str("channel"));
    names.push(String::from_str("strength"));
    names.push(String::from_str("time_scanned"));
    assert(views(names@) =~= network_header());
    push_record(&mut out, &names);
    let ghost nodes = map@.nodes;
    assert(out@ =~= record(network_header()) + records(network_rows(nodes.take(0))));
    for i in 0..map.nodes.len()
        invariant
            nodes == map@.nodes,
            out@ == record(network_header()) + records(network_rows(nodes.take(i as int))),
    {
        proof {
            assert(nodes.take(i + 1).drop_last() =~= nodes.take(i as int));
            assert(nodes.take(i + 1).last() == map.nodes@[i as int]@);
            lemma_records_add(
                network_rows(nodes.take(i as int)),
                rows_of_node(i as nat, map.nodes@[i as int]@.networks),
            );
        }
        push_networks(&mut out, i, &map.nodes[i]);
        assert(out@ =~= record(network_header()) + records(network_rows(nodes.take(i + 1))));
    }
    assert(nodes.take(nodes.len() as int) =~= nodes);
    out
}

/// What has to be done about the directory to export to: `Ok(true)` where
/// it has to be made first, `Ok(false)` where it is there. A target that
/// exists and is no directory is refused.
pub fn prepare_target(exists: bool, is_directory: bool) -> (r: Result<bool, MapError>)
    ensures
        exists && !is_directory ==> r == Err::<bool, MapError>(MapError::InvalidTarget),
        !(exists && !is_directory) ==> r == Ok::<bool, MapError>(!exists),
{
    if exists && !is_directory {
        Err(MapError::InvalidTarget)
    } else {
        Ok(!exists)
    }
}

/// The name of the file that holds the table of nodes.
pub fn nodes_file_name() -> (name: &'static str)
    ensures
        name@ == "nodes.csv"@,
{
    "nodes.csv"
}

/// The name of the file that holds the table of networks.
pub fn networks_file_name() -> (name: &'static str)
    ensures
        name@ == "networks.csv"@,
{
    "networks.csv"
}

} // verus!
