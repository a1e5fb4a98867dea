//! What is made of one scan: the observations, stamped with the time of the
//! scan and put in the order of their hardware addresses.

use vstd::prelude::*;
use vstd::string::StringExecFns;
use crate::model::{network_views, Network, NetworkView, Sighting};
use crate::text::{byte_len, decimal, decimal_string, pad_right, padded, plural, plural_str};
use crate::order::{
    lemma_text_le_antisymmetric, lemma_text_le_reflexive, lemma_text_le_total,
    lemma_text_le_transitive, str_le, text_le,
};

verus! {

/// The observation that the sighting `s` gives when the scan was started at
/// `time`.
pub open spec fn tag(s: Sighting, time: u128) -> Network {
    Network {
        mac: s.mac,
        ssid: s.ssid,
        channel: s.channel,
        strength: s.signal_level,
        time_scanned: time,
    }
}

/// The observations of one scan: every sighting stamped with the same time.
pub open spec fn tagged(s: Seq<Sighting>, time: u128) -> Seq<Network> {
    s.map_values(|x: Sighting| tag(x, time))
}

/// Stamps every sighting of one scan with the time at which the scan was
/// started.
pub fn from_scan(sightings: Vec<Sighting>, time: u128) -> (out: Vec<Network>)
    ensures
        out@ == tagged(sightings@, time),
{
    let mut out: Vec<Network> = Vec::new();
    let ghost all = sightings@;
    for s in it: sightings
        invariant
            it.seq() == all,
            out@ == tagged(all.take(it.index() as int), time),
    {
        out.push(
            Network {
                mac: s.mac,
                ssid: s.ssid,
                channel: s.channel,
                strength: s.signal_level,
                time_scanned: time,
            },
        );
        assert(out@ =~= tagged(all.take(it.index() + 1), time));
    }
    assert(all.take(all.len() as int) =~= all);
    out
}

/// The hardware address of `a` sorts no later than that of `b`.
pub open spec fn mac_le(a: Network, b: Network) -> bool {
    text_le(a.mac@, b.mac@)
}

/// The hardware addresses of `s` ascend from left to right.
pub open spec fn sorted_by_mac(s: Seq<Network>) -> bool {
    forall|i: int, j: int| 0 <= i < j < s.len() ==> mac_le(#[trigger] s[i], #[trigger] s[j])
}

/// The test "has the hardware address `mac`".
pub open spec fn has_mac(mac: Seq<char>) -> spec_fn(Network) -> bool {
    |n: Network| n.mac@ == mac
}

/// The observations of `s` with the hardware address `mac`, in their order.
pub open spec fn with_mac(s: Seq<Network>, mac: Seq<char>) -> Seq<Network> {
    s.filter(has_mac(mac))
}

/// For every hardware address, `a` and `b` hold the same observations with
/// that address, in the same order.
pub open spec fn same_groups(a: Seq<Network>, b: Seq<Network>) -> bool {
    forall|mac: Seq<char>| #[trigger] with_mac(a, mac) == with_mac(b, mac)
}

/// `out` is `inp` sorted by hardware address, observations with the same
/// address left in the order that they have in `inp`.
pub open spec fn is_stable_sort(out: Seq<Network>, inp: Seq<Network>) -> bool {
    &&& out.len() == inp.len()
    &&& sorted_by_mac(out)
    &&& same_groups(out, inp)
}

/// A sequence in which nothing passes `pred` filters to nothing.
proof fn lemma_filter_none<T>(s: Seq<T>, pred: spec_fn(T) -> bool)
    requires
        forall|k: int| 0 <= k < s.len() ==> !pred(s[k]),
    ensures
        s.filter(pred) == Seq::<T>::empty(),
    decreases s.len(),
{
    reveal(Seq::filter);
    if s.len() > 0 {
        lemma_filter_none(s.drop_last(), pred);
    }
}

/// Moving the item at `i` forward to `j` changes nothing in what passes
/// `pred`, provided that the item passes only if none of those that it jumps
/// over does.
proof fn lemma_move_keeps_filter<T>(s: Seq<T>, i: int, j: int, pred: spec_fn(T) -> bool)
    requires
        0 <= j <= i < s.len(),
        pred(s[i]) ==> forall|k: int| j <= k < i ==> !pred(s[k]),
    ensures
        s.remove(i).insert(j, s[i]).filter(pred) == s.filter(pred),
{
    let a = s.subrange(0, j);
    let b = s.subrange(j, i);
    let x = seq![s[i]];
    let c = s.subrange(i + 1, s.len() as int);
    assert(s =~= ((a + b) + x) + c);
    assert(s.remove(i).insert(j, s[i]) =~= ((a + x) + b) + c);
    Seq::filter_distributes_over_add((a + b) + x, c, pred);
    Seq::filter_distributes_over_add(a + b, x, pred);
    Seq::filter_distributes_over_add(a, b, pred);
    Seq::filter_distributes_over_add((a + x) + b, c, pred);
    Seq::filter_distributes_over_add(a + x, b, pred);
    Seq::filter_distributes_over_add(a, x, pred);
    if pred(s[i]) {
        lemma_filter_none(b, pred);
    } else {
        lemma_filter_none(x, pred);
    }
    assert((a.filter(pred) + b.filter(pred)) + x.filter(pred) =~= (a.filter(pred) + x.filter(pred))
        + b.filter(pred));
}

/// Sorts `networks` by hardware address, ascending in the byte order of the
/// addresses; observations with the same address stay in their order.
pub fn sort_by_mac(networks: &mut Vec<Network>)
    ensures
        is_stable_sort(final(networks)@, old(networks)@),
{
    let n = networks.len();
    let ghost given = networks@;
    let mut i: usize = 0;
    while i < n
        invariant
            n == networks@.len(),
            n == given.len(),
            i <= n,
            sorted_by_mac(networks@.take(i as int)),
            same_groups(networks@, given),
        decreases n - i,
    {
        let mut j: usize = i;
        while j > 0 && !str_le(networks[j - 1].mac.as_str(), networks[i].mac.as_str())
            invariant
                j <= i < n,
                n == networks@.len(),
                forall|k: int| j <= k < i ==> !mac_le(networks@[k], networks@[i as int]),
            decreases j,
        {
            j = j - 1;
        }
        let ghost before = networks@;
        let x = networks.remove(i);
        networks.insert(j, x);
        proof {
            let after = networks@;
            assert(after == before.remove(i as int).insert(j as int, before[i as int]));
            assert forall|mac: Seq<char>| #[trigger] with_mac(after, mac) == with_mac(given, mac) by {
                assert(with_mac(before, mac) == with_mac(given, mac));
                if has_mac(mac)(before[i as int]) {
                    assert forall|k: int| j <= k < i implies !has_mac(mac)(before[k]) by {
                        lemma_text_le_reflexive(mac);
                    }
                }
                lemma_move_keeps_filter(before, i as int, j as int, has_mac(mac));
            }
            let pre = before.take(i as int);
            let now = after.take(i + 1);
            assert forall|p: int, q: int| 0 <= p < q < now.len() implies mac_le(
                #[trigger] now[p],
                #[trigger] now[q],
            ) by {
                if q < j {
                    assert(mac_le(pre[p], pre[q]));
                } else if q == j {
                    assert(mac_le(before[j - 1], x));
                    if p < j - 1 {
                        assert(mac_le(pre[p], pre[j - 1]));
                        lemma_text_le_transitive(before[p].mac@, before[j - 1].mac@, x.mac@);
                    }
                } else if p < j {
                    assert(mac_le(pre[p], pre[q - 1]));
                } else if p == j {
                    assert(!mac_le(before[q - 1], x));
                    lemma_text_le_total(before[q - 1].mac@, x.mac@);
                } else {
                    assert(mac_le(pre[p - 1], pre[q - 1]));
                }
            }
        }
        i = i + 1;
    }
    assert(networks@.take(n as int) =~= networks@);
}

/// The length in bytes of the longest network name in `s`; 0 where `s` is
/// empty.
pub open spec fn widest_ssid(s: Seq<NetworkView>) -> nat
    decreases s.len(),
{
    if s.len() == 0 {
        0
    } else {
        let rest = widest_ssid(s.drop_last());
        let last = byte_len(s.last().ssid);
        if last > rest {
            last
        } else {
            rest
        }
    }
}

/// No name in `s` is longer than `widest_ssid(s)`, and a non-empty `s` holds
/// a name of that length.
pub proof fn lemma_widest_ssid(s: Seq<NetworkView>)
    ensures
        forall|i: int| 0 <= i < s.len() ==> byte_len(#[trigger] s[i].ssid) <= widest_ssid(s),
        s.len() > 0 ==> exists|i: int| 0 <= i < s.len() && byte_len(#[trigger] s[i].ssid)
            == widest_ssid(s),
    decreases s.len(),
{
    if s.len() > 0 {
        let front = s.drop_last();
        lemma_widest_ssid(front);
        assert forall|i: int| 0 <= i < s.len() implies byte_len(#[trigger] s[i].ssid)
            <= widest_ssid(s) by {
            if i < front.len() {
                assert(front[i] == s[i]);
            }
        }
        if byte_len(s.last().ssid) > widest_ssid(front) || front.len() == 0 {
            assert(byte_len(s[s.len() - 1].ssid) == widest_ssid(s));
        } else {
            let i = choose|i: int| 0 <= i < front.len() && byte_len(#[trigger] front[i].ssid)
                == widest_ssid(front);
            assert(front[i] == s[i]);
            assert(byte_len(s[i].ssid) == widest_ssid(s));
        }
    }
}

/// Finds the length in bytes of the longest network name.
pub fn max_ssid_len(networks: &Vec<Network>) -> (w: usize)
    ensures
        w == widest_ssid(network_views(networks@)),
{
    let mut w: usize = 0;
    let ghost all = network_views(networks@);
    for i in 0..networks.len()
        invariant
            all == network_views(networks@),
            w == widest_ssid(all.take(i as int)),
    {
        assert(all.take(i + 1).drop_last() =~= all.take(i as int));
        let len = networks[i].ssid.as_str().as_bytes().len();
        if len > w {
            w = len;
        }
    }
    assert(all.take(all.len() as int) =~= all);
    w
}

/// The observation `n` with its name padded to `width` bytes.
pub open spec fn aligned(n: NetworkView, width: nat) -> NetworkView {
    NetworkView { ssid: padded(n.ssid, width), ..n }
}

/// The observations of `s` as they are shown: every name padded with spaces
/// to the length of the longest, everything else as it is.
pub open spec fn aligned_all(s: Seq<NetworkView>) -> Seq<NetworkView> {
    s.map_values(|n: NetworkView| aligned(n, widest_ssid(s)))
}

/// In what is shown every name is as long as the longest, and nothing but
/// the names differs from the observations.
pub proof fn lemma_aligned_widths(s: Seq<NetworkView>)
    ensures
        aligned_all(s).len() == s.len(),
        forall|i: int|
            0 <= i < s.len() ==> byte_len((#[trigger] aligned_all(s)[i]).ssid) == widest_ssid(s),
        forall|i: int|
            0 <= i < s.len() ==> (#[trigger] aligned_all(s)[i]) == (NetworkView {
                ssid: aligned_all(s)[i].ssid,
                ..s[i]
            }),
{
    lemma_widest_ssid(s);
    assert forall|i: int| 0 <= i < s.len() implies byte_len((#[trigger] aligned_all(s)[i]).ssid)
        == widest_ssid(s) by {
        crate::text::lemma_padded_width(s[i].ssid, widest_ssid(s));
    }
}

/// Makes the copy of `networks` that is shown: the names padded to one
/// width. The observations themselves stay as they are.
pub fn aligned_copy(networks: &Vec<Network>) -> (out: Vec<Network>)
    ensures
        network_views(out@) == aligned_all(network_views(networks@)),
{
    let width = max_ssid_len(networks);
    let mut out: Vec<Network> = Vec::new();
    let ghost all = network_views(networks@);
    for i in 0..networks.len()
        invariant
            all == network_views(networks@),
            width == widest_ssid(all),
            network_views(out@) == aligned_all(all).take(i as int),
    {
        let n = &networks[i];
        let shown = Network {
            mac: n.mac.clone(),
            ssid: pad_right(n.ssid.as_str(), width),
            channel: n.channel.clone(),
            strength: n.strength.clone(),
            time_scanned: n.time_scanned,
        };
        assert(shown@ == aligned(all[i as int], width as nat));
        let ghost before = network_views(out@);
        out.push(shown);
        assert(network_views(out@) =~= before.push(shown@));
        assert(before.push(shown@) =~= aligned_all(all).take(i + 1));
    }
    assert(aligned_all(all).take(all.len() as int) =~= aligned_all(all));
    out
}

/// The line above the listing of a scan of `n` networks.
pub open spec fn heading(n: nat) -> Seq<char> {
    "Measured "@ + decimal(n) + " network"@ + plural(n) + ":"@
}

/// One line of the listing: the observation, indented.
pub open spec fn entry(n: NetworkView) -> Seq<char> {
    "    "@ + n.text()
}

/// The lines of the listing for the observations `s`, in order.
pub open spec fn entries(s: Seq<NetworkView>) -> Seq<Seq<char>> {
    s.map_values(|n: NetworkView| entry(n))
}

/// What is shown of a scan: the heading, then one line for each observation
/// in order, the names aligned.
pub open spec fn listing_of(s: Seq<NetworkView>) -> Seq<Seq<char>> {
    seq![heading(s.len())] + entries(aligned_all(s))
}

/// Writes the listing of a scan, line by line.
pub fn listing(networks: &Vec<Network>) -> (lines: Vec<String>)
    ensures
        crate::text::views(lines@) == listing_of(network_views(networks@)),
{
    let shown = aligned_copy(networks);
    let ghost all = network_views(networks@);
    let mut head = String::from_str("Measured ");
    let count = decimal_string(networks.len() as u128);
    head.append(count.as_str());
    head.append(" network");
    head.append(plural_str(networks.len()));
    head.append(":");
    let mut lines: Vec<String> = Vec::new();
    lines.push(head);
    let ghost rows = entries(aligned_all(all));
    assert(crate::text::views(lines@) =~= seq![heading(all.len())] + rows.take(0));
    assert(network_views(shown@).len() == shown@.len());
    for i in 0..shown.len()
        invariant
            network_views(shown@) == aligned_all(all),
            all.len() == shown@.len(),
            rows == entries(aligned_all(all)),
            crate::text::views(lines@) == seq![heading(all.len())] + rows.take(i as int),
    {
        let mut line = String::from_str("    ");
        let text = shown[i].to_text();
        line.append(text.as_str());
        assert(line@ == rows[i as int]) by {
            assert(network_views(shown@)[i as int] == shown@[i as int]@);
        }
        let ghost before = crate::text::views(lines@);
        lines.push(line);
        assert(crate::text::views(lines@) =~= before.push(rows[i as int]));
        assert(before.push(rows[i as int]) =~= seq![heading(all.len())] + rows.take(i + 1));
    }
    assert(rows.take(all.len() as int) =~= rows);
    lines
}

/// Filtering keeps the number of times that an item which passes stands in
/// a sequence.
proof fn lemma_filter_keeps_count<T>(s: Seq<T>, pred: spec_fn(T) -> bool, v: T)
    requires
        pred(v),
    ensures
        s.filter(pred).to_multiset().count(v) == s.to_multiset().count(v),
    decreases s.len(),
{
    reveal(Seq::filter);
    broadcast use vstd::seq_lib::group_to_multiset_ensures;

    if s.len() > 0 {
        let front = s.drop_last();
        lemma_filter_keeps_count(front, pred, v);
        assert(s =~= front.push(s.last()));
    }
}

/// A stable sort only moves what it is given: the result holds every
/// observation as often as the input does.
pub proof fn lemma_stable_sort_permutes(out: Seq<Network>, inp: Seq<Network>)
    requires
        is_stable_sort(out, inp),
    ensures
        out.to_multiset() == inp.to_multiset(),
{
    assert forall|v: Network| out.to_multiset().count(v) == inp.to_multiset().count(v) by {
        assert(with_mac(out, v.mac@) == with_mac(inp, v.mac@));
        lemma_filter_keeps_count(out, has_mac(v.mac@), v);
        lemma_filter_keeps_count(inp, has_mac(v.mac@), v);
    }
    assert(out.to_multiset() =~= inp.to_multiset());
}

/// What passes `pred` in a sequence is what passes in its first item,
/// followed by what passes in the rest.
proof fn lemma_filter_first<T>(s: Seq<T>, pred: spec_fn(T) -> bool)
    requires
        s.len() > 0,
    ensures
        pred(s[0]) ==> s.filter(pred) == seq![s[0]] + s.skip(1).filter(pred),
        !pred(s[0]) ==> s.filter(pred) == s.skip(1).filter(pred),
{
    let head = seq![s[0]];
    assert(s =~= head + s.skip(1));
    Seq::filter_distributes_over_add(head, s.skip(1), pred);
    if pred(s[0]) {
        reveal_with_fuel(Seq::filter, 2);
        assert(head.drop_last() =~= Seq::<T>::empty());
        assert(head.filter(pred) =~= head);
    } else {
        lemma_filter_none(head, pred);
        assert(Seq::<T>::empty() + s.skip(1).filter(pred) =~= s.skip(1).filter(pred));
    }
}

/// A sorted sequence holds no address that sorts before that of its first
/// item.
proof fn lemma_first_is_least(a: Seq<Network>, b: Seq<Network>)
    requires
        a.len() > 0,
        b.len() > 0,
        sorted_by_mac(b),
        same_groups(a, b),
    ensures
        mac_le(b[0], a[0]),
{
    let m = a[0].mac@;
    lemma_filter_first(a, has_mac(m));
    assert(with_mac(b, m) == with_mac(a, m));
    let e = with_mac(b, m)[0];
    b.lemma_filter_pred(has_mac(m), 0);
    b.lemma_filter_contains_rev(has_mac(m), e);
    let j = choose|j: int| 0 <= j < b.len() && b[j] == e;
    if j > 0 {
        assert(mac_le(b[0], b[j]));
    } else {
        lemma_text_le_reflexive(m);
    }
}

/// Two sorted sequences with the same groups are the same sequence.
proof fn lemma_sorted_groups_decide(a: Seq<Network>, b: Seq<Network>)
    requires
        a.len() == b.len(),
        sorted_by_mac(a),
        sorted_by_mac(b),
        same_groups(a, b),
    ensures
        a == b,
    decreases a.len(),
{
    if a.len() == 0 {
        assert(a =~= b);
    } else {
        lemma_first_is_least(a, b);
        assert forall|mac: Seq<char>| #[trigger] with_mac(b, mac) == with_mac(a, mac) by {
            assert(with_mac(a, mac) == with_mac(b, mac));
        }
        lemma_first_is_least(b, a);
        lemma_text_le_antisymmetric(a[0].mac@, b[0].mac@);
        let m = a[0].mac@;
        lemma_filter_first(a, has_mac(m));
        lemma_filter_first(b, has_mac(m));
        assert(with_mac(a, m) == with_mac(b, m));
        assert(with_mac(a, m)[0] == a[0]);
        assert(with_mac(b, m)[0] == b[0]);
        let ra = a.skip(1);
        let rb = b.skip(1);
        assert forall|mac: Seq<char>| #[trigger] with_mac(ra, mac) == with_mac(rb, mac) by {
            assert(with_mac(a, mac) == with_mac(b, mac));
            lemma_filter_first(a, has_mac(mac));
            lemma_filter_first(b, has_mac(mac));
            if mac == m {
                assert(with_mac(ra, mac) =~= with_mac(a, mac).skip(1));
                assert(with_mac(rb, mac) =~= with_mac(b, mac).skip(1));
            }
        }
        assert forall|i: int, j: int| 0 <= i < j < ra.len() implies mac_le(
            #[trigger] ra[i],
            #[trigger] ra[j],
        ) by {
            assert(mac_le(a[i + 1], a[j + 1]));
        }
        assert forall|i: int, j: int| 0 <= i < j < rb.len() implies mac_le(
            #[trigger] rb[i],
            #[trigger] rb[j],
        ) by {
            assert(mac_le(b[i + 1], b[j + 1]));
        }
        lemma_sorted_groups_decide(ra, rb);
        assert(a =~= seq![a[0]] + ra);
        assert(b =~= seq![b[0]] + rb);
    }
}

/// There is one stable sort only: two sequences that both are `inp` sorted
/// by hardware address, ties left in the order of `inp`, are the same.
pub proof fn lemma_stable_sort_unique(a: Seq<Network>, b: Seq<Network>, inp: Seq<Network>)
    requires
        is_stable_sort(a, inp),
        is_stable_sort(b, inp),
    ensures
        a == b,
{
    assert forall|mac: Seq<char>| #[trigger] with_mac(a, mac) == with_mac(b, mac) by {
        assert(with_mac(a, mac) == with_mac(inp, mac));
        assert(with_mac(b, mac) == with_mac(inp, mac));
    }
    lemma_sorted_groups_decide(a, b);
}

} // verus!
