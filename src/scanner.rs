use vstd::prelude::*;
use vstd::string::*;
use vstd::seq_lib::*;
use crate::{HostInfo, HostView};
use crate::network::{Ipv4Addr, decimal_text, ipv4_text, push_decimal};

verus! {

/// Text order: lexicographic by character, so "10.0.0.10" comes before "10.0.0.2".
pub open spec fn text_le(x: Seq<char>, y: Seq<char>) -> bool
    decreases x.len(),
{
    if x.len() == 0 {
        true
    } else if y.len() == 0 {
        false
    } else if (x[0] as u32) != (y[0] as u32) {
        (x[0] as u32) < (y[0] as u32)
    } else {
        text_le(x.drop_first(), y.drop_first())
    }
}

/// Any two texts are ordered one way or the other.
pub proof fn lemma_text_le_total(x: Seq<char>, y: Seq<char>)
    ensures
        text_le(x, y) || text_le(y, x),
    decreases x.len(),
{
    if x.len() > 0 && y.len() > 0 && x[0] as u32 == y[0] as u32 {
        lemma_text_le_total(x.drop_first(), y.drop_first());
    }
}

/// The text order is transitive.
pub proof fn lemma_text_le_transitive(x: Seq<char>, y: Seq<char>, z: Seq<char>)
    requires
        text_le(x, y),
        text_le(y, z),
    ensures
        text_le(x, z),
    decreases x.len(),
{
    if x.len() > 0 && y.len() > 0 && z.len() > 0 && x[0] as u32 == y[0] as u32 && y[0] as u32 == z[0] as u32 {
        lemma_text_le_transitive(x.drop_first(), y.drop_first(), z.drop_first());
    }
}

/// Whether the text of `x` comes no later than that of `y`.
pub fn text_le_exec(x: &String, y: &String) -> (r: bool)
    ensures
        r == text_le(x@, y@),
{
    let sx = x.as_str();
    let sy = y.as_str();
    let lx = sx.unicode_len();
    let ly = sy.unicode_len();
    let mut i: usize = 0;
    assert(x@.skip(0) =~= x@);
    assert(y@.skip(0) =~= y@);
    while i < lx && i < ly
        invariant
            sx@ == x@,
            sy@ == y@,
            lx == x@.len(),
            ly == y@.len(),
            i <= lx,
            i <= ly,
            text_le(x@, y@) == text_le(x@.skip(i as int), y@.skip(i as int)),
        decreases lx - i,
    {
        let cx = sx.get_char(i);
        let cy = sy.get_char(i);
        if cx as u32 != cy as u32 {
            return (cx as u32) < (cy as u32);
        }
        assert(x@.skip(i as int).drop_first() =~= x@.skip(i + 1));
        assert(y@.skip(i as int).drop_first() =~= y@.skip(i + 1));
        i = i + 1;
    }
    i == lx
}

/// The values of a sequence of records.
pub open spec fn views_of(v: Seq<HostInfo>) -> Seq<HostView> {
    v.map_values(|h: HostInfo| h@)
}

/// Records in ascending text order of their addresses.
pub open spec fn sorted_by_address(s: Seq<HostView>) -> bool {
    forall|i: int, j: int| 0 <= i < j < s.len() ==> text_le(#[trigger] s[i].1, #[trigger] s[j].1)
}

/// Sort records ascending by the text of their address (an insertion sort that
/// places each record after those whose address is not greater).
pub fn sort_by_address(v: Vec<HostInfo>) -> (r: Vec<HostInfo>)
    ensures
        sorted_by_address(views_of(r@)),
        views_of(r@).to_multiset() == views_of(v@).to_multiset(),
        r@.len() == v@.len(),
{
    broadcast use group_to_multiset_ensures, vstd::multiset::group_multiset_axioms;

    let ghost orig = v@;
    let mut rest = v;
    let mut out: Vec<HostInfo> = Vec::new();
    while rest.len() > 0
        invariant
            sorted_by_address(views_of(out@)),
            views_of(out@).to_multiset().add(views_of(rest@).to_multiset()) == views_of(orig).to_multiset(),
        decreases rest.len(),
    {
        let ghost before = rest@;
        let x = rest.remove(0);
        proof {
            assert(views_of(rest@) =~= views_of(before).remove(0));
            to_multiset_remove(views_of(before), 0);
            assert(views_of(before)[0] == x@);
            assert(views_of(before).contains(x@));
            to_multiset_contains(views_of(before), x@);
        }
        let mut j: usize = 0;
        while j < out.len() && text_le_exec(&out[j].hostipv4, &x.hostipv4)
            invariant
                j <= out.len(),
                forall|k: int| 0 <= k < j ==> text_le(#[trigger] out@[k].hostipv4@, x.hostipv4@),
            decreases out.len() - j,
        {
            j = j + 1;
        }
        let ghost old_out = out@;
        proof {
            if j < out.len() {
                lemma_text_le_total(old_out[j as int].hostipv4@, x.hostipv4@);
            }
        }
        out.insert(j, x);
        proof {
            assert(views_of(out@) =~= views_of(old_out).insert(j as int, x@));
            to_multiset_insert(views_of(old_out), j as int, x@);
            assert(views_of(out@).to_multiset().add(views_of(rest@).to_multiset()) =~= views_of(
                old_out,
            ).to_multiset().add(views_of(before).to_multiset()));
            let s = views_of(out@);
            assert forall|a: int, b: int| 0 <= a < b < s.len() implies text_le(#[trigger] s[a].1, #[trigger] s[b].1) by {
                if b == j {
                } else if a == j {
                    if b - 1 > j {
                        assert(views_of(old_out)[j as int].1 == old_out[j as int].hostipv4@);
                        assert(views_of(old_out)[b - 1].1 == old_out[b - 1].hostipv4@);
                        lemma_text_le_transitive(
                            x.hostipv4@,
                            old_out[j as int].hostipv4@,
                            old_out[b - 1].hostipv4@,
                        );
                    }
                }
                else if a < j && b > j {
                    assert(views_of(old_out)[a].1 == old_out[a].hostipv4@);
                } else {
                }
            }
        }
    }
    assert(views_of(rest@) =~= Seq::<HostView>::empty());
    proof {
        to_multiset_len(views_of(out@));
        to_multiset_len(views_of(orig));
    }
    out
}

/// The `address:port` text that a liveness probe connects to.
pub open spec fn probe_target_text(ip: Ipv4Addr, port: u16) -> Seq<char> {
    ipv4_text(ip) + seq![':'] + decimal_text(port as nat)
}

/// The URL of a host's identity endpoint.
pub open spec fn info_url_text(ip: Ipv4Addr, port: u16) -> Seq<char> {
    "http://"@ + probe_target_text(ip, port) + "/hostinfo"@
}

/// The `address:port` text that a liveness probe connects to.
pub fn probe_target(ip: Ipv4Addr, port: u16) -> (r: String)
    ensures
        r@ == probe_target_text(ip, port),
{
    let mut out = ip.to_string();
    proof {
        reveal_strlit(":");
    }
    out.append(":");
    push_decimal(&mut out, port as u64);
    assert(out@ =~= probe_target_text(ip, port));
    out
}

/// The URL of the identity endpoint of the host at `ip`.
pub fn info_url(ip: Ipv4Addr, port: u16) -> (r: String)
    ensures
        r@ == info_url_text(ip, port),
{
    let mut out = String::from_str("http://");
    let target = probe_target(ip, port);
    out.append(target.as_str());
    out.append("/hostinfo");
    assert(out@ =~= info_url_text(ip, port));
    out
}

/// The step a per-address task takes next.
pub enum HostStep {
    /// Connect to the service port.
    Probe,
    /// Ask the host for its identity record.
    Fetch,
    /// The task is over, with the record it found, if any.
    Done(Option<HostInfo>),
}

impl HostStep {
    /// The first step of every per-address task.
    pub fn start() -> (r: HostStep)
        ensures
            r is Probe,
    {
        HostStep::Probe
    }

    /// The step after the liveness probe: a reachable host is asked for its
    /// record, an unreachable one yields nothing.
    pub fn after_probe(reachable: bool) -> (r: HostStep)
        ensures
            reachable ==> r is Fetch,
            !reachable ==> r matches HostStep::Done(None),
    {
        if reachable {
            HostStep::Fetch
        } else {
            HostStep::Done(None)
        }
    }

    /// The step after the info fetch: its result, a record or nothing, is the outcome.
    pub fn after_fetch(fetched: Option<HostInfo>) -> (r: HostStep)
        ensures
            r matches HostStep::Done(o) && o == fetched,
    {
        HostStep::Done(fetched)
    }
}

/// The records among a sequence of per-address outcomes, in order.
pub open spec fn found_of(outcomes: Seq<Option<HostView>>) -> Seq<HostView>
    decreases outcomes.len(),
{
    if outcomes.len() == 0 {
        Seq::empty()
    } else {
        let rest = found_of(outcomes.drop_last());
        match outcomes.last() {
            Some(v) => rest.push(v),
            None => rest,
        }
    }
}

/// A scan with no record among its outcomes finds nothing: an empty result.
pub proof fn lemma_nothing_found(outcomes: Seq<Option<HostView>>)
    requires
        forall|i: int| 0 <= i < outcomes.len() ==> #[trigger] outcomes[i] is None,
    ensures
        found_of(outcomes) == Seq::<HostView>::empty(),
    decreases outcomes.len(),
{
    if outcomes.len() > 0 {
        lemma_nothing_found(outcomes.drop_last());
    }
}

/// The view of a per-address outcome.
pub open spec fn outcome_view(o: Option<HostInfo>) -> Option<HostView> {
    match o {
        Some(h) => Some(h@),
        None => None,
    }
}

/// A subnet scan in progress: addresses are launched in order while fewer than
/// `ceiling` tasks are in flight, and each completed task hands in its outcome.
pub struct Scan {
    addresses: Vec<Ipv4Addr>,
    launched: usize,
    in_flight: usize,
    ceiling: usize,
    found: Vec<HostInfo>,
    outcomes: Ghost<Seq<Option<HostView>>>,
}

impl Scan {
    /// The addresses to scan.
    pub closed spec fn addresses_view(&self) -> Seq<Ipv4Addr> {
        self.addresses@
    }

    /// How many addresses have been launched.
    pub closed spec fn launched_view(&self) -> nat {
        self.launched as nat
    }

    /// How many launched tasks have not completed.
    pub closed spec fn in_flight_view(&self) -> nat {
        self.in_flight as nat
    }

    /// The most tasks that may be in flight at once.
    pub closed spec fn ceiling_view(&self) -> nat {
        self.ceiling as nat
    }

    /// The outcomes handed in so far, in order of completion.
    pub closed spec fn outcomes_view(&self) -> Seq<Option<HostView>> {
        self.outcomes@
    }

    /// The state is consistent: never more in flight than the ceiling, every
    /// launched task either in flight or completed, and the records kept are
    /// exactly those among the outcomes.
    pub closed spec fn wf(&self) -> bool {
        &&& 0 < self.ceiling
        &&& self.launched <= self.addresses@.len()
        &&& self.in_flight <= self.ceiling
        &&& self.outcomes@.len() + self.in_flight == self.launched
        &&& views_of(self.found@) == found_of(self.outcomes@)
    }

    /// A scan of `addresses` with at most `ceiling` tasks in flight.
    pub fn new(addresses: Vec<Ipv4Addr>, ceiling: usize) -> (r: Scan)
        requires
            ceiling > 0,
        ensures
            r.wf(),
            r.addresses_view() == addresses@,
            r.ceiling_view() == ceiling,
            r.launched_view() == 0,
            r.in_flight_view() == 0,
            r.outcomes_view() == Seq::<Option<HostView>>::empty(),
    {
        let r = Scan {
            addresses,
            launched: 0,
            in_flight: 0,
            ceiling,
            found: Vec::new(),
            outcomes: Ghost(Seq::empty()),
        };
        assert(views_of(r.found@) =~= found_of(r.outcomes@));
        r
    }

    /// How many tasks are in flight.
    pub fn in_flight(&self) -> (r: usize)
        ensures
            r == self.in_flight_view(),
    {
        self.in_flight
    }

    /// The ceiling on tasks in flight.
    pub fn ceiling(&self) -> (r: usize)
        ensures
            r == self.ceiling_view(),
    {
        self.ceiling
    }

    /// Launch the next address if one is left and capacity allows; `None` otherwise.
    pub fn start_next(&mut self) -> (r: Option<Ipv4Addr>)
        requires
            old(self).wf(),
        ensures
            final(self).wf(),
            final(self).addresses_view() == old(self).addresses_view(),
            final(self).ceiling_view() == old(self).ceiling_view(),
            final(self).outcomes_view() == old(self).outcomes_view(),
            ({
                let can = old(self).launched_view() < old(self).addresses_view().len()
                    && old(self).in_flight_view() < old(self).ceiling_view();
                if can {
                    &&& r == Some(old(self).addresses_view()[old(self).launched_view() as int])
                    &&& final(self).launched_view() == old(self).launched_view() + 1
                    &&& final(self).in_flight_view() == old(self).in_flight_view() + 1
                } else {
                    &&& r is None
                    &&& final(self).launched_view() == old(self).launched_view()
                    &&& final(self).in_flight_view() == old(self).in_flight_view()
                }
            }),
    {
        if self.launched < self.addresses.len() && self.in_flight < self.ceiling {
            let ip = self.addresses[self.launched];
            self.launched = self.launched + 1;
            self.in_flight = self.in_flight + 1;
            Some(ip)
        } else {
            None
        }
    }

    /// Hand in the outcome of one task that was in flight.
    pub fn complete(&mut self, outcome: Option<HostInfo>)
        requires
            old(self).wf(),
            old(self).in_flight_view() > 0,
        ensures
            final(self).wf(),
            final(self).addresses_view() == old(self).addresses_view(),
            final(self).ceiling_view() == old(self).ceiling_view(),
            final(self).launched_view() == old(self).launched_view(),
            final(self).in_flight_view() == old(self).in_flight_view() - 1,
            final(self).outcomes_view() == old(self).outcomes_view().push(outcome_view(outcome)),
    {
        let ghost prev = self.outcomes@;
        let ghost ov = outcome_view(outcome);
        self.in_flight = self.in_flight - 1;
        self.outcomes = Ghost(prev.push(ov));
        assert(self.outcomes@.drop_last() =~= prev);
        match outcome {
            Some(h) => {
                let ghost before = self.found@;
                self.found.push(h);
                assert(views_of(self.found@) =~= views_of(before).push(h@));
            },
            None => {},
        }
    }

    /// Whether every address has been launched and every task has completed.
    pub fn is_finished(&self) -> (r: bool)
        ensures
            r == (self.launched_view() == self.addresses_view().len() && self.in_flight_view() == 0),
    {
        self.launched == self.addresses.len() && self.in_flight == 0
    }

    /// The records found, sorted ascending by address text.
    pub fn finish(self) -> (r: Vec<HostInfo>)
        requires
            self.wf(),
        ensures
            sorted_by_address(views_of(r@)),
            views_of(r@).to_multiset() == found_of(self.outcomes_view()).to_multiset(),
            r@.len() == found_of(self.outcomes_view()).len(),
    {
        sort_by_address(self.found)
    }
}

/// However a scan proceeds, it never has more tasks in flight than its ceiling.
pub proof fn lemma_ceiling_respected(s: Scan)
    requires
        s.wf(),
    ensures
        s.in_flight_view() <= s.ceiling_view(),
{
}

} // verus!
