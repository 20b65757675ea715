//! Causal chain tracing for IPC messages.
//!
//! Every IPC message carries a message id, an optional parent id and a
//! correlation id. The tracer records these links and rebuilds the chain of
//! any correlation id, in timestamp order.

use vstd::prelude::*;
use crate::strmap::{StrMap, map_of};
use crate::text::{decimal, zero_pad, push_padded_decimal, lemma_decimal_nonempty, lemma_decimal_leading_zero,
    lemma_decimal_injective};

verus! {

/// A link in a causal chain. Its timestamp is held as an order key: an
/// integer that orders links as their millisecond timestamps do.
#[derive(Debug)]
pub struct CausalLink {
    pub message_id: String,
    pub parent_id: Option<String>,
    pub correlation_id: String,
    pub hop: String,
    pub timestamp_key: u64,
}

/// The order key of a link.
pub open spec fn link_key(l: &CausalLink) -> u64 {
    l.timestamp_key
}

/// Keys never decrease along `s`.
pub open spec fn sorted_by_key(s: Seq<&CausalLink>) -> bool {
    forall|i: int, j: int| 0 <= i < j < s.len() ==> link_key(#[trigger] s[i]) <= link_key(#[trigger] s[j])
}

/// `x` placed after every element of the sorted `s` whose key does not
/// exceed its own, and before the rest.
pub open spec fn insert_stable<'a>(s: Seq<&'a CausalLink>, x: &'a CausalLink) -> Seq<&'a CausalLink>
    decreases s.len(),
{
    if s.len() == 0 {
        seq![x]
    } else if link_key(s.last()) <= link_key(x) {
        s.push(x)
    } else {
        insert_stable(s.drop_last(), x).push(s.last())
    }
}

/// The stable sort of `s` by key: links with equal keys keep their order.
pub open spec fn stable_sort<'a>(s: Seq<&'a CausalLink>) -> Seq<&'a CausalLink>
    decreases s.len(),
{
    if s.len() == 0 {
        s
    } else {
        insert_stable(stable_sort(s.drop_last()), s.last())
    }
}

/// References to the elements of `s`, in order.
pub open spec fn refs_of<'a>(s: Seq<CausalLink>) -> Seq<&'a CausalLink> {
    Seq::new(s.len(), |i: int| &s[i])
}

/// Inserting at the first position whose key exceeds that of `x` is the
/// stable insertion.
proof fn lemma_insert_stable_at<'a>(s: Seq<&'a CausalLink>, x: &'a CausalLink, p: int)
    requires
        0 <= p <= s.len(),
        forall|q: int| 0 <= q < p ==> link_key(#[trigger] s[q]) <= link_key(x),
        forall|q: int| p <= q < s.len() ==> link_key(x) < link_key(#[trigger] s[q]),
    ensures
        insert_stable(s, x) == s.insert(p, x),
    decreases s.len(),
{
    if s.len() == 0 {
        assert(s.insert(p, x) =~= seq![x]);
    } else if p == s.len() {
        assert(s.insert(p, x) =~= s.push(x));
    } else {
        let t = s.drop_last();
        assert(link_key(x) < link_key(s[s.len() - 1]));
        lemma_insert_stable_at(t, x, p);
        assert(t.insert(p, x).push(s.last()) =~= s.insert(p, x));
    }
}


/// The message id made from counter value `n`: `msg-` and the decimal
/// digits of `n`, zero-padded to six.
pub open spec fn message_id_text(n: nat) -> Seq<char> {
    seq!['m', 's', 'g', '-'] + zero_pad(decimal(n), 6)
}

/// The view of an optional string slice.
pub open spec fn opt_str_view(o: Option<&str>) -> Option<Seq<char>> {
    match o {
        Some(s) => Some(s@),
        None => None,
    }
}

/// `l` holds the given message id, parent id, correlation id, hop and key.
pub open spec fn link_holds(
    l: CausalLink,
    message_id: Seq<char>,
    parent_id: Option<Seq<char>>,
    correlation_id: Seq<char>,
    hop: Seq<char>,
    timestamp_key: u64,
) -> bool {
    &&& l.message_id@ == message_id
    &&& match l.parent_id {
        Some(p) => parent_id == Some(p@),
        None => parent_id is None,
    }
    &&& l.correlation_id@ == correlation_id
    &&& l.hop@ == hop
    &&& l.timestamp_key == timestamp_key
}

/// Sum of the chain lengths of a finite map of chains.
pub open spec fn total_length(m: Map<Seq<char>, Seq<CausalLink>>) -> nat
    decreases m.dom().len(),
    when m.dom().finite()
{
    if m.dom().len() == 0 {
        0
    } else {
        let k = m.dom().choose();
        m[k].len() + total_length(m.remove(k))
    }
}

/// The total can be split at any chain.
pub proof fn lemma_total_length_remove(m: Map<Seq<char>, Seq<CausalLink>>, k: Seq<char>)
    requires
        m.dom().finite(),
        m.contains_key(k),
    ensures
        total_length(m) == m[k].len() + total_length(m.remove(k)),
    decreases m.dom().len(),
{
    let c = m.dom().choose();
    if c != k {
        lemma_total_length_remove(m.remove(c), k);
        lemma_total_length_remove(m.remove(k), c);
        assert(m.remove(c).remove(k) =~= m.remove(k).remove(c));
    }
}

/// Records causal links and rebuilds causation chains.
pub struct CausalTracer {
    chains: StrMap<Vec<CausalLink>>,
    message_index: StrMap<String>,
    id_counter: u64,
}

impl CausalTracer {
    /// Each correlation id to its links, in the order they were recorded.
    pub closed spec fn chains_spec(&self) -> Map<Seq<char>, Seq<CausalLink>> {
        self.chains@.map_values(|v: Vec<CausalLink>| v@)
    }

    /// Each recorded message id to its correlation id.
    pub closed spec fn index_spec(&self) -> Map<Seq<char>, Seq<char>> {
        self.message_index@.map_values(|s: String| s@)
    }

    /// The running message id counter.
    pub closed spec fn counter_spec(&self) -> u64 {
        self.id_counter
    }

    /// The internal maps are well formed.
    pub closed spec fn wf(&self) -> bool {
        self.chains.wf() && self.message_index.wf()
    }

    /// The links recorded under `correlation_id`, empty if none.
    pub open spec fn chain_spec(&self, correlation_id: Seq<char>) -> Seq<CausalLink> {
        if self.chains_spec().contains_key(correlation_id) {
            self.chains_spec()[correlation_id]
        } else {
            Seq::empty()
        }
    }

    /// A tracer with nothing recorded.
    pub fn new() -> (t: Self)
        ensures
            t.wf(),
            t.chains_spec() == Map::<Seq<char>, Seq<CausalLink>>::empty(),
            t.index_spec() == Map::<Seq<char>, Seq<char>>::empty(),
            t.counter_spec() == 0,
    {
        let t = CausalTracer { chains: StrMap::new(), message_index: StrMap::new(), id_counter: 0 };
        proof {
            assert(t.chains_spec() =~= Map::<Seq<char>, Seq<CausalLink>>::empty());
            assert(t.index_spec() =~= Map::<Seq<char>, Seq<char>>::empty());
        }
        t
    }

    /// A fresh message id: the counter goes up by one and the id is made
    /// from its new value.
    pub fn next_message_id(&mut self) -> (id: String)
        requires
            old(self).counter_spec() < u64::MAX,
        ensures
            final(self).counter_spec() == old(self).counter_spec() + 1,
            id@ == message_id_text(final(self).counter_spec() as nat),
            final(self).chains_spec() == old(self).chains_spec(),
            final(self).index_spec() == old(self).index_spec(),
            final(self).wf() == old(self).wf(),
    {
        self.id_counter = self.id_counter + 1;
        message_id_string(self.id_counter)
    }

    /// Records a link: it joins the end of its correlation chain, and its
    /// message id now points to that correlation id.
    pub fn record(
        &mut self,
        message_id: &str,
        parent_id: Option<&str>,
        correlation_id: &str,
        hop: &str,
        timestamp_key: u64,
    )
        requires
            old(self).wf(),
        ensures
            final(self).wf(),
            final(self).chains_spec().dom() == old(self).chains_spec().dom().insert(correlation_id@),
            forall|k: Seq<char>| k != correlation_id@ && #[trigger] old(self).chains_spec().contains_key(k)
                ==> final(self).chains_spec()[k] == old(self).chains_spec()[k],
            final(self).chain_spec(correlation_id@).len() == old(self).chain_spec(correlation_id@).len() + 1,
            final(self).chain_spec(correlation_id@).drop_last() == old(self).chain_spec(correlation_id@),
            link_holds(final(self).chain_spec(correlation_id@).last(), message_id@, opt_str_view(parent_id),
                correlation_id@, hop@, timestamp_key),
            final(self).index_spec() == old(self).index_spec().insert(message_id@, correlation_id@),
            final(self).counter_spec() == old(self).counter_spec(),
    {
        let link = CausalLink {
            message_id: String::from_str(message_id),
            parent_id: match parent_id {
                Some(p) => Some(String::from_str(p)),
                None => None,
            },
            correlation_id: String::from_str(correlation_id),
            hop: String::from_str(hop),
            timestamp_key,
        };
        let ghost old_chains = self.chains@;
        let mut chain = match self.chains.remove(correlation_id) {
            Some(v) => v,
            None => Vec::new(),
        };
        let ghost before = chain@;
        chain.push(link);
        let ghost pushed = chain;
        let added = self.chains.insert_new(String::from_str(correlation_id), chain);
        proof {
            assert(added);
            assert(self.chains@ == old_chains.insert(correlation_id@, pushed));
            assert(self.chains_spec() =~= old(self).chains_spec().insert(correlation_id@, pushed@));
            assert(before == old(self).chain_spec(correlation_id@));
            assert(pushed@.drop_last() =~= before);
        }
        let ghost old_index = self.message_index@;
        let _ = self.message_index.remove(message_id);
        let added2 = self.message_index.insert_new(String::from_str(message_id), String::from_str(correlation_id));
        proof {
            assert(added2);
            assert(self.index_spec() =~= old(self).index_spec().insert(message_id@, correlation_id@));
        }
    }

    /// The chain of `correlation_id` in timestamp order; links with equal
    /// timestamps keep the order they were recorded in. Empty for an
    /// unknown id.
    pub fn query_chain(&self, correlation_id: &str) -> (r: Vec<&CausalLink>)
        requires
            self.wf(),
        ensures
            r@ == stable_sort(refs_of(self.chain_spec(correlation_id@))),
            sorted_by_key(r@),
            r@.to_multiset() == refs_of(self.chain_spec(correlation_id@)).to_multiset(),
    {
        match self.chains.get(correlation_id) {
            Some(links) => {
                proof {
                    assert(links@ == self.chain_spec(correlation_id@));
                }
                sort_refs(links)
            },
            None => {
                let r: Vec<&CausalLink> = Vec::new();
                proof {
                    assert(refs_of(self.chain_spec(correlation_id@)) =~= Seq::<&CausalLink>::empty());
                    assert(r@ =~= Seq::<&CausalLink>::empty());
                }
                r
            },
        }
    }

    /// Number of links under `correlation_id`.
    pub fn chain_depth(&self, correlation_id: &str) -> (n: usize)
        requires
            self.wf(),
        ensures
            n == self.chain_spec(correlation_id@).len(),
    {
        match self.chains.get(correlation_id) {
            Some(links) => links.len(),
            None => 0,
        }
    }

    /// The correlation id that `message_id` was recorded under.
    pub fn correlation_for_message(&self, message_id: &str) -> (r: Option<&str>)
        requires
            self.wf(),
        ensures
            opt_str_view(r) == (if self.index_spec().contains_key(message_id@) {
                Some(self.index_spec()[message_id@])
            } else {
                None::<Seq<char>>
            }),
    {
        match self.message_index.get(message_id) {
            Some(c) => Some(c.as_str()),
            None => None,
        }
    }

    /// Number of correlation chains.
    pub fn chain_count(&self) -> (n: usize)
        requires
            self.wf(),
        ensures
            self.chains_spec().dom().finite(),
            n == self.chains_spec().dom().len(),
    {
        proof {
            assert(self.chains_spec().dom() =~= self.chains@.dom());
        }
        self.chains.len()
    }

    /// Number of links over all chains.
    pub fn total_links(&self) -> (n: usize)
        requires
            self.wf(),
            total_length(self.chains_spec()) <= usize::MAX,
        ensures
            self.chains_spec().dom().finite(),
            n == total_length(self.chains_spec()),
    {
        let ghost entries = self.chains.entries_spec();
        let count = self.chains.len();
        proof {
            assert(self.chains_spec().dom() =~= self.chains@.dom());
        }
        let mut total: usize = 0;
        let mut i: usize = 0;
        proof {
            crate::strmap::lemma_map_of_len(entries);
            assert(map_of(entries.take(0)).map_values(|v: Vec<CausalLink>| v@).dom() =~= Set::<Seq<char>>::empty());
            lemma_total_prefix_bound(entries, 0);
        }
        while i < count
            invariant
                count == entries.len(),
                entries == self.chains.entries_spec(),
                crate::strmap::sorted_keys(entries),
                i <= count,
                self.chains_spec() == map_of(entries).map_values(|v: Vec<CausalLink>| v@),
                map_of(entries).dom().finite(),
                total_length(self.chains_spec()) <= usize::MAX,
                total == total_length(map_of(entries.take(i as int)).map_values(|v: Vec<CausalLink>| v@)),
                total_length(map_of(entries.take(i as int)).map_values(|v: Vec<CausalLink>| v@))
                    <= total_length(self.chains_spec()),
            decreases count - i,
        {
            let entry = self.chains.entry(i);
            proof {
                lemma_total_step(entries, i as int);
                if i + 1 < count {
                    lemma_total_prefix_bound(entries, (i + 1) as int);
                } else {
                    assert(entries.take(i + 1) =~= entries);
                }
            }
            total = total + entry.1.len();
            i = i + 1;
        }
        proof {
            assert(entries.take(count as int) =~= entries);
        }
        total
    }
}

impl Default for CausalTracer {
    fn default() -> (t: Self)
        ensures
            t.wf(),
            t.chains_spec() == Map::<Seq<char>, Seq<CausalLink>>::empty(),
            t.index_spec() == Map::<Seq<char>, Seq<char>>::empty(),
            t.counter_spec() == 0,
    {
        Self::new()
    }
}

/// The chain total of a prefix of sorted entries grows by the next chain.
proof fn lemma_total_step(entries: Seq<(String, Vec<CausalLink>)>, i: int)
    requires
        crate::strmap::sorted_keys(entries),
        0 <= i < entries.len(),
    ensures
        map_of(entries.take(i)).dom().finite(),
        map_of(entries.take(i + 1)).dom().finite(),
        total_length(map_of(entries.take(i + 1)).map_values(|v: Vec<CausalLink>| v@))
            == total_length(map_of(entries.take(i)).map_values(|v: Vec<CausalLink>| v@)) + entries[i].1@.len(),
{
    let before = map_of(entries.take(i));
    let after = map_of(entries.take(i + 1));
    let key = entries[i].0@;
    assert(crate::strmap::sorted_keys(entries.take(i)));
    assert(crate::strmap::sorted_keys(entries.take(i + 1)));
    crate::strmap::lemma_map_of_len(entries.take(i));
    crate::strmap::lemma_map_of_len(entries.take(i + 1));
    crate::strmap::lemma_map_of_prefix(entries, i);
    let mb = before.map_values(|v: Vec<CausalLink>| v@);
    let ma = after.map_values(|v: Vec<CausalLink>| v@);
    assert(ma.dom() =~= after.dom());
    assert(ma.remove(key) =~= mb);
    lemma_total_length_remove(ma, key);
}

/// A prefix's chain total is at most the whole total.
proof fn lemma_total_prefix_bound(entries: Seq<(String, Vec<CausalLink>)>, i: int)
    requires
        crate::strmap::sorted_keys(entries),
        0 <= i <= entries.len(),
    ensures
        total_length(map_of(entries.take(i)).map_values(|v: Vec<CausalLink>| v@))
            <= total_length(map_of(entries).map_values(|v: Vec<CausalLink>| v@)),
    decreases entries.len() - i,
{
    if i < entries.len() {
        lemma_total_step(entries, i);
        lemma_total_prefix_bound(entries, i + 1);
    } else {
        assert(entries.take(i) =~= entries);
    }
}

/// Distinct counter values give distinct message ids, so each id that
/// `next_message_id` hands out differs from every earlier one.
pub proof fn law_message_ids_unique(a: nat, b: nat)
    requires
        a != b,
    ensures
        message_id_text(a) != message_id_text(b),
{
    if message_id_text(a) == message_id_text(b) {
        let pa = zero_pad(decimal(a), 6);
        let pb = zero_pad(decimal(b), 6);
        assert(pa =~= message_id_text(a).subrange(4, message_id_text(a).len() as int));
        assert(pb =~= message_id_text(b).subrange(4, message_id_text(b).len() as int));
        lemma_zero_pad_injective(a, b);
    }
}

/// Zero-padded renderings of distinct numbers differ.
proof fn lemma_zero_pad_injective(a: nat, b: nat)
    requires
        zero_pad(decimal(a), 6) == zero_pad(decimal(b), 6),
    ensures
        a == b,
{
    let da = decimal(a);
    let db = decimal(b);
    let pa = zero_pad(da, 6);
    let pb = zero_pad(db, 6);
    lemma_decimal_nonempty(a);
    lemma_decimal_nonempty(b);
    if da.len() >= 6 && db.len() >= 6 {
        lemma_decimal_injective(a, b);
    } else if da.len() < 6 && db.len() >= 6 {
        assert(pa[0] == '0');
        assert(db[0] == '0');
        lemma_decimal_leading_zero(b);
    } else if da.len() >= 6 && db.len() < 6 {
        assert(pb[0] == '0');
        assert(da[0] == '0');
        lemma_decimal_leading_zero(a);
    } else if da.len() == db.len() {
        let z = 6 - da.len();
        assert(da =~= pa.subrange(z, 6));
        assert(db =~= pb.subrange(z, 6));
        lemma_decimal_injective(a, b);
    } else if da.len() < db.len() {
        let z = 6 - db.len();
        assert(pb[z] == db[0]);
        assert(pa[z] == '0');
        lemma_decimal_leading_zero(b);
    } else {
        let z = 6 - da.len();
        assert(pa[z] == da[0]);
        assert(pb[z] == '0');
        lemma_decimal_leading_zero(a);
    }
}

/// Recording a link adds exactly one link to the total, whichever chain it
/// joins.
pub proof fn law_record_adds_one_link(
    before: Map<Seq<char>, Seq<CausalLink>>,
    after: Map<Seq<char>, Seq<CausalLink>>,
    correlation_id: Seq<char>,
    link: CausalLink,
)
    requires
        before.dom().finite(),
        after == before.insert(correlation_id, (if before.contains_key(correlation_id) {
            before[correlation_id]
        } else {
            Seq::<CausalLink>::empty()
        }).push(link)),
    ensures
        after.dom().finite(),
        total_length(after) == total_length(before) + 1,
{
    lemma_total_length_remove(after, correlation_id);
    if before.contains_key(correlation_id) {
        lemma_total_length_remove(before, correlation_id);
        assert(after.remove(correlation_id) =~= before.remove(correlation_id));
    } else {
        assert(after.remove(correlation_id) =~= before);
    }
}

/// After `record`, `correlation_for_message` of the recorded message id
/// gives its correlation id, and of any other id what it gave before.
/// `found` is what the later lookup of `m` returned, as a view; the
/// requirements are the two contracts.
pub proof fn law_record_then_reverse_lookup(
    before: CausalTracer,
    after: CausalTracer,
    message_id: Seq<char>,
    correlation_id: Seq<char>,
    m: Seq<char>,
    found: Option<Seq<char>>,
)
    requires
        after.index_spec() == before.index_spec().insert(message_id, correlation_id),
        found == (if after.index_spec().contains_key(m) { Some(after.index_spec()[m]) } else { None::<Seq<char>> }),
    ensures
        m == message_id ==> found == Some(correlation_id),
        m != message_id ==> found == (if before.index_spec().contains_key(m) {
            Some(before.index_spec()[m])
        } else {
            None::<Seq<char>>
        }),
{
}

/// The message id text of counter value `n`.
fn message_id_string(n: u64) -> (s: String)
    ensures
        s@ == message_id_text(n as nat),
{
    let mut s = String::from_str("msg-");
    proof {
        reveal_strlit("msg-");
    }
    push_padded_decimal(&mut s, n, 6);
    s
}

/// The links of `links`, sorted stably by key.
fn sort_refs<'a>(links: &'a Vec<CausalLink>) -> (out: Vec<&'a CausalLink>)
    ensures
        out@ == stable_sort(refs_of(links@)),
        sorted_by_key(out@),
        out@.to_multiset() == refs_of(links@).to_multiset(),
{
    let ghost all = refs_of(links@);
    let mut out: Vec<&CausalLink> = Vec::new();
    let n = links.len();
    let mut k: usize = 0;
    proof {
        assert(all.take(0) =~= Seq::<&CausalLink>::empty());
        assert(out@ =~= stable_sort(all.take(0)));
    }
    while k < n
        invariant
            n == links@.len(),
            all == refs_of(links@),
            k <= n,
            out@ == stable_sort(all.take(k as int)),
            sorted_by_key(out@),
            out@.to_multiset() == all.take(k as int).to_multiset(),
        decreases n - k,
    {
        let e: &CausalLink = &links[k];
        let mut p: usize = 0;
        while p < out.len()
            invariant
                p <= out@.len(),
                forall|q: int| 0 <= q < p ==> link_key(#[trigger] out@[q]) <= link_key(e),
            ensures
                p <= out@.len(),
                forall|q: int| 0 <= q < p ==> link_key(#[trigger] out@[q]) <= link_key(e),
                p < out@.len() ==> link_key(e) < link_key(out@[p as int]),
            decreases out@.len() - p,
        {
            if e.timestamp_key < out[p].timestamp_key {
                break;
            }
            p = p + 1;
        }
        let ghost before = out@;
        proof {
            assert forall|q: int| p <= q < before.len() implies link_key(e) < link_key(#[trigger] before[q]) by {
                assert(link_key(before[p as int]) <= link_key(before[q]));
            }
            lemma_insert_stable_at(before, e, p as int);
            assert(all.take(k + 1).drop_last() =~= all.take(k as int));
            assert(all.take(k + 1).last() == e);
        }
        out.insert(p, e);
        proof {
            assert(out@ == before.insert(p as int, e));
            assert forall|i: int, j: int| 0 <= i < j < out@.len() implies link_key(#[trigger] out@[i]) <= link_key(#[trigger] out@[j]) by {
                if j < p {
                    assert(out@[i] == before[i] && out@[j] == before[j]);
                } else if j == p {
                    assert(out@[i] == before[i]);
                } else if i < p {
                    assert(out@[i] == before[i] && out@[j] == before[j - 1]);
                } else if i == p {
                    assert(out@[j] == before[j - 1]);
                    assert(link_key(before[p as int]) <= link_key(before[j - 1]));
                } else {
                    assert(out@[i] == before[i - 1] && out@[j] == before[j - 1]);
                }
            }
            vstd::seq_lib::to_multiset_insert(before, p as int, e);
            vstd::seq_lib::to_multiset_build(all.take(k as int), e);
            assert(all.take(k + 1) =~= all.take(k as int).push(e));
        }
        k = k + 1;
    }
    proof {
        assert(all.take(n as int) =~= all);
    }
    out
}

} // verus!
