//! State of one Lark long connection: messages that arrive in fragments, and
//! the timing that the server asks for.
use vstd::prelude::*;
use vstd::utf8::*;

use super::wire::put_bytes;
use crate::text_map::TextMap;

verus! {

/// The fragments of one message that have arrived so far.
#[derive(Debug)]
pub struct FragmentEntry {
    pub sum: usize,
    pub fragments: Vec<Option<Vec<u8>>>,
    pub created_at: u64,
}

/// Messages of which some fragments have arrived and some have not.
#[derive(Debug)]
pub struct FragmentCache {
    entries: TextMap<FragmentEntry>,
}

/// What an entry holds: its fragments by place, and when the first arrived.
#[verifier::ext_equal]
pub struct EntryView {
    pub fragments: Seq<Option<Seq<u8>>>,
    pub created_at: u64,
}

/// The bytes of a fragment, where it has arrived.
pub open spec fn fragment_view(f: Option<Vec<u8>>) -> Option<Seq<u8>> {
    match f {
        Some(bytes) => Some(bytes@),
        None => None,
    }
}

impl View for FragmentEntry {
    type V = EntryView;

    open spec fn view(&self) -> EntryView {
        EntryView {
            fragments: self.fragments@.map_values(|f: Option<Vec<u8>>| fragment_view(f)),
            created_at: self.created_at,
        }
    }
}

/// The entry of a message of `sum` fragments of which none has arrived.
pub open spec fn fresh_entry(sum: nat, now_ms: u64) -> EntryView {
    EntryView { fragments: Seq::new(sum, |i: int| None::<Seq<u8>>), created_at: now_ms }
}

/// The entry `e` with fragment `seq` put in; unchanged where there is no such
/// place.
pub open spec fn with_fragment(e: EntryView, seq: nat, data: Seq<u8>) -> EntryView {
    if seq < e.fragments.len() {
        EntryView { fragments: e.fragments.update(seq as int, Some(data)), ..e }
    } else {
        e
    }
}

/// Whether all fragments have arrived.
pub open spec fn complete(fragments: Seq<Option<Seq<u8>>>) -> bool {
    forall|i: int| 0 <= i < fragments.len() ==> (#[trigger] fragments[i]) is Some
}

/// The fragments one behind the other, in the order of their places.
pub open spec fn merged(fragments: Seq<Option<Seq<u8>>>) -> Seq<u8>
    decreases fragments.len(),
{
    if fragments.len() == 0 {
        Seq::empty()
    } else {
        merged(fragments.drop_last()) + (match fragments.last() {
            Some(bytes) => bytes,
            None => Seq::empty(),
        })
    }
}

/// The entry of `id`, or a fresh one where there is none.
pub open spec fn entry_of(m: Map<Seq<char>, EntryView>, id: Seq<char>, sum: nat, now_ms: u64) -> EntryView {
    if m.dom().contains(id) {
        m[id]
    } else {
        fresh_entry(sum, now_ms)
    }
}

/// The cache and the result after fragment `seq` of message `id` has arrived.
pub open spec fn pushed(
    m: Map<Seq<char>, EntryView>,
    id: Seq<char>,
    sum: nat,
    seq: nat,
    data: Seq<u8>,
    now_ms: u64,
) -> (Map<Seq<char>, EntryView>, Option<Seq<u8>>) {
    let e = with_fragment(entry_of(m, id, sum, now_ms), seq, data);
    if complete(e.fragments) {
        (m.remove(id), Some(merged(e.fragments)))
    } else {
        (m.insert(id, e), None)
    }
}

/// How long ago `created_at` was; zero where it lies ahead.
pub open spec fn elapsed_ms(created_at: u64, now_ms: u64) -> nat {
    if now_ms >= created_at {
        (now_ms - created_at) as nat
    } else {
        0
    }
}

/// The cache without the entries that are `ttl_ms` old or older.
pub open spec fn cleaned(m: Map<Seq<char>, EntryView>, ttl_ms: u64, now_ms: u64) -> Map<Seq<char>, EntryView> {
    Map::new(
        |id: Seq<char>| m.dom().contains(id) && elapsed_ms(m[id].created_at, now_ms) < ttl_ms,
        |id: Seq<char>| m[id],
    )
}

fn merge_fragments(fragments: &Vec<Option<Vec<u8>>>) -> (r: Option<Vec<u8>>)
    ensures
        ({
            let views = fragments@.map_values(|f: Option<Vec<u8>>| fragment_view(f));
            match r {
                Some(bytes) => complete(views) && bytes@ == merged(views),
                None => !complete(views),
            }
        }),
{
    let ghost views = fragments@.map_values(|f: Option<Vec<u8>>| fragment_view(f));
    let mut out: Vec<u8> = Vec::new();
    let mut i: usize = 0;
    while i < fragments.len()
        invariant
            i <= fragments.len(),
            views == fragments@.map_values(|f: Option<Vec<u8>>| fragment_view(f)),
            out@ == merged(views.take(i as int)),
            forall|k: int| 0 <= k < i ==> (#[trigger] views[k]) is Some,
        decreases fragments.len() - i,
    {
        assert(views[i as int] == fragment_view(fragments@[i as int]));
        match &fragments[i] {
            None => {
                return None;
            },
            Some(bytes) => {
                put_bytes(bytes.as_slice(), &mut out);
            },
        }
        i += 1;
        assert(views.take(i as int).drop_last() =~= views.take(i - 1));
        assert(views.take(i as int).last() == views[i - 1]);
    }
    assert(views.take(views.len() as int) =~= views);
    Some(out)
}

fn fresh_fragments(sum: usize) -> (r: Vec<Option<Vec<u8>>>)
    ensures
        r@.len() == sum,
        forall|i: int| 0 <= i < sum ==> (#[trigger] r@[i]) is None,
{
    let mut out: Vec<Option<Vec<u8>>> = Vec::new();
    let mut i: usize = 0;
    while i < sum
        invariant
            i <= sum,
            out@.len() == i,
            forall|k: int| 0 <= k < i ==> (#[trigger] out@[k]) is None,
        decreases sum - i,
    {
        out.push(None);
        i += 1;
    }
    out
}

impl FragmentCache {
    #[verifier::type_invariant]
    spec fn wf(&self) -> bool {
        forall|id: Seq<char>| #[trigger]
            self.entries@.dom().contains(id) ==> self.entries@[id].sum == self.entries@[id].fragments@.len()
    }

    /// The cache without messages.
    pub fn new() -> (r: Self)
        ensures
            r@ == Map::<Seq<char>, EntryView>::empty(),
    {
        let r = FragmentCache { entries: TextMap::new() };
        assert(r@ =~= Map::<Seq<char>, EntryView>::empty());
        r
    }

    /// Whether fragments of this message are waiting for others.
    pub fn contains(&self, message_id: &str) -> (r: bool)
        ensures
            r == self@.dom().contains(message_id@),
    {
        self.entries.contains_key(message_id)
    }

    /// Takes in fragment `seq` of the message `message_id`, which has `sum`
    /// fragments; gives the whole message back once the last has arrived. The
    /// first fragment to arrive fixes how many there are.
    pub fn push(&mut self, message_id: &str, sum: usize, seq: usize, data: &[u8], now_ms: u64) -> (r: Option<Vec<u8>>)
        ensures
            ({
                let (m, out) = pushed(old(self)@, message_id@, sum as nat, seq as nat, data@, now_ms);
                final(self)@ == m && fragment_view(r) == out
            }),
    {
        proof {
            use_type_invariant(&*self);
        }
        let mut entries: TextMap<FragmentEntry> = TextMap::new();
        std::mem::swap(&mut entries, &mut self.entries);
        let ghost m = entries@;
        let mut entry = match entries.remove(message_id) {
            Some(e) => e,
            None => FragmentEntry { sum, fragments: fresh_fragments(sum), created_at: now_ms },
        };
        let ghost before = entry@;
        assert(before =~= entry_of(old(self)@, message_id@, sum as nat, now_ms));
        if seq < entry.sum {
            let mut bytes: Vec<u8> = Vec::new();
            put_bytes(data, &mut bytes);
            assert(bytes@ =~= data@);
            entry.fragments[seq] = Some(bytes);
            assert(entry@.fragments =~= before.fragments.update(seq as int, Some(data@)));
        }
        assert(entry@ =~= with_fragment(before, seq as nat, data@));
        let r = merge_fragments(&entry.fragments);
        if r.is_none() {
            entries.insert(message_id, entry);
        }
        self.entries = entries;
        proof {
            let (m2, out) = pushed(old(self)@, message_id@, sum as nat, seq as nat, data@, now_ms);
            assert(self@ =~= m2);
        }
        r
    }

    /// Drops the messages whose first fragment came `ttl_ms` ago or earlier.
    pub fn cleanup(&mut self, ttl_ms: u64, now_ms: u64)
        ensures
            final(self)@ == cleaned(old(self)@, ttl_ms, now_ms),
    {
        proof {
            use_type_invariant(&*self);
        }
        let mut entries: TextMap<FragmentEntry> = TextMap::new();
        std::mem::swap(&mut entries, &mut self.entries);
        let keep = |e: &FragmentEntry| -> (k: bool)
            ensures
                k == (elapsed_ms(e.created_at, now_ms) < ttl_ms),
        {
            let age: u64 = if now_ms >= e.created_at {
                now_ms - e.created_at
            } else {
                0
            };
            age < ttl_ms
        };
        entries.retain(keep);
        self.entries = entries;
        assert(self@ =~= cleaned(old(self)@, ttl_ms, now_ms));
    }
}

impl View for FragmentCache {
    type V = Map<Seq<char>, EntryView>;

    closed spec fn view(&self) -> Map<Seq<char>, EntryView> {
        self.entries@.map_values(|e: FragmentEntry| e@)
    }
}

// ---------------------------------------------------------------------------
// Laws
// ---------------------------------------------------------------------------

/// A fragment of one message changes nothing about another.
pub proof fn law_messages_independent(
    m: Map<Seq<char>, EntryView>,
    id: Seq<char>,
    other: Seq<char>,
    sum: nat,
    seq: nat,
    data: Seq<u8>,
    now_ms: u64,
)
    requires
        id != other,
    ensures
        pushed(m, id, sum, seq, data, now_ms).0.dom().contains(other) == m.dom().contains(other),
        m.dom().contains(other) ==> pushed(m, id, sum, seq, data, now_ms).0[other] == m[other],
{
}

/// Whether every message kept still lacks a fragment, and so has one at least.
pub open spec fn all_waiting(m: Map<Seq<char>, EntryView>) -> bool {
    forall|id: Seq<char>| #[trigger] m.dom().contains(id) ==> !complete(m[id].fragments) && m[id].fragments.len() > 0
}

/// No message is kept of which all fragments are there, and none that has no
/// fragments at all: the empty cache keeps none, and neither an arrival nor a
/// cleanup changes that.
pub proof fn law_only_unfinished_kept(
    m: Map<Seq<char>, EntryView>,
    id: Seq<char>,
    sum: nat,
    seq: nat,
    data: Seq<u8>,
    ttl_ms: u64,
    now_ms: u64,
)
    ensures
        all_waiting(Map::empty()),
        all_waiting(m) ==> all_waiting(pushed(m, id, sum, seq, data, now_ms).0),
        all_waiting(m) ==> all_waiting(cleaned(m, ttl_ms, now_ms)),
{
}

/// The arrival of a fragment: whose it is, of how many, which, what it holds, and
/// when it came.
pub struct Arrival {
    pub id: Seq<char>,
    pub sum: nat,
    pub seq: nat,
    pub data: Seq<u8>,
    pub now_ms: u64,
}

/// The cache after arrivals, one by one, each at its own time.
pub open spec fn cache_after(m: Map<Seq<char>, EntryView>, arrivals: Seq<Arrival>) -> Map<Seq<char>, EntryView>
    decreases arrivals.len(),
{
    if arrivals.len() == 0 {
        m
    } else {
        let a = arrivals.last();
        pushed(cache_after(m, arrivals.drop_last()), a.id, a.sum, a.seq, a.data, a.now_ms).0
    }
}

/// What the arrival at place `k` gives back.
pub open spec fn result_at(m: Map<Seq<char>, EntryView>, arrivals: Seq<Arrival>, k: int) -> Option<Seq<u8>> {
    let a = arrivals[k];
    pushed(cache_after(m, arrivals.take(k)), a.id, a.sum, a.seq, a.data, a.now_ms).1
}

/// The fragments that `arrivals` brings of one message, in the order of arrival.
pub open spec fn brought(arrivals: Seq<Arrival>, id: Seq<char>) -> Seq<(nat, Seq<u8>)>
    decreases arrivals.len(),
{
    if arrivals.len() == 0 {
        Seq::empty()
    } else if arrivals.last().id == id {
        brought(arrivals.drop_last(), id).push((arrivals.last().seq, arrivals.last().data))
    } else {
        brought(arrivals.drop_last(), id)
    }
}

/// The arrivals that are not of one message.
pub open spec fn arrivals_of_others(arrivals: Seq<Arrival>, id: Seq<char>) -> Seq<Arrival>
    decreases arrivals.len(),
{
    if arrivals.len() == 0 {
        Seq::empty()
    } else if arrivals.last().id == id {
        arrivals_of_others(arrivals.drop_last(), id)
    } else {
        arrivals_of_others(arrivals.drop_last(), id).push(arrivals.last())
    }
}

/// All parts of a message, one behind the other.
pub open spec fn joined(parts: Seq<Seq<u8>>) -> Seq<u8> {
    merged(parts.map_values(|p: Seq<u8>| Some(p)))
}

/// Whether `arrivals` brings every part of a message once, in whatever order.
pub open spec fn brings_all(arrivals: Seq<(nat, Seq<u8>)>, parts: Seq<Seq<u8>>) -> bool {
    &&& arrivals.len() == parts.len()
    &&& forall|i: int|
        0 <= i < arrivals.len() ==> (#[trigger] arrivals[i]).0 < parts.len() && arrivals[i].1
            == parts[arrivals[i].0 as int]
    &&& forall|i: int, j: int|
        0 <= i < j < arrivals.len() ==> (#[trigger] arrivals[i]).0 != (#[trigger] arrivals[j]).0
}

/// Whether `arrivals` brings every part of message `id` once, in whatever order,
/// each saying how many there are.
pub open spec fn whole_message(arrivals: Seq<Arrival>, id: Seq<char>, parts: Seq<Seq<u8>>) -> bool {
    &&& brings_all(brought(arrivals, id), parts)
    &&& forall|i: int|
        0 <= i < arrivals.len() && (#[trigger] arrivals[i]).id == id ==> arrivals[i].sum == parts.len()
}

/// Whether part `seq` is among the first `k` arrivals.
spec fn arrived(arrivals: Seq<(nat, Seq<u8>)>, k: int, seq: int) -> bool {
    exists|i: int| 0 <= i < k && (#[trigger] arrivals[i]).0 == seq
}

/// The fragments after the first `k` arrivals.
spec fn fragments_after(arrivals: Seq<(nat, Seq<u8>)>, parts: Seq<Seq<u8>>, k: int) -> Seq<Option<Seq<u8>>> {
    Seq::new(
        parts.len(),
        |seq: int|
            if arrived(arrivals, k, seq) {
                Some(parts[seq])
            } else {
                None
            },
    )
}

/// Fewer arrivals than parts leave a part out; as many leave none out.
proof fn lemma_arrival_count(arrivals: Seq<(nat, Seq<u8>)>, parts: Seq<Seq<u8>>, k: int)
    requires
        brings_all(arrivals, parts),
        0 <= k <= arrivals.len(),
    ensures
        complete(fragments_after(arrivals, parts, k)) <==> k == parts.len(),
{
    let places = arrivals.take(k).map_values(|a: (nat, Seq<u8>)| a.0 as int);
    assert(places.no_duplicates()) by {
        assert forall|i: int, j: int| 0 <= i < places.len() && 0 <= j < places.len() && i != j implies places[i]
            != places[j] by {
            if i < j {
                assert(arrivals[i].0 != arrivals[j].0);
            } else {
                assert(arrivals[j].0 != arrivals[i].0);
            }
        }
    }
    places.unique_seq_to_set();
    let range = vstd::set_lib::set_int_range(0, parts.len() as int);
    vstd::set_lib::lemma_int_range(0, parts.len() as int);
    assert(places.to_set().subset_of(range)) by {
        assert forall|x: int| places.to_set().contains(x) implies range.contains(x) by {
            let i = choose|i: int| 0 <= i < places.len() && places[i] == x;
            assert(arrivals[i].0 < parts.len());
        }
    }
    let fs = fragments_after(arrivals, parts, k);
    if complete(fs) {
        assert(range.subset_of(places.to_set())) by {
            assert forall|x: int| range.contains(x) implies places.to_set().contains(x) by {
                assert(fs[x] is Some);
                let i = choose|i: int| 0 <= i < k && (#[trigger] arrivals[i]).0 == x;
                assert(places[i] == x);
            }
        }
        vstd::set_lib::lemma_len_subset(range, places.to_set());
        assert(parts.len() <= k);
    }
    if k == parts.len() {
        assert(places.to_set() =~= range) by {
            vstd::set_lib::lemma_subset_equality(places.to_set(), range);
        }
        assert forall|x: int| 0 <= x < fs.len() implies (#[trigger] fs[x]) is Some by {
            assert(range.contains(x));
            assert(places.to_set().contains(x));
            let i = choose|i: int| 0 <= i < places.len() && places[i] == x;
            assert(arrivals[i].0 == x);
        }
    }
}

proof fn lemma_next_fragments(arrivals: Seq<(nat, Seq<u8>)>, parts: Seq<Seq<u8>>, k: int)
    requires
        brings_all(arrivals, parts),
        0 < k <= parts.len(),
    ensures
        fragments_after(arrivals, parts, k) == fragments_after(arrivals, parts, k - 1).update(
            arrivals[k - 1].0 as int,
            Some(arrivals[k - 1].1),
        ),
{
    let seq = arrivals[k - 1].0 as int;
    assert(arrived(arrivals, k, seq));
    assert forall|x: int| 0 <= x < parts.len() && x != seq implies arrived(arrivals, k, x) == arrived(
        arrivals,
        k - 1,
        x,
    ) by {
        if arrived(arrivals, k, x) {
            let i = choose|i: int| 0 <= i < k && (#[trigger] arrivals[i]).0 == x;
            assert(i < k - 1);
        }
        if arrived(arrivals, k - 1, x) {
            let i = choose|i: int| 0 <= i < k - 1 && (#[trigger] arrivals[i]).0 == x;
            assert(0 <= i < k);
        }
    }
    assert(fragments_after(arrivals, parts, k) =~= fragments_after(arrivals, parts, k - 1).update(
        seq,
        Some(arrivals[k - 1].1),
    ));
}

/// What an earlier arrival brings stays in its place among what all bring.
proof fn lemma_brought_prefix(arrivals: Seq<Arrival>, id: Seq<char>, k: int)
    requires
        0 <= k <= arrivals.len(),
    ensures
        brought(arrivals.take(k), id).len() <= brought(arrivals, id).len(),
        brought(arrivals.take(k), id) == brought(arrivals, id).take(brought(arrivals.take(k), id).len() as int),
    decreases arrivals.len(),
{
    let first = brought(arrivals.take(k), id);
    if k == arrivals.len() {
        assert(arrivals.take(k) =~= arrivals);
        assert(first =~= brought(arrivals, id).take(first.len() as int));
    } else {
        assert(arrivals.drop_last().take(k) =~= arrivals.take(k));
        lemma_brought_prefix(arrivals.drop_last(), id, k);
        assert(first =~= brought(arrivals, id).take(first.len() as int));
    }
}

/// An arrival of one message on a cache with and without another message.
proof fn lemma_push_beside(m: Map<Seq<char>, EntryView>, id: Seq<char>, a: Arrival)
    requires
        a.id != id,
    ensures
        pushed(m, a.id, a.sum, a.seq, a.data, a.now_ms).0.remove(id) == pushed(
            m.remove(id),
            a.id,
            a.sum,
            a.seq,
            a.data,
            a.now_ms,
        ).0,
{
    let with = pushed(m, a.id, a.sum, a.seq, a.data, a.now_ms).0;
    let without = pushed(m.remove(id), a.id, a.sum, a.seq, a.data, a.now_ms).0;
    assert(entry_of(m, a.id, a.sum, a.now_ms) == entry_of(m.remove(id), a.id, a.sum, a.now_ms));
    assert(with.remove(id) =~= without);
}

/// After `k` arrivals the message is kept with what has been brought of it, while
/// that is something and not all, and the others are as if it did not exist.
proof fn lemma_arrivals(
    m: Map<Seq<char>, EntryView>,
    id: Seq<char>,
    arrivals: Seq<Arrival>,
    parts: Seq<Seq<u8>>,
    k: int,
)
    requires
        whole_message(arrivals, id, parts),
        !m.dom().contains(id),
        0 <= k <= arrivals.len(),
    ensures
        ({
            let own = brought(arrivals, id);
            let n = brought(arrivals.take(k), id).len() as int;
            let c = cache_after(m, arrivals.take(k));
            &&& n <= parts.len()
            &&& c.dom().contains(id) <==> 0 < n < parts.len()
            &&& 0 < n < parts.len() ==> c[id].fragments == fragments_after(own, parts, n)
            &&& c.remove(id) == cache_after(m, arrivals_of_others(arrivals.take(k), id))
        }),
    decreases k,
{
    let c = cache_after(m, arrivals.take(k));
    let others = arrivals_of_others(arrivals.take(k), id);
    lemma_brought_prefix(arrivals, id, k);
    if k == 0 {
        assert(arrivals.take(0) =~= Seq::empty());
        assert(c.remove(id) =~= m);
    } else {
        lemma_arrivals(m, id, arrivals, parts, k - 1);
        assert(arrivals.take(k).drop_last() =~= arrivals.take(k - 1));
        let a = arrivals[k - 1];
        assert(arrivals.take(k).last() == a);
        let earlier = cache_after(m, arrivals.take(k - 1));
        if a.id == id {
            lemma_own_arrival(m, id, arrivals, parts, k - 1);
            assert(c.remove(id) =~= earlier.remove(id));
        } else {
            lemma_push_beside(earlier, id, a);
            assert(others.drop_last() =~= arrivals_of_others(arrivals.take(k - 1), id));
        }
    }
}

/// The fragments of the message after the arrival of its next fragment.
proof fn lemma_own_arrival(
    m: Map<Seq<char>, EntryView>,
    id: Seq<char>,
    arrivals: Seq<Arrival>,
    parts: Seq<Seq<u8>>,
    k: int,
)
    requires
        whole_message(arrivals, id, parts),
        0 <= k < arrivals.len(),
        arrivals[k].id == id,
        ({
            let n = brought(arrivals.take(k), id).len() as int;
            let c = cache_after(m, arrivals.take(k));
            &&& c.dom().contains(id) <==> 0 < n < parts.len()
            &&& 0 < n < parts.len() ==> c[id].fragments == fragments_after(brought(arrivals, id), parts, n)
        }),
    ensures
        ({
            let own = brought(arrivals, id);
            let n = brought(arrivals.take(k), id).len() as int;
            let a = arrivals[k];
            let c = cache_after(m, arrivals.take(k));
            let fs = with_fragment(entry_of(c, id, a.sum, a.now_ms), a.seq, a.data).fragments;
            &&& n < parts.len()
            &&& brought(arrivals.take(k + 1), id).len() == n + 1
            &&& fs == fragments_after(own, parts, n + 1)
            &&& complete(fs) <==> n + 1 == parts.len()
        }),
{
    let own = brought(arrivals, id);
    let n = brought(arrivals.take(k), id).len() as int;
    let a = arrivals[k];
    let c = cache_after(m, arrivals.take(k));
    assert(arrivals.take(k + 1).drop_last() =~= arrivals.take(k));
    assert(arrivals.take(k + 1).last() == a);
    lemma_brought_prefix(arrivals, id, k + 1);
    let upto = brought(arrivals.take(k + 1), id);
    assert(upto.last() == (a.seq, a.data));
    assert(own[n] == (a.seq, a.data)) by {
        assert(upto[n] == own.take(n + 1)[n]);
    }
    lemma_arrival_count(own, parts, n + 1);
    lemma_next_fragments(own, parts, n + 1);
    let e = entry_of(c, id, a.sum, a.now_ms);
    assert(e.fragments =~= fragments_after(own, parts, n)) by {
        if n == 0 {
            assert(a.sum == parts.len());
        }
    }
}

/// Whatever the order in which the parts of a message arrive, at whatever times,
/// and whatever of other messages arrives in between: the last arrival of the
/// message and no earlier one gives it back, its parts in their own order, and the
/// cache is then as if only the others had arrived.
pub proof fn law_fragments_in_any_order(
    m: Map<Seq<char>, EntryView>,
    id: Seq<char>,
    arrivals: Seq<Arrival>,
    parts: Seq<Seq<u8>>,
)
    requires
        whole_message(arrivals, id, parts),
        !m.dom().contains(id),
    ensures
        forall|k: int|
            0 <= k < arrivals.len() && arrivals[k].id == id ==> #[trigger] result_at(m, arrivals, k) == (if brought(
                arrivals.take(k + 1),
                id,
            ).len() == parts.len() {
                Some(joined(parts))
            } else {
                None
            }),
        cache_after(m, arrivals) == cache_after(m, arrivals_of_others(arrivals, id)),
{
    let own = brought(arrivals, id);
    assert forall|k: int| 0 <= k < arrivals.len() && arrivals[k].id == id implies #[trigger] result_at(m, arrivals, k)
        == (if brought(arrivals.take(k + 1), id).len() == parts.len() {
        Some(joined(parts))
    } else {
        None
    }) by {
        lemma_arrivals(m, id, arrivals, parts, k);
        lemma_own_arrival(m, id, arrivals, parts, k);
        let sum = parts.len() as int;
        let whole = parts.map_values(|p: Seq<u8>| Some(p));
        let fs = fragments_after(own, parts, sum);
        lemma_arrival_count(own, parts, sum);
        assert(fs =~= whole) by {
            assert forall|x: int| 0 <= x < fs.len() implies fs[x] == whole[x] by {
                assert(fs[x] is Some);
            }
        }
    }
    lemma_arrivals(m, id, arrivals, parts, arrivals.len() as int);
    assert(arrivals.take(arrivals.len() as int) =~= arrivals);
    assert(cache_after(m, arrivals).remove(id) =~= cache_after(m, arrivals));
}

/// Timing of the connection, as the server states it in a pong.
#[derive(Clone, Copy, Debug, PartialEq, Eq, Structural)]
pub struct PongConfig {
    pub ping_interval_secs: u64,
    pub reconnect_count: i32,
    pub reconnect_interval_secs: u64,
    pub reconnect_nonce_secs: u64,
}

/// The document in the payload of a pong.
#[derive(Clone, Copy, Debug, PartialEq, Eq, Structural)]
pub struct PongPayload {
    pub ping_interval: u64,
    pub reconnect_count: i32,
    pub reconnect_interval: u64,
    pub reconnect_nonce: u64,
}

/// The timing that a payload states; none where it holds no such document.
pub open spec fn pong_timing(payload: Option<PongPayload>) -> Option<PongConfig> {
    match payload {
        Some(p) => Some(
            PongConfig {
                ping_interval_secs: p.ping_interval,
                reconnect_count: p.reconnect_count,
                reconnect_interval_secs: p.reconnect_interval,
                reconnect_nonce_secs: p.reconnect_nonce,
            },
        ),
        None => None,
    }
}

/// The timing that the payload of a pong states, from the document that was read
/// in it.
pub fn parse_pong_config(payload: Option<PongPayload>) -> (r: Option<PongConfig>)
    ensures
        r == pong_timing(payload),
{
    match payload {
        Some(p) => Some(
            PongConfig {
                ping_interval_secs: p.ping_interval,
                reconnect_count: p.reconnect_count,
                reconnect_interval_secs: p.reconnect_interval,
                reconnect_nonce_secs: p.reconnect_nonce,
            },
        ),
        None => None,
    }
}

/// A message whose first fragment came too long ago is dropped, and every other is kept as it
/// is.
pub proof fn law_old_messages_are_dropped(m: Map<Seq<char>, EntryView>, id: Seq<char>, ttl_ms: u64, now_ms: u64)
    requires
        m.dom().contains(id),
    ensures
        m[id].created_at + ttl_ms <= now_ms ==> !cleaned(m, ttl_ms, now_ms).dom().contains(id),
        m[id].created_at + ttl_ms > now_ms && ttl_ms > 0 ==> cleaned(m, ttl_ms, now_ms).dom().contains(id)
            && cleaned(m, ttl_ms, now_ms)[id] == m[id],
{
}

/// The age of a message counts from its first fragment, whatever arrives later.
pub proof fn law_age_counts_from_the_first_fragment(
    m: Map<Seq<char>, EntryView>,
    id: Seq<char>,
    sum: nat,
    seq: nat,
    data: Seq<u8>,
    now_ms: u64,
)
    requires
        pushed(m, id, sum, seq, data, now_ms).1 is None,
    ensures
        ({
            let after = pushed(m, id, sum, seq, data, now_ms).0;
            &&& after.dom().contains(id)
            &&& m.dom().contains(id) ==> after[id].created_at == m[id].created_at
            &&& !m.dom().contains(id) ==> after[id].created_at == now_ms
        }),
{
}

/// A fragment goes to its own place, and one without a place changes nothing.
pub proof fn law_fragments_go_to_their_place(e: EntryView, seq: nat, data: Seq<u8>, other: int)
    requires
        0 <= other < e.fragments.len(),
    ensures
        other == seq ==> with_fragment(e, seq, data).fragments[other] == Some(data),
        other != seq ==> with_fragment(e, seq, data).fragments[other] == e.fragments[other],
        with_fragment(e, seq, data).fragments.len() == e.fragments.len(),
        seq >= e.fragments.len() ==> with_fragment(e, seq, data) == e,
        with_fragment(e, seq, data).created_at == e.created_at,
{
}

} // verus!
