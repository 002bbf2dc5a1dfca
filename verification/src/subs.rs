//! Per-session subscription registry and wildcard topic matching.
//!
//! Topic names and topic filters are byte strings segmented by the path
//! delimiter `/`. In a filter, a `+` segment matches exactly one topic
//! segment, and a final `#` segment matches any number of trailing
//! segments (including none). A filter whose wildcards do not follow this
//! shape is rejected when it is registered, not at match time. A filter
//! that starts with a wildcard never matches a topic whose first segment
//! starts with the reserved `$` byte.

use vstd::prelude::*;

use crate::packets::{QoS, SubscriptionOptions, spec_qos_max, qos_max};

verus! {

/// Path delimiter between topic segments.
pub const LEVEL_SEP: u8 = 47;

/// Single-level wildcard, as a whole segment.
pub const SINGLE_WILDCARD: u8 = 43;

/// Multi-level wildcard, as a whole final segment.
pub const MULTI_WILDCARD: u8 = 35;

/// Reserved leading byte of system topics.
pub const RESERVED_LEAD: u8 = 36;

/// The segments of a topic or filter, split at each path delimiter.
/// The empty string has one (empty) segment; every delimiter starts a
/// new segment, so `a//b` has three segments and `/a` has two.
pub open spec fn split_levels(s: Seq<u8>) -> Seq<Seq<u8>>
    decreases s.len(),
{
    if s.len() == 0 {
        seq![Seq::<u8>::empty()]
    } else if s.last() == LEVEL_SEP {
        split_levels(s.drop_last()).push(Seq::<u8>::empty())
    } else {
        let r = split_levels(s.drop_last());
        r.update(r.len() - 1, r.last().push(s.last()))
    }
}

/// The flat view and the segment views of a list of byte strings agree.
pub proof fn lemma_list_view(vs: Vec<Vec<u8>>)
    ensures
        vs.deep_view().len() == vs@.len(),
        forall|i: int| 0 <= i < vs@.len() ==> #[trigger] vs.deep_view()[i] == vs@[i]@,
{
    assert forall|i: int| 0 <= i < vs@.len() implies #[trigger] vs.deep_view()[i] == vs@[i]@ by {
        assert(vs@[i].deep_view() =~= vs@[i]@);
    }
}

/// Whether a filter's segments match a topic's segments, walking both
/// lists from the front.
pub open spec fn seg_match(fs: Seq<Seq<u8>>, ts: Seq<Seq<u8>>) -> bool
    decreases fs.len(),
{
    if fs.len() == 0 {
        ts.len() == 0
    } else if fs[0] == seq![MULTI_WILDCARD] {
        fs.len() == 1
    } else if ts.len() == 0 {
        false
    } else if fs[0] == seq![SINGLE_WILDCARD] || fs[0] == ts[0] {
        seg_match(fs.skip(1), ts.skip(1))
    } else {
        false
    }
}

/// Whether a byte occurs in a segment.
pub open spec fn seg_has(seg: Seq<u8>, c: u8) -> bool {
    exists|j: int| 0 <= j < seg.len() && seg[j] == c
}

/// A valid filter segment: either the multi-level wildcard standing alone
/// in last position, or a segment free of the multi-level wildcard in
/// which the single-level wildcard appears only as the whole segment.
pub open spec fn segment_valid(seg: Seq<u8>, is_last: bool) -> bool {
    if seg == seq![MULTI_WILDCARD] {
        is_last
    } else {
        !seg_has(seg, MULTI_WILDCARD) && (!seg_has(seg, SINGLE_WILDCARD) || seg
            == seq![SINGLE_WILDCARD])
    }
}

/// A well-shaped topic filter: every segment is valid in its position.
pub open spec fn spec_filter_valid(f: Seq<u8>) -> bool {
    let fs = split_levels(f);
    forall|i: int| 0 <= i < fs.len() ==> segment_valid(#[trigger] fs[i], i == fs.len() - 1)
}

/// Whether a filter matches a topic: the segments match, and a filter
/// whose first segment is a wildcard does not match a topic whose first
/// segment starts with the reserved lead byte.
pub open spec fn spec_matches(filter: Seq<u8>, topic: Seq<u8>) -> bool {
    let fs = split_levels(filter);
    let ts = split_levels(topic);
    &&& seg_match(fs, ts)
    &&& (ts[0].len() > 0 && ts[0][0] == RESERVED_LEAD ==> fs[0] != seq![SINGLE_WILDCARD] && fs[0]
        != seq![MULTI_WILDCARD])
}

/// Byte-for-byte equality of two byte strings.
pub fn bytes_eq(a: &[u8], b: &[u8]) -> (r: bool)
    ensures
        r == (a@ == b@),
{
    if a.len() != b.len() {
        assert(a@ != b@);
        return false;
    }
    let mut j: usize = 0;
    while j < a.len()
        invariant
            0 <= j <= a@.len(),
            a@.len() == b@.len(),
            forall|k: int| 0 <= k < j ==> a@[k] == b@[k],
        decreases a@.len() - j,
    {
        if a[j] != b[j] {
            return false;
        }
        j += 1;
    }
    proof {
        assert(a@ =~= b@);
    }
    true
}

/// Copy of a byte string.
pub fn copy_bytes(v: &[u8]) -> (r: Vec<u8>)
    ensures
        r@ == v@,
{
    let mut r: Vec<u8> = Vec::new();
    let mut j: usize = 0;
    while j < v.len()
        invariant
            0 <= j <= v@.len(),
            r@ == v@.take(j as int),
        decreases v@.len() - j,
    {
        r.push(v[j]);
        proof {
            assert(v@.take(j + 1 as int) =~= v@.take(j as int).push(v@[j as int]));
        }
        j += 1;
    }
    proof {
        assert(v@.take(v@.len() as int) =~= v@);
    }
    r
}

/// Split a topic or filter into its segments.
#[verifier::loop_isolation(false)]
pub fn split_topic(s: &[u8]) -> (segs: Vec<Vec<u8>>)
    ensures
        segs.deep_view() == split_levels(s@),
        segs@.len() >= 1,
{
    let mut done: Vec<Vec<u8>> = Vec::new();
    let mut cur: Vec<u8> = Vec::new();
    let mut i: usize = 0;
    proof {
        assert(s@.take(0) =~= Seq::<u8>::empty());
        assert(done.deep_view().push(cur@) =~= seq![Seq::<u8>::empty()]);
    }
    while i < s.len()
        invariant
            0 <= i <= s@.len(),
            split_levels(s@.take(i as int)) == done.deep_view().push(cur@),
        decreases s@.len() - i,
    {
        proof {
            assert(s@.take(i + 1 as int).drop_last() =~= s@.take(i as int));
            assert(s@.take(i + 1 as int).last() == s@[i as int]);
        }
        if s[i] == LEVEL_SEP {
            let ghost prev_done = done.deep_view();
            let ghost prev_cur = cur@;
            done.push(cur);
            cur = Vec::new();
            proof {
                assert(done.deep_view() =~~= prev_done.push(prev_cur));
                assert(split_levels(s@.take(i + 1 as int)) =~= done.deep_view().push(cur@));
            }
        } else {
            let ghost prev = done.deep_view().push(cur@);
            cur.push(s[i]);
            proof {
                assert(split_levels(s@.take(i + 1 as int)) == prev.update(
                    prev.len() - 1,
                    prev.last().push(s@[i as int]),
                ));
                assert(split_levels(s@.take(i + 1 as int)) =~= done.deep_view().push(cur@));
            }
        }
        i += 1;
    }
    proof {
        assert(s@.take(s@.len() as int) =~= s@);
    }
    let ghost prev_done = done.deep_view();
    let ghost prev_cur = cur@;
    done.push(cur);
    proof {
        assert(done.deep_view() =~~= prev_done.push(prev_cur));
    }
    done
}

/// Whether a byte string is exactly the one-byte string `c`.
fn is_single_byte(seg: &Vec<u8>, c: u8) -> (r: bool)
    ensures
        r == (seg@ == seq![c]),
{
    if seg.len() == 1 && seg[0] == c {
        proof {
            assert(seg@ =~= seq![c]);
        }
        true
    } else {
        proof {
            if seg@ == seq![c] {
                assert(seg@.len() == 1);
                assert(seg@[0] == c);
                assert(false);
            }
        }
        false
    }
}

/// Whether a filter's segment list matches a topic's segment list.
#[verifier::loop_isolation(false)]
fn seg_lists_match(fs: &Vec<Vec<u8>>, ts: &Vec<Vec<u8>>) -> (r: bool)
    ensures
        r == seg_match(fs.deep_view(), ts.deep_view()),
{
    let ghost fsv = fs.deep_view();
    let ghost tsv = ts.deep_view();
    proof {
        lemma_list_view(*fs);
        lemma_list_view(*ts);
        assert(fsv.skip(0) =~= fsv);
        assert(tsv.skip(0) =~= tsv);
    }
    let mut i: usize = 0;
    loop
        invariant
            0 <= i <= fs@.len(),
            0 <= i <= ts@.len(),
            seg_match(fsv, tsv) == seg_match(fsv.skip(i as int), tsv.skip(i as int)),
        decreases fs@.len() - i,
    {
        if i == fs.len() {
            return i == ts.len();
        }
        if is_single_byte(&fs[i], MULTI_WILDCARD) {
            assert(fsv.skip(i as int)[0] == seq![MULTI_WILDCARD]);
            return i + 1 == fs.len();
        }
        assert(fsv.skip(i as int)[0] != seq![MULTI_WILDCARD]);
        if i == ts.len() {
            return false;
        }
        let single = is_single_byte(&fs[i], SINGLE_WILDCARD);
        let equal = if single {
            true
        } else {
            bytes_eq(fs[i].as_slice(), ts[i].as_slice())
        };
        if !equal {
            assert(fsv.skip(i as int)[0] != seq![SINGLE_WILDCARD]);
            assert(fsv.skip(i as int)[0] != tsv.skip(i as int)[0]);
            return false;
        }
        proof {
            assert(fsv.skip(i as int)[0] == seq![SINGLE_WILDCARD] || fsv.skip(i as int)[0]
                == tsv.skip(i as int)[0]);
            assert(fsv.skip(i as int).skip(1) =~= fsv.skip(i + 1 as int));
            assert(tsv.skip(i as int).skip(1) =~= tsv.skip(i + 1 as int));
        }
        i += 1;
    }
}

/// Whether one segment is valid in its position within a filter.
#[verifier::loop_isolation(false)]
fn segment_valid_exec(seg: &Vec<u8>, is_last: bool) -> (r: bool)
    ensures
        r == segment_valid(seg@, is_last),
{
    if is_single_byte(seg, MULTI_WILDCARD) {
        return is_last;
    }
    let single = is_single_byte(seg, SINGLE_WILDCARD);
    let mut j: usize = 0;
    while j < seg.len()
        invariant
            0 <= j <= seg@.len(),
            forall|k: int|
                0 <= k < j ==> seg@[k] != MULTI_WILDCARD && (seg@[k] != SINGLE_WILDCARD || single),
        decreases seg@.len() - j,
    {
        if seg[j] == MULTI_WILDCARD {
            assert(seg_has(seg@, MULTI_WILDCARD));
            return false;
        }
        if seg[j] == SINGLE_WILDCARD && !single {
            assert(seg_has(seg@, SINGLE_WILDCARD));
            return false;
        }
        j += 1;
    }
    proof {
        if seg_has(seg@, MULTI_WILDCARD) {
            let j = choose|j: int| 0 <= j < seg@.len() && seg@[j] == MULTI_WILDCARD;
            assert(false);
        }
        if !single && seg_has(seg@, SINGLE_WILDCARD) {
            let j = choose|j: int| 0 <= j < seg@.len() && seg@[j] == SINGLE_WILDCARD;
            assert(false);
        }
    }
    true
}

/// Whether a topic filter is well shaped.
#[verifier::loop_isolation(false)]
pub fn filter_valid(f: &[u8]) -> (r: bool)
    ensures
        r == spec_filter_valid(f@),
{
    let segs = split_topic(f);
    let ghost fsv = segs.deep_view();
    proof {
        lemma_list_view(segs);
    }
    let n = segs.len();
    let mut i: usize = 0;
    while i < n
        invariant
            0 <= i <= n,
            forall|k: int| 0 <= k < i ==> segment_valid(#[trigger] fsv[k], k == fsv.len() - 1),
        decreases n - i,
    {
        if !segment_valid_exec(&segs[i], i == n - 1) {
            assert(!segment_valid(fsv[i as int], i == fsv.len() - 1));
            return false;
        }
        i += 1;
    }
    true
}

/// Whether a filter matches a topic.
pub fn topic_matches_filter(filter: &[u8], topic: &[u8]) -> (r: bool)
    ensures
        r == spec_matches(filter@, topic@),
{
    let fs = split_topic(filter);
    let ts = split_topic(topic);
    proof {
        lemma_list_view(fs);
        lemma_list_view(ts);
    }
    if ts[0].len() > 0 && ts[0][0] == RESERVED_LEAD {
        if is_single_byte(&fs[0], SINGLE_WILDCARD) || is_single_byte(&fs[0], MULTI_WILDCARD) {
            return false;
        }
    }
    seg_lists_match(&fs, &ts)
}

/// One registered subscription.
pub struct SubscriptionEntry {
    pub filter: Vec<u8>,
    pub qos: QoS,
    pub options: SubscriptionOptions,
}

/// Mathematical model of a registered subscription.
pub struct EntryModel {
    pub filter: Seq<u8>,
    pub qos: QoS,
    pub options: SubscriptionOptions,
}

impl View for SubscriptionEntry {
    type V = EntryModel;

    open spec fn view(&self) -> EntryModel {
        EntryModel { filter: self.filter@, qos: self.qos, options: self.options }
    }
}

impl DeepView for SubscriptionEntry {
    type V = EntryModel;

    open spec fn deep_view(&self) -> EntryModel {
        self.view()
    }
}

/// Error returned when a malformed topic filter is registered.
#[derive(Clone, Copy, PartialEq, Eq, Structural, Debug)]
pub enum FilterError {
    InvalidFilter,
}

/// The per-session subscription registry: a table of topic filters with
/// their granted quality of service and options, unique by filter.
pub struct Subs {
    pub entries: Vec<SubscriptionEntry>,
}

impl View for Subs {
    type V = Seq<EntryModel>;

    open spec fn view(&self) -> Seq<EntryModel> {
        self.entries.deep_view()
    }
}

/// The registry's view indexes to the views of its entries.
pub proof fn lemma_subs_view(s: Subs)
    ensures
        s@.len() == s.entries_vec_len(),
        forall|i: int| 0 <= i < s@.len() ==> #[trigger] s@[i] == s.entry_model_at(i),
{
}

/// The registry view after registering a subscription: a malformed
/// filter changes nothing, a present filter is replaced in place, a new
/// filter is appended.
pub open spec fn spec_add(entries: Seq<EntryModel>, m: EntryModel) -> Seq<EntryModel> {
    if !spec_filter_valid(m.filter) {
        entries
    } else if exists|i: int| 0 <= i < entries.len() && entries[i].filter == m.filter {
        entries.update(choose|i: int| 0 <= i < entries.len() && entries[i].filter == m.filter, m)
    } else {
        entries.push(m)
    }
}

/// The registry view after removing a filter: absent filters change
/// nothing.
pub open spec fn spec_remove(entries: Seq<EntryModel>, filter: Seq<u8>) -> Seq<EntryModel> {
    if exists|i: int| 0 <= i < entries.len() && entries[i].filter == filter {
        entries.remove(choose|i: int| 0 <= i < entries.len() && entries[i].filter == filter)
    } else {
        entries
    }
}

/// The per-filter result of a subscribe request: the requested grant if
/// the handler granted it and the filter is well shaped, else nothing.
pub open spec fn spec_grant_result(g: crate::packets::GrantModel) -> Option<QoS> {
    match g.qos {
        Some(q) => if spec_filter_valid(g.filter) {
            Some(q)
        } else {
            None
        },
        None => None,
    }
}

/// The registry view after applying a subscribe request's grants in
/// order: denied or malformed filters change nothing.
pub open spec fn spec_apply_grants(
    entries: Seq<EntryModel>,
    grants: Seq<crate::packets::GrantModel>,
) -> Seq<EntryModel>
    decreases grants.len(),
{
    if grants.len() == 0 {
        entries
    } else {
        let p = spec_apply_grants(entries, grants.drop_last());
        let g = grants.last();
        match g.qos {
            Some(q) => spec_add(p, (EntryModel { filter: g.filter, qos: q, options: g.options })),
            None => p,
        }
    }
}

/// The registry view after removing a list of filters in order.
pub open spec fn spec_apply_removals(
    entries: Seq<EntryModel>,
    filters: Seq<Seq<u8>>,
) -> Seq<EntryModel>
    decreases filters.len(),
{
    if filters.len() == 0 {
        entries
    } else {
        spec_remove(spec_apply_removals(entries, filters.drop_last()), filters.last())
    }
}

/// The ordered matching entries of a registry view, as indices into it.
pub open spec fn spec_matching_indices(entries: Seq<EntryModel>, topic: Seq<u8>) -> Seq<int>
    decreases entries.len(),
{
    if entries.len() == 0 {
        Seq::empty()
    } else {
        let p = spec_matching_indices(entries.drop_last(), topic);
        if spec_matches(entries.last().filter, topic) {
            p.push(entries.len() - 1)
        } else {
            p
        }
    }
}

/// The effective delivery quality of service for a topic: the maximum
/// granted quality of service among the matching subscriptions, or
/// nothing when no subscription matches.
pub open spec fn spec_effective_qos(entries: Seq<EntryModel>, topic: Seq<u8>) -> Option<QoS>
    decreases entries.len(),
{
    if entries.len() == 0 {
        Option::None
    } else {
        let p = spec_effective_qos(entries.drop_last(), topic);
        if spec_matches(entries.last().filter, topic) {
            match p {
                Option::None => Option::Some(entries.last().qos),
                Option::Some(q) => Option::Some(spec_qos_max(q, entries.last().qos)),
            }
        } else {
            p
        }
    }
}

impl Subs {
    /// Length of the underlying entry table (model helper).
    pub open spec fn entries_vec_len(self) -> int {
        self.entries@.len() as int
    }

    /// Model of the entry at one index (model helper).
    pub open spec fn entry_model_at(self, i: int) -> EntryModel {
        self.entries@[i]@
    }

    /// Well-formed registry: every filter is well shaped and no filter
    /// occurs twice.
    pub open spec fn wf(self) -> bool {
        &&& forall|i: int| 0 <= i < self@.len() ==> spec_filter_valid(#[trigger] self@[i].filter)
        &&& forall|i: int, j: int|
            0 <= i < j < self@.len() ==> self@[i].filter != self@[j].filter
    }

    /// An empty registry.
    pub fn new() -> (r: Subs)
        ensures
            r.wf(),
            r@.len() == 0,
    {
        let r = Subs { entries: Vec::new() };
        proof {
            assert(r@ =~= Seq::<EntryModel>::empty());
        }
        r
    }

    /// Number of registered subscriptions.
    pub fn len(&self) -> (n: usize)
        ensures
            n == self@.len(),
    {
        self.entries.len()
    }

    /// Index of the entry registered under exactly this filter, if any.
    #[verifier::loop_isolation(false)]
    fn find(&self, filter: &[u8]) -> (r: Option<usize>)
        ensures
            r matches Some(i) ==> 0 <= i < self@.len() && self@[i as int].filter == filter@,
            r is None ==> forall|i: int| 0 <= i < self@.len() ==> self@[i].filter != filter@,
    {
        proof {
            lemma_subs_view(*self);
        }
        let mut i: usize = 0;
        while i < self.entries.len()
            invariant
                0 <= i <= self@.len(),
                forall|k: int| 0 <= k < i ==> self@[k].filter != filter@,
            decreases self@.len() - i,
        {
            if bytes_eq(self.entries[i].filter.as_slice(), filter) {
                return Some(i);
            }
            i += 1;
        }
        None
    }

    /// Register a subscription: a malformed filter is rejected, a filter
    /// already present is replaced in place, a new filter is appended.
    #[verifier::loop_isolation(false)]
    pub fn add(&mut self, filter: Vec<u8>, qos: QoS, options: SubscriptionOptions) -> (r: Result<
        (),
        FilterError,
    >)
        requires
            old(self).wf(),
        ensures
            final(self).wf(),
            r is Ok <==> spec_filter_valid(filter@),
            !spec_filter_valid(filter@) ==> *final(self) == *old(self) && r == Err::<
                (),
                FilterError,
            >(FilterError::InvalidFilter),
            spec_filter_valid(filter@) ==> forall|i: int|
                0 <= i < old(self)@.len() && old(self)@[i].filter == filter@ ==> final(self)@
                    == old(self)@.update(
                    i,
                    (EntryModel { filter: filter@, qos: qos, options: options }),
                ),
            spec_filter_valid(filter@) && (forall|i: int|
                0 <= i < old(self)@.len() ==> old(self)@[i].filter != filter@) ==> final(self)@
                == old(self)@.push((EntryModel { filter: filter@, qos: qos, options: options })),
            final(self)@ == spec_add(
                old(self)@,
                (EntryModel { filter: filter@, qos: qos, options: options }),
            ),
    {
        if !filter_valid(filter.as_slice()) {
            return Err(FilterError::InvalidFilter);
        }
        proof {
            lemma_subs_view(*self);
        }
        let ghost oldv = self@;
        let ghost model = (EntryModel { filter: filter@, qos: qos, options: options });
        let entry = SubscriptionEntry { filter, qos, options };
        match self.find(entry.filter.as_slice()) {
            Some(i) => {
                self.entries.remove(i);
                self.entries.insert(i, entry);
                proof {
                    lemma_subs_view(*self);
                    assert(self@ =~= oldv.update(i as int, model));
                    assert forall|a: int|
                        0 <= a < oldv.len() && oldv[a].filter == model.filter implies a
                        == i as int by {
                        if a != i as int {
                            assert(oldv[a].filter != oldv[i as int].filter);
                        }
                    }
                    assert(self@ == spec_add(oldv, model));
                }
                Ok(())
            },
            None => {
                self.entries.push(entry);
                proof {
                    lemma_subs_view(*self);
                    assert(self@ =~= oldv.push(model));
                    assert(self@ == spec_add(oldv, model));
                }
                Ok(())
            },
        }
    }

    /// Remove the subscription registered under exactly this filter.
    pub fn remove(&mut self, filter: &[u8]) -> (removed: bool)
        requires
            old(self).wf(),
        ensures
            final(self).wf(),
            removed <==> exists|i: int|
                0 <= i < old(self)@.len() && old(self)@[i].filter == filter@,
            !removed ==> *final(self) == *old(self),
            forall|i: int|
                0 <= i < old(self)@.len() && old(self)@[i].filter == filter@ ==> final(self)@
                    == old(self)@.remove(i),
            final(self)@ == spec_remove(old(self)@, filter@),
    {
        proof {
            lemma_subs_view(*self);
        }
        let ghost oldv = self@;
        match self.find(filter) {
            Some(i) => {
                self.entries.remove(i);
                proof {
                    lemma_subs_view(*self);
                    assert(self@ =~= oldv.remove(i as int));
                    assert forall|a: int|
                        0 <= a < oldv.len() && oldv[a].filter == filter@ implies a == i as int by {
                        if a != i as int {
                            assert(oldv[a].filter != oldv[i as int].filter);
                        }
                    }
                    assert(self@ == spec_remove(oldv, filter@));
                }
                true
            },
            None => false,
        }
    }

    /// Indices of the subscriptions matching a topic, in registration
    /// order.
    #[verifier::loop_isolation(false)]
    pub fn matching_indices(&self, topic: &[u8]) -> (r: Vec<usize>)
        ensures
            r@.map_values(|x: usize| x as int) == spec_matching_indices(self@, topic@),
    {
        proof {
            lemma_subs_view(*self);
        }
        let mut r: Vec<usize> = Vec::new();
        let mut i: usize = 0;
        proof {
            assert(self@.take(0) =~= Seq::<EntryModel>::empty());
            assert(r@.map_values(|x: usize| x as int) =~= Seq::<int>::empty());
        }
        while i < self.entries.len()
            invariant
                0 <= i <= self@.len(),
                r@.map_values(|x: usize| x as int) == spec_matching_indices(
                    self@.take(i as int),
                    topic@,
                ),
                forall|k: int| 0 <= k < r@.len() ==> r@[k] < i,
            decreases self@.len() - i,
        {
            let ghost prev = r@;
            proof {
                assert(self@.take(i + 1 as int).drop_last() =~= self@.take(i as int));
                assert(self@.take(i + 1 as int).last() == self@[i as int]);
            }
            if topic_matches_filter(self.entries[i].filter.as_slice(), topic) {
                r.push(i);
                proof {
                    assert(r@.map_values(|x: usize| x as int) =~= prev.map_values(
                        |x: usize| x as int,
                    ).push(i as int));
                }
            }
            i += 1;
        }
        proof {
            assert(self@.take(self@.len() as int) =~= self@);
        }
        r
    }

    /// The effective delivery quality of service for a topic.
    #[verifier::loop_isolation(false)]
    pub fn effective_qos(&self, topic: &[u8]) -> (r: Option<QoS>)
        ensures
            r == spec_effective_qos(self@, topic@),
    {
        proof {
            lemma_subs_view(*self);
            assert(self@.take(0) =~= Seq::<EntryModel>::empty());
        }
        let mut r: Option<QoS> = None;
        let mut i: usize = 0;
        while i < self.entries.len()
            invariant
                0 <= i <= self@.len(),
                r == spec_effective_qos(self@.take(i as int), topic@),
            decreases self@.len() - i,
        {
            proof {
                assert(self@.take(i + 1 as int).drop_last() =~= self@.take(i as int));
                assert(self@.take(i + 1 as int).last() == self@[i as int]);
            }
            if topic_matches_filter(self.entries[i].filter.as_slice(), topic) {
                r = match r {
                    None => Some(self.entries[i].qos),
                    Some(q) => Some(qos_max(q, self.entries[i].qos)),
                };
            }
            i += 1;
        }
        proof {
            assert(self@.take(self@.len() as int) =~= self@);
        }
        r
    }
}

} // verus!
