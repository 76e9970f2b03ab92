//! Per-endpoint statistics: the value records published for monitoring and the
//! shared registry that accumulates them.

use vstd::prelude::*;
use vstd::hash_map::StringHashMap;

verus! {

/// Description of the request and response payload formats of one endpoint.
/// Purely informational: nothing here ever validates a payload against it.
#[derive(Debug, Clone, PartialEq)]
pub struct Schema {
    /// A string or URL describing the format of the request payload.
    pub request: String,
    /// A string or URL describing the format of the response payload.
    pub response: String,
}

/// Mathematical image of a [`Schema`]: the two descriptors as character sequences.
#[verifier::ext_equal]
pub struct SchemaView {
    pub request: Seq<char>,
    pub response: Seq<char>,
}

impl View for Schema {
    type V = SchemaView;

    open spec fn view(&self) -> SchemaView {
        SchemaView { request: self.request@, response: self.response@ }
    }
}

impl Schema {
    /// An exact copy of this schema.
    pub fn duplicate(&self) -> (r: Schema)
        ensures
            r@ == self@,
    {
        Schema { request: self.request.clone(), response: self.response.clone() }
    }
}

/// The error a handler most recently reported for an endpoint, kept for
/// monitoring. It is overwritten by the next error and never cleared by a
/// later success.
#[derive(Debug, Clone, PartialEq)]
pub struct ServiceError {
    /// Numeric code of the error.
    pub code: u64,
    /// Human-readable description of the error.
    pub message: String,
}

/// Mathematical image of a [`ServiceError`].
#[verifier::ext_equal]
pub struct ServiceErrorView {
    pub code: u64,
    pub message: Seq<char>,
}

impl View for ServiceError {
    type V = ServiceErrorView;

    open spec fn view(&self) -> ServiceErrorView {
        ServiceErrorView { code: self.code, message: self.message@ }
    }
}

/// The image of an optional recorded error.
pub open spec fn failure_view(e: Option<ServiceError>) -> Option<ServiceErrorView> {
    match e {
        Option::Some(x) => Option::Some(x@),
        Option::None => Option::None,
    }
}

/// The image of an optional schema.
pub open spec fn schema_view(s: Option<Schema>) -> Option<SchemaView> {
    match s {
        Option::Some(x) => Option::Some(x@),
        Option::None => Option::None,
    }
}

/// The image of a metadata table: each key/value pair as character sequences.
pub open spec fn metadata_view(m: Seq<(String, String)>) -> Seq<(Seq<char>, Seq<char>)> {
    m.map_values(|p: (String, String)| (p.0@, p.1@))
}

/// Point-in-time copy of one endpoint's counters, as published to monitoring
/// consumers. Identical to the internal entry minus the schema bookkeeping.
#[derive(Debug, Clone)]
pub struct Stats {
    /// Fixed discriminator tag identifying the record as endpoint statistics.
    pub kind: String,
    /// Endpoint name.
    pub name: String,
    /// The subject on which the endpoint is registered.
    pub subject: String,
    /// Endpoint-specific metadata; insertion order carries no meaning.
    pub metadata: Vec<(String, String)>,
    /// Number of requests handled.
    pub requests: usize,
    /// Number of errors that occurred.
    pub errors: usize,
    /// Total processing time over all handled requests, in nanoseconds.
    pub processing_time: u64,
    /// Average processing time per request, in nanoseconds.
    pub average_processing_time: u64,
    /// Most recent error, if any request ever failed.
    pub last_error: Option<ServiceError>,
    /// Opaque caller-supplied string.
    pub data: String,
}

/// Mathematical image of one endpoint's counters.
#[verifier::ext_equal]
pub struct StatsView {
    pub kind: Seq<char>,
    pub name: Seq<char>,
    pub subject: Seq<char>,
    pub metadata: Seq<(Seq<char>, Seq<char>)>,
    pub requests: usize,
    pub errors: usize,
    pub processing_time: u64,
    pub average_processing_time: u64,
    pub last_error: Option<ServiceErrorView>,
    pub data: Seq<char>,
}

impl View for Stats {
    type V = StatsView;

    open spec fn view(&self) -> StatsView {
        StatsView {
            kind: self.kind@,
            name: self.name@,
            subject: self.subject@,
            metadata: metadata_view(self.metadata@),
            requests: self.requests,
            errors: self.errors,
            processing_time: self.processing_time,
            average_processing_time: self.average_processing_time,
            last_error: failure_view(self.last_error),
            data: self.data@,
        }
    }
}

/// Internal registry entry for one endpoint: the published counters plus the
/// optional schema kept only for registration bookkeeping.
#[derive(Debug, Clone)]
pub struct Inner {
    /// Fixed discriminator tag identifying the record as endpoint statistics.
    pub kind: String,
    /// Endpoint name; the registry key.
    pub name: String,
    /// The subject on which the endpoint is registered.
    pub subject: String,
    /// Endpoint-specific metadata; insertion order carries no meaning.
    pub metadata: Vec<(String, String)>,
    /// Number of requests handled.
    pub requests: usize,
    /// Number of errors that occurred.
    pub errors: usize,
    /// Total processing time over all handled requests, in nanoseconds.
    pub processing_time: u64,
    /// Average processing time per request, in nanoseconds.
    pub average_processing_time: u64,
    /// Most recent error, if any request ever failed.
    pub last_error: Option<ServiceError>,
    /// Opaque caller-supplied string.
    pub data: String,
    /// Request/response format description; informational only.
    pub schema: Option<Schema>,
}

/// Mathematical image of a registry entry: the published part and the schema.
#[verifier::ext_equal]
pub struct InnerView {
    pub stats: StatsView,
    pub schema: Option<SchemaView>,
}

impl View for Inner {
    type V = InnerView;

    open spec fn view(&self) -> InnerView {
        InnerView {
            stats: StatsView {
                kind: self.kind@,
                name: self.name@,
                subject: self.subject@,
                metadata: metadata_view(self.metadata@),
                requests: self.requests,
                errors: self.errors,
                processing_time: self.processing_time,
                average_processing_time: self.average_processing_time,
                last_error: failure_view(self.last_error),
                data: self.data@,
            },
            schema: schema_view(self.schema),
        }
    }
}

/// The derived average: total processing time divided by the number of
/// requests, and zero while no request has been handled.
pub open spec fn average_of(processing_time: u64, requests: usize) -> u64 {
    if requests == 0 {
        0
    } else {
        ((processing_time as int) / (requests as int)) as u64
    }
}

/// Consistency of one counter record: errors never exceed requests, and the
/// stored average is exactly the one recomputed from the totals.
pub open spec fn stats_wf(s: StatsView) -> bool {
    &&& s.errors <= s.requests
    &&& s.average_processing_time == average_of(s.processing_time, s.requests)
}

/// Copies a metadata table entry by entry.
fn clone_metadata(m: &Vec<(String, String)>) -> (r: Vec<(String, String)>)
    ensures
        r@ == m@,
{
    let mut r: Vec<(String, String)> = Vec::new();
    let mut i: usize = 0;
    while i < m.len()
        invariant
            i <= m.len(),
            r@ == m@.subrange(0, i as int),
        decreases m.len() - i,
    {
        let p = &m[i];
        r.push((p.0.clone(), p.1.clone()));
        proof {
            assert((p.0, p.1) == m@[i as int]);
            assert(m@.subrange(0, i as int).push(m@[i as int]) =~= m@.subrange(0, i + 1 as int));
        }
        i += 1;
    }
    proof {
        assert(m@.subrange(0, m@.len() as int) =~= m@);
    }
    r
}

/// Copies an optional recorded error.
fn clone_last_error(e: &Option<ServiceError>) -> (r: Option<ServiceError>)
    ensures
        r == *e,
{
    match e {
        Option::Some(x) => Option::Some(ServiceError { code: x.code, message: x.message.clone() }),
        Option::None => Option::None,
    }
}

/// Copies an optional schema.
fn clone_schema(s: &Option<Schema>) -> (r: Option<Schema>)
    ensures
        r == *s,
{
    match s {
        Option::Some(x) => Option::Some(Schema { request: x.request.clone(), response: x.response.clone() }),
        Option::None => Option::None,
    }
}

impl Stats {
    /// Projects a registry entry to the externally published snapshot: every
    /// counter copied, the schema bookkeeping dropped.
    pub fn from_entry(entry: &Inner) -> (s: Stats)
        ensures
            s@ == entry@.stats,
    {
        let s = Stats {
            kind: entry.kind.clone(),
            name: entry.name.clone(),
            subject: entry.subject.clone(),
            metadata: clone_metadata(&entry.metadata),
            requests: entry.requests,
            errors: entry.errors,
            processing_time: entry.processing_time,
            average_processing_time: entry.average_processing_time,
            last_error: clone_last_error(&entry.last_error),
            data: entry.data.clone(),
        };
        proof {
            assert(s@ =~= entry@.stats);
        }
        s
    }
}

impl Inner {
    /// A fresh registry entry with every counter at zero.
    pub fn new(
        kind: String,
        name: String,
        subject: String,
        metadata: Vec<(String, String)>,
        data: String,
        schema: Option<Schema>,
    ) -> (e: Inner)
        ensures
            e@.stats.kind == kind@,
            e@.stats.name == name@,
            e@.stats.subject == subject@,
            e@.stats.metadata == metadata_view(metadata@),
            e@.stats.requests == 0,
            e@.stats.errors == 0,
            e@.stats.processing_time == 0,
            e@.stats.average_processing_time == 0,
            e@.stats.last_error is None,
            e@.stats.data == data@,
            e@.schema == schema_view(schema),
            stats_wf(e@.stats),
    {
        Inner {
            kind,
            name,
            subject,
            metadata,
            requests: 0,
            errors: 0,
            processing_time: 0,
            average_processing_time: 0,
            last_error: Option::None,
            data,
            schema,
        }
    }

    /// An entry with every field empty and every counter at zero.
    pub fn empty() -> (e: Inner)
        ensures
            e@ == (InnerView {
                stats: StatsView {
                    kind: Seq::<char>::empty(),
                    name: Seq::<char>::empty(),
                    subject: Seq::<char>::empty(),
                    metadata: Seq::<(Seq<char>, Seq<char>)>::empty(),
                    requests: 0,
                    errors: 0,
                    processing_time: 0,
                    average_processing_time: 0,
                    last_error: Option::None,
                    data: Seq::<char>::empty(),
                },
                schema: Option::None,
            }),
            stats_wf(e@.stats),
    {
        let e = Inner::new(
            String::new(),
            String::new(),
            String::new(),
            Vec::new(),
            String::new(),
            Option::None,
        );
        proof {
            assert(e@.stats.metadata =~= Seq::<(Seq<char>, Seq<char>)>::empty());
            assert(e@ =~= (InnerView {
                stats: StatsView {
                    kind: Seq::<char>::empty(),
                    name: Seq::<char>::empty(),
                    subject: Seq::<char>::empty(),
                    metadata: Seq::<(Seq<char>, Seq<char>)>::empty(),
                    requests: 0,
                    errors: 0,
                    processing_time: 0,
                    average_processing_time: 0,
                    last_error: Option::None,
                    data: Seq::<char>::empty(),
                },
                schema: Option::None,
            }));
        }
        e
    }

    /// Whether the counters of this entry are consistent, as an executable
    /// check: errors do not exceed requests and the stored average equals the
    /// recomputed one.
    pub fn consistent(&self) -> (b: bool)
        ensures
            b == stats_wf(self@.stats),
    {
        self.errors <= self.requests
            && self.average_processing_time
                == (if self.requests == 0 { 0 } else { self.processing_time / (self.requests as u64) })
    }
}

impl Default for Inner {
    /// Same as [`Inner::empty`].
    fn default() -> (e: Inner)
        ensures
            e@.stats.requests == 0,
            e@.stats.errors == 0,
            e@.stats.processing_time == 0,
            e@.stats.average_processing_time == 0,
            e@.stats.last_error is None,
            e@.schema is None,
            stats_wf(e@.stats),
    {
        Inner::empty()
    }
}

impl Default for Stats {
    /// The projection of an empty entry: every counter at zero.
    fn default() -> (s: Stats)
        ensures
            s@.requests == 0,
            s@.errors == 0,
            s@.processing_time == 0,
            s@.average_processing_time == 0,
            s@.last_error is None,
    {
        let e = Inner::empty();
        Stats::from_entry(&e)
    }
}

/// Addition of durations that sticks at the largest representable value
/// instead of wrapping: the totals are monotone counters.
pub open spec fn saturating_total(a: u64, b: u64) -> u64 {
    if a + b > u64::MAX {
        u64::MAX
    } else {
        (a + b) as u64
    }
}

/// Increment of a request or error count that sticks at the largest
/// representable value instead of wrapping.
pub open spec fn saturating_count(a: usize) -> usize {
    if a == usize::MAX {
        a
    } else {
        (a + 1) as usize
    }
}

/// The entry that results from recording one handled request: requests up by
/// one, the duration added to the total, the average recomputed, and on a
/// failure the error count up by one and the last error overwritten. A
/// success never clears a previously recorded error, and the schema and the
/// descriptive fields are untouched.
pub open spec fn record_update(e: InnerView, duration_nanos: u64, failure: Option<ServiceErrorView>) -> InnerView {
    InnerView {
        stats: StatsView {
            kind: e.stats.kind,
            name: e.stats.name,
            subject: e.stats.subject,
            metadata: e.stats.metadata,
            requests: saturating_count(e.stats.requests),
            errors: if failure is Some {
                saturating_count(e.stats.errors)
            } else {
                e.stats.errors
            },
            processing_time: saturating_total(e.stats.processing_time, duration_nanos),
            average_processing_time: average_of(
                saturating_total(e.stats.processing_time, duration_nanos),
                saturating_count(e.stats.requests),
            ),
            last_error: if failure is Some {
                failure
            } else {
                e.stats.last_error
            },
            data: e.stats.data,
        },
        schema: e.schema,
    }
}

/// The shared table of per-endpoint counters, keyed by endpoint name.
///
/// Names are unique: registering a name a second time overwrites its entry.
/// Snapshots are produced in registration order. The table itself is plain
/// data; a driver that shares it across concurrent handlers guards it with a
/// lock whose critical sections are exactly these methods — none of them
/// suspends.
pub struct Endpoints {
    names: Vec<String>,
    table: StringHashMap<Inner>,
}

impl View for Endpoints {
    type V = Map<Seq<char>, InnerView>;

    closed spec fn view(&self) -> Map<Seq<char>, InnerView> {
        self.table@.map_values(|e: Inner| e@)
    }
}

impl Endpoints {
    /// The registered endpoint names, in registration order.
    pub closed spec fn order(&self) -> Seq<Seq<char>> {
        self.names@.map_values(|s: String| s@)
    }

    /// Well-formedness: the registration order lists each registered name
    /// exactly once, every listed name is in the table, each entry is stored
    /// under its own name, and every entry's counters are consistent.
    pub closed spec fn wf(&self) -> bool {
        &&& (forall|i: int, j: int|
            0 <= i < j < self.names@.len() ==> #[trigger] self.names@[i]@ != #[trigger] self.names@[j]@)
        &&& (forall|i: int|
            0 <= i < self.names@.len() ==> self.table@.contains_key(#[trigger] self.names@[i]@))
        &&& (forall|k: Seq<char>|
            #[trigger] self.table@.contains_key(k) ==> exists|i: int|
                0 <= i < self.names@.len() && #[trigger] self.names@[i]@ == k)
        &&& (forall|k: Seq<char>|
            #[trigger] self.table@.contains_key(k) ==> self.table@[k].name@ == k && stats_wf(
                self.table@[k]@.stats,
            ))
    }

    /// An empty registry.
    pub fn new() -> (r: Endpoints)
        ensures
            r.wf(),
            r@ == Map::<Seq<char>, InnerView>::empty(),
            r.order() == Seq::<Seq<char>>::empty(),
    {
        let r = Endpoints { names: Vec::new(), table: StringHashMap::new() };
        proof {
            assert(r@ =~= Map::<Seq<char>, InnerView>::empty());
            assert(r.order() =~= Seq::<Seq<char>>::empty());
        }
        r
    }

    /// Registers an endpoint under its name. A name seen for the first time
    /// is appended to the registration order; re-registering a name
    /// overwrites its entry and leaves the order unchanged.
    pub fn register(&mut self, entry: Inner)
        requires
            old(self).wf(),
            stats_wf(entry@.stats),
        ensures
            final(self).wf(),
            final(self)@ == old(self)@.insert(entry@.stats.name, entry@),
            old(self)@.contains_key(entry@.stats.name) ==> final(self).order() == old(self).order(),
            !old(self)@.contains_key(entry@.stats.name) ==> final(self).order() == old(
                self,
            ).order().push(entry@.stats.name),
    {
        proof {
            lemma_view_is_table(*old(self));
        }
        let present = self.table.contains_key(entry.name.as_str());
        if !present {
            self.names.push(entry.name.clone());
        }
        self.table.insert(entry.name.clone(), entry);
        proof {
            lemma_view_is_table(*self);
            assert(self@ =~= old(self)@.insert(entry@.stats.name, entry@));
            let key = entry@.stats.name;
            let oldn = old(self).names@;
            if !old(self)@.contains_key(key) {
                assert(self.order() =~= old(self).order().push(key));
                assert forall|i: int| 0 <= i < oldn.len() implies oldn[i]@ != key by {
                    assert(old(self).table@.contains_key(oldn[i]@));
                }
                assert(self.names@ == oldn.push(entry.name));
            } else {
                assert(self.order() =~= old(self).order());
            }
            assert forall|k: Seq<char>| #[trigger] self.table@.contains_key(k) implies exists|i: int|
                0 <= i < self.names@.len() && #[trigger] self.names@[i]@ == k by {
                if k == key {
                    if old(self)@.contains_key(key) {
                        let i = choose|i: int| 0 <= i < oldn.len() && #[trigger] oldn[i]@ == k;
                        assert(self.names@[i]@ == k);
                    } else {
                        assert(self.names@[oldn.len() as int]@ == k);
                    }
                } else {
                    assert(old(self).table@.contains_key(k));
                    let i = choose|i: int| 0 <= i < oldn.len() && #[trigger] oldn[i]@ == k;
                    assert(self.names@[i]@ == k);
                }
            }
        }
    }

    /// Records one handled request for the named endpoint, as one atomic
    /// update of its entry: see [`record_update`]. Returns whether the name
    /// was found; an unknown name leaves the registry untouched.
    pub fn record(&mut self, endpoint: &str, duration_nanos: u64, failure: Option<ServiceError>) -> (found: bool)
        requires
            old(self).wf(),
        ensures
            final(self).wf(),
            found == old(self)@.contains_key(endpoint@),
            final(self).order() == old(self).order(),
            !found ==> final(self)@ == old(self)@,
            found ==> final(self)@ == old(self)@.insert(
                endpoint@,
                record_update(old(self)@[endpoint@], duration_nanos, failure_view(failure)),
            ),
    {
        proof {
            lemma_view_is_table(*old(self));
        }
        let cur = match self.table.get(endpoint) {
            Option::Some(e) => e,
            Option::None => {
                return false;
            },
        };
        let new_requests: usize = if cur.requests == usize::MAX {
            cur.requests
        } else {
            cur.requests + 1
        };
        let new_errors: usize = if failure.is_some() {
            if cur.errors == usize::MAX {
                cur.errors
            } else {
                cur.errors + 1
            }
        } else {
            cur.errors
        };
        let new_total: u64 = if duration_nanos <= u64::MAX - cur.processing_time {
            cur.processing_time + duration_nanos
        } else {
            u64::MAX
        };
        let new_average: u64 = new_total / (new_requests as u64);
        let updated = Inner {
            kind: cur.kind.clone(),
            name: cur.name.clone(),
            subject: cur.subject.clone(),
            metadata: clone_metadata(&cur.metadata),
            requests: new_requests,
            errors: new_errors,
            processing_time: new_total,
            average_processing_time: new_average,
            last_error: match failure {
                Option::Some(f) => Option::Some(f),
                Option::None => clone_last_error(&cur.last_error),
            },
            data: cur.data.clone(),
            schema: clone_schema(&cur.schema),
        };
        proof {
            assert(updated@ =~= record_update(old(self)@[endpoint@], duration_nanos, failure_view(failure)));
        }
        let key = updated.name.clone();
        self.table.insert(key, updated);
        proof {
            lemma_view_is_table(*self);
            assert(self@ =~= old(self)@.insert(
                endpoint@,
                record_update(old(self)@[endpoint@], duration_nanos, failure_view(failure)),
            ));
            assert(self.order() == old(self).order());
        }
        true
    }

    /// A point-in-time copy of the named endpoint's counters, or `None` when
    /// no endpoint of that name is registered.
    pub fn snapshot(&self, endpoint: &str) -> (r: Option<Stats>)
        ensures
            (match r {
                Option::Some(s) => self@.contains_key(endpoint@) && s@ == self@[endpoint@].stats,
                Option::None => !self@.contains_key(endpoint@),
            }),
    {
        proof {
            lemma_view_is_table(*self);
        }
        match self.table.get(endpoint) {
            Option::Some(e) => Option::Some(Stats::from_entry(e)),
            Option::None => Option::None,
        }
    }

    /// Point-in-time copies of every registered endpoint's counters, in
    /// registration order.
    pub fn snapshot_all(&self) -> (r: Vec<Stats>)
        requires
            self.wf(),
        ensures
            r@.len() == self.order().len(),
            forall|i: int|
                0 <= i < r@.len() ==> self@.contains_key(self.order()[i]) && (#[trigger] r@[i])@
                    == self@[self.order()[i]].stats && r@[i]@.name == self.order()[i],
    {
        proof {
            lemma_view_is_table(*self);
        }
        let mut r: Vec<Stats> = Vec::new();
        let mut i: usize = 0;
        while i < self.names.len()
            invariant
                self.wf(),
                i <= self.names@.len(),
                r@.len() == i,
                forall|j: int|
                    0 <= j < i as int ==> self@.contains_key(self.order()[j]) && (#[trigger] r@[j])@
                        == self@[self.order()[j]].stats && r@[j]@.name == self.order()[j],
            decreases self.names@.len() - i,
        {
            proof {
                lemma_view_is_table(*self);
            }
            let name = &self.names[i];
            let entry = match self.table.get(name.as_str()) {
                Option::Some(e) => e,
                Option::None => vstd::pervasive::unreached(),
            };
            r.push(Stats::from_entry(entry));
            i += 1;
        }
        r
    }

    /// The number of registered endpoints.
    pub fn len(&self) -> (n: usize)
        requires
            self.wf(),
        ensures
            n == self.order().len(),
    {
        self.names.len()
    }

    /// In a well-formed registry the registration order lists exactly the
    /// registered names, each of them once.
    pub proof fn lemma_order_lists_registered(&self)
        requires
            self.wf(),
        ensures
            forall|i: int, j: int|
                0 <= i < j < self.order().len() ==> self.order()[i] != self.order()[j],
            forall|i: int| 0 <= i < self.order().len() ==> self@.contains_key(#[trigger] self.order()[i]),
            forall|k: Seq<char>| #[trigger] self@.contains_key(k) ==> self.order().contains(k),
    {
        lemma_view_is_table(*self);
        assert forall|k: Seq<char>| #[trigger] self@.contains_key(k) implies self.order().contains(k) by {
            let i = choose|i: int| 0 <= i < self.names@.len() && #[trigger] self.names@[i]@ == k;
            assert(self.order()[i] == k);
        }
    }

    /// Every entry of a well-formed registry obeys the counter invariant:
    /// its errors never exceed its requests, its stored average is exactly
    /// the recomputed one, and it is registered under its own name.
    pub proof fn lemma_entry_invariant(&self, k: Seq<char>)
        requires
            self.wf(),
            self@.contains_key(k),
        ensures
            self@[k].stats.errors <= self@[k].stats.requests,
            self@[k].stats.average_processing_time == average_of(
                self@[k].stats.processing_time,
                self@[k].stats.requests,
            ),
            self@[k].stats.name == k,
    {
        lemma_view_is_table(*self);
    }
}

/// The registry's view agrees with its table pointwise.
proof fn lemma_view_is_table(r: Endpoints)
    ensures
        forall|k: Seq<char>| #[trigger] r@.contains_key(k) == r.table@.contains_key(k),
        forall|k: Seq<char>| r.table@.contains_key(k) ==> #[trigger] r@[k] == r.table@[k]@,
{
    assert forall|k: Seq<char>| #[trigger] r@.contains_key(k) == r.table@.contains_key(k) by {
        assert(r@.dom() =~= r.table@.dom());
    }
}

} // verus!
