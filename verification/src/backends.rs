//! Backends: named fan-out targets, each a filter, a rewrite and a ring of
//! clients, and the registry that holds them by name.
//!
//! Filters are compiled and matched by the `regex` crate, always with its
//! default options. What is said of it here is assumed from its
//! documentation.

use crate::config::StatsdDuplicateTo;
use crate::counter::bump;
use crate::discovery::texts;
use crate::discovery::Update;
use crate::shard::compat_hash;
use crate::shard::slot_of;
use crate::shard::statsrelay_compat_hash;
use crate::shard::Ring;
use crate::statsd::Line;
use crate::statsd::StatsdPDU;
use crate::statsd_client::ClientTask;
use crate::statsd_client::StatsdClient;
use crate::statsd_client::SubmitError;
use crate::table::NameTable;
use regex::bytes::RegexSet;
use std::sync::atomic::AtomicU64;
use vstd::prelude::*;
use vstd::string::StringExecFns;
use vstd::utf8::encode_utf8;

verus! {

/// The capacity of the submission queue of every client that a backend makes.
pub const DEFAULT_QUEUE_CAPACITY: usize = 100000;

/// Every this many failed submissions of a backend, one is reported.
pub const WARN_EVERY: u64 = 1000;

/// `regex::bytes::RegexSet`, several patterns compiled into one matcher.
#[verifier::external_type_specification]
#[verifier::external_body]
pub struct ExRegexSet(RegexSet);

/// The patterns that a set was compiled from, in the order given. It stands
/// for a set that `RegexSet::new` compiled, that is, with the crate's default
/// options; the library makes no other.
pub uninterp spec fn regex_set_patterns(set: RegexSet) -> Seq<Seq<char>>;

/// Whether `RegexSet::new` accepts these patterns.
pub uninterp spec fn regex_set_compiles(patterns: Seq<Seq<char>>) -> bool;

/// Whether a set that `RegexSet::new` compiled from these patterns matches
/// the haystack, that is, whether one of its patterns matches somewhere in
/// it.
pub uninterp spec fn regex_set_is_match(patterns: Seq<Seq<char>>, haystack: Seq<u8>) -> bool;

/// `RegexSet::new` compiles the patterns into one set, or fails on a
/// pattern that it cannot compile. Whether it succeeds is assumed to depend
/// on the patterns alone; a set that it returns remembers them in order.
#[verifier::external_body]
fn compile_filters(patterns: &Vec<String>) -> (r: Option<RegexSet>)
    ensures
        r is Some <==> regex_set_compiles(texts(patterns@)),
        r matches Some(set) ==> regex_set_patterns(set) == texts(patterns@),
{
    match RegexSet::new(patterns) {
        Ok(set) => Some(set),
        Err(_) => None,
    }
}

/// `RegexSet::is_match` tells whether one of the patterns of the set matches
/// the haystack. For a set compiled with default options, the only kind that
/// reaches this function, the answer is assumed to depend on the patterns
/// and the haystack alone.
#[verifier::external_body]
fn set_matches(set: &RegexSet, haystack: &[u8]) -> (r: bool)
    ensures
        r == regex_set_is_match(regex_set_patterns(*set), haystack@),
{
    set.is_match(haystack)
}

/// Why a backend could not be put in place.
#[derive(Debug)]
pub enum BackendError {
    /// No backend stands at this index.
    InvalidIndex(usize),
    /// A filter pattern of the backend does not compile.
    InvalidFilter,
}

/// What became of one line at one backend.
#[derive(Debug, Clone, Copy, PartialEq, Eq, Structural)]
pub enum Delivery {
    /// The backend has a filter and the name does not match it.
    Filtered,
    /// The backend has no client to send to.
    NoShards,
    /// The renamed line would not fit in one allocation.
    Oversize,
    /// The client in this slot took the line.
    Submitted { slot: usize },
    /// The client in this slot refused the line. `failures` counts the
    /// refusals of this backend before this one; `warn` marks the ones to
    /// report.
    Dropped { slot: usize, failures: u64, warn: bool },
}

/// Where a backend sends a line.
pub enum Route {
    /// Nowhere: the filter does not let it pass.
    Filtered,
    /// Nowhere: the ring is empty.
    NoShards,
    /// Nowhere: the renamed line would be too large.
    Oversize,
    /// To the client in `slot`, as `line`.
    To { slot: int, line: Line },
}

/// A routed line, ready to be submitted.
pub enum Routed {
    Filtered,
    NoShards,
    Oversize,
    To { slot: usize, pdu: StatsdPDU },
}

impl View for Routed {
    type V = Route;

    open spec fn view(&self) -> Route {
        match *self {
            Routed::Filtered => Route::Filtered,
            Routed::NoShards => Route::NoShards,
            Routed::Oversize => Route::Oversize,
            Routed::To { slot, pdu } => Route::To { slot: slot as int, line: pdu@ },
        }
    }
}

impl Delivery {
    /// Whether this is a possible outcome of submitting along `route`: no
    /// submission where the route leads nowhere, else the route's slot, taken
    /// or refused, with every [`WARN_EVERY`]th refusal marked.
    pub open spec fn follows(self, route: Route) -> bool {
        match route {
            Route::Filtered => self == Delivery::Filtered,
            Route::NoShards => self == Delivery::NoShards,
            Route::Oversize => self == Delivery::Oversize,
            Route::To { slot, line } => match self {
                Delivery::Submitted { slot: taken } => taken == slot,
                Delivery::Dropped { slot: refused, failures, warn } => refused == slot && warn == (
                failures % WARN_EVERY == 0),
                _ => false,
            },
        }
    }
}

/// The outcome of a refused submission: every [`WARN_EVERY`]th refusal,
/// counted from the first, is marked for a warning.
pub fn refused(slot: usize, failures: u64) -> (r: Delivery)
    ensures
        r == (Delivery::Dropped { slot, failures, warn: failures % WARN_EVERY == 0 }),
{
    Delivery::Dropped { slot, failures, warn: failures % WARN_EVERY == 0 }
}

/// The outcome of a submission to `slot`, given what the queue answered and
/// how many refusals the backend had counted before.
pub fn settle(slot: usize, answer: Result<(), SubmitError>, failures: u64) -> (r: Delivery)
    ensures
        r == match answer {
            Ok(()) => Delivery::Submitted { slot },
            Err(_) => Delivery::Dropped { slot, failures, warn: failures % WARN_EVERY == 0 },
        },
{
    match answer {
        Ok(()) => Delivery::Submitted { slot },
        Err(_) => refused(slot, failures),
    }
}

/// The position of the first `name` in `list`, or the length of `list` where
/// it does not occur.
pub open spec fn position_of(list: Seq<Seq<char>>, name: Seq<char>) -> int
    decreases list.len(),
{
    if list.len() == 0 {
        0
    } else if list[0] == name {
        0
    } else {
        1 + position_of(list.drop_first(), name)
    }
}

/// [`position_of`] points at the first occurrence, or past the end where
/// there is none.
pub proof fn lemma_position_of(list: Seq<Seq<char>>, name: Seq<char>)
    ensures
        0 <= position_of(list, name) <= list.len(),
        forall|j: int| 0 <= j < position_of(list, name) ==> list[j] != name,
        position_of(list, name) < list.len() ==> list[position_of(list, name)] == name,
        position_of(list, name) < list.len() <==> list.contains(name),
    decreases list.len(),
{
    if list.len() != 0 && list[0] != name {
        let rest = list.drop_first();
        lemma_position_of(rest, name);
        assert forall|j: int| 0 <= j < position_of(list, name) implies list[j] != name by {
            if j > 0 {
                assert(list[j] == rest[j - 1]);
            }
        }
        if position_of(list, name) < list.len() {
            assert(list[position_of(list, name)] == rest[position_of(rest, name)]);
        }
    }
    let p = position_of(list, name);
    if p < list.len() {
        assert(list[p] == name);
    } else if list.contains(name) {
        let j = choose|j: int| 0 <= j < list.len() && list[j] == name;
        assert(list[j] == name);
    }
}

/// The endpoints of `map`, each once and in the order of their first
/// occurrence, that are not among `known`: those for which a client has to be
/// made.
pub open spec fn fresh_endpoints(map: Seq<Seq<char>>, known: Seq<Seq<char>>) -> Seq<Seq<char>>
    decreases map.len(),
{
    if map.len() == 0 {
        Seq::empty()
    } else {
        let before = fresh_endpoints(map.drop_last(), known);
        if known.contains(map.last()) || map.drop_last().contains(map.last()) {
            before
        } else {
            before.push(map.last())
        }
    }
}

/// Where every endpoint of a shard map is known already, no client has to be
/// made.
pub proof fn lemma_known_endpoints_need_no_client(map: Seq<Seq<char>>, known: Seq<Seq<char>>)
    requires
        forall|i: int| 0 <= i < map.len() ==> known.contains(map[i]),
    ensures
        fresh_endpoints(map, known) == Seq::<Seq<char>>::empty(),
    decreases map.len(),
{
    if map.len() > 0 {
        let init = map.drop_last();
        assert forall|i: int| 0 <= i < init.len() implies known.contains(init[i]) by {
            assert(init[i] == map[i]);
        }
        lemma_known_endpoints_need_no_client(init, known);
        assert(known.contains(map[map.len() - 1]));
    }
}

/// No endpoint for which a client is made was known before.
pub proof fn lemma_fresh_endpoints_are_new(map: Seq<Seq<char>>, known: Seq<Seq<char>>)
    ensures
        forall|i: int|
            0 <= i < fresh_endpoints(map, known).len() ==> !known.contains(
                #[trigger] fresh_endpoints(map, known)[i],
            ) && map.contains(fresh_endpoints(map, known)[i]),
        fresh_endpoints(map, known).no_duplicates(),
    decreases map.len(),
{
    if map.len() > 0 {
        let init = map.drop_last();
        lemma_fresh_endpoints_are_new(init, known);
        let before = fresh_endpoints(init, known);
        let all = fresh_endpoints(map, known);
        assert forall|i: int| 0 <= i < before.len() implies map.contains(before[i]) by {
            let k = choose|k: int| 0 <= k < init.len() && init[k] == before[i];
            assert(map[k] == before[i]);
        }
        assert(map[map.len() - 1] == map.last());
        if !(known.contains(map.last()) || init.contains(map.last())) {
            assert forall|i: int, j: int|
                0 <= i < all.len() && 0 <= j < all.len() && i != j implies all[i] != all[j] by {
                if i < before.len() && j < before.len() {
                } else if i < before.len() {
                    assert(init.contains(before[i]));
                } else {
                    assert(init.contains(before[j]));
                }
            }
        }
    }
}

/// The bytes of an optional affix: its encoding, or nothing.
pub open spec fn affix_bytes(affix: Option<String>) -> Seq<u8> {
    match affix {
        Some(text) => encode_utf8(text@),
        None => Seq::empty(),
    }
}

/// The patterns that a configuration filters by: the block list, then the
/// filter, each where it is set.
pub open spec fn filter_patterns(conf: StatsdDuplicateTo) -> Seq<Seq<char>> {
    let blocklist: Seq<Seq<char>> = match conf.input_blocklist {
        Some(pattern) => seq![pattern@],
        None => Seq::empty(),
    };
    let filter: Seq<Seq<char>> = match conf.input_filter {
        Some(pattern) => seq![pattern@],
        None => Seq::empty(),
    };
    blocklist + filter
}

/// The shard map that a backend is built for: the discovered one where there
/// is one, else the configured one.
pub open spec fn effective_shard_map(
    conf: StatsdDuplicateTo,
    discovered: Option<Seq<Seq<char>>>,
) -> Seq<Seq<char>> {
    match discovered {
        Some(hosts) => hosts,
        None => texts(conf.shard_map@),
    }
}

/// The endpoints of a sequence of clients.
pub open spec fn endpoints_of(clients: Seq<StatsdClient>) -> Seq<Seq<char>> {
    clients.map_values(|c: StatsdClient| c.endpoint_view())
}

/// How slot `i` of a new ring is filled for the shard map `map`, given the
/// clients `previous` of the backend that is replaced: by the client of an
/// earlier slot with the same endpoint; else by the first previous client of
/// that endpoint; else by a new client with the default queue capacity.
pub open spec fn slot_filled(
    map: Seq<Seq<char>>,
    previous: Seq<StatsdClient>,
    ring: Seq<StatsdClient>,
    i: int,
) -> bool {
    let endpoint = map[i];
    let earlier = position_of(map.take(i), endpoint);
    let before = position_of(endpoints_of(previous), endpoint);
    &&& ring[i].endpoint_view() == endpoint
    &&& if earlier < i {
        ring[i] == ring[earlier]
    } else if before < previous.len() {
        ring[i] == previous[before]
    } else {
        ring[i].capacity() == DEFAULT_QUEUE_CAPACITY
    }
}

/// A named fan-out target.
pub struct StatsdBackend {
    conf: StatsdDuplicateTo,
    ring: Ring<StatsdClient>,
    input_filter: Option<RegexSet>,
    warning_log: AtomicU64,
}

impl StatsdBackend {
    /// The clients of the ring, in slot order.
    pub closed spec fn clients(&self) -> Seq<StatsdClient> {
        self.ring@
    }

    /// The endpoints of the ring, in slot order.
    pub open spec fn endpoints(&self) -> Seq<Seq<char>> {
        endpoints_of(self.clients())
    }

    /// The patterns of the filter, or `None` where nothing is filtered.
    pub closed spec fn filter(&self) -> Option<Seq<Seq<char>>> {
        match self.input_filter {
            Some(set) => Some(regex_set_patterns(set)),
            None => None,
        }
    }

    /// The prefix put before names.
    pub closed spec fn prefix(&self) -> Option<String> {
        self.conf.prefix
    }

    /// The suffix put after names.
    pub closed spec fn suffix(&self) -> Option<String> {
        self.conf.suffix
    }

    /// Whether this backend is what building from `conf` gives, with
    /// `previous` the clients of the backend it replaces and `discovered` the
    /// discovered shard map: the filter holds the configured patterns, the
    /// affixes are the configured ones, the ring follows the effective shard
    /// map slot by slot, and every client comes from where [`slot_filled`]
    /// says.
    pub open spec fn built_from(
        &self,
        conf: StatsdDuplicateTo,
        previous: Seq<StatsdClient>,
        discovered: Option<Seq<Seq<char>>>,
    ) -> bool {
        let map = effective_shard_map(conf, discovered);
        &&& self.filter() == if filter_patterns(conf).len() > 0 {
            Some(filter_patterns(conf))
        } else {
            None
        }
        &&& self.prefix() == conf.prefix
        &&& self.suffix() == conf.suffix
        &&& self.clients().len() == map.len()
        &&& forall|i: int| 0 <= i < map.len() ==> slot_filled(map, previous, self.clients(), i)
    }

    /// Where this backend sends a line: nowhere if it filters and the name
    /// matches none of its patterns, or if its ring is empty; else to the
    /// slot that the name's hash selects (code `1` in a ring of one), under
    /// the configured affixes if there are any.
    pub open spec fn route(&self, line: Line) -> Route {
        let n = self.clients().len();
        if self.filter() matches Some(patterns) && !regex_set_is_match(patterns, line.name) {
            Route::Filtered
        } else if n == 0 {
            Route::NoShards
        } else {
            let code: u32 = if n == 1 {
                1
            } else {
                compat_hash(line.name)
            };
            let slot = slot_of(code, n);
            if self.prefix() is None && self.suffix() is None {
                Route::To { slot, line }
            } else {
                let prefix = affix_bytes(self.prefix());
                let suffix = affix_bytes(self.suffix());
                if line.wire().len() + prefix.len() + suffix.len() > isize::MAX {
                    Route::Oversize
                } else {
                    Route::To { slot, line: line.with_affixes(prefix, suffix) }
                }
            }
        }
    }
}

/// The endpoints of a sequence of tasks.
pub open spec fn task_endpoints(tasks: Seq<ClientTask>) -> Seq<Seq<char>> {
    tasks.map_values(|t: ClientTask| t.endpoint@)
}

/// The clients of the backend that is being replaced, none where there is no
/// such backend.
pub open spec fn previous_clients(previous: Option<StatsdBackend>) -> Seq<StatsdClient> {
    match previous {
        Some(backend) => backend.clients(),
        None => Seq::empty(),
    }
}

/// The hosts of a discovery update, where there is one.
pub open spec fn discovered_hosts(update: Option<&Update>) -> Option<Seq<Seq<char>>> {
    match update {
        Some(update) => Some(update@),
        None => None,
    }
}

/// Finds the first slot of `ring` whose client serves `endpoint`.
fn find_slot(ring: &Ring<StatsdClient>, endpoint: &String) -> (r: Option<usize>)
    ensures
        match r {
            Some(k) => k < ring@.len() && k == position_of(endpoints_of(ring@), endpoint@),
            None => position_of(endpoints_of(ring@), endpoint@) == ring@.len(),
        },
{
    let ghost names = endpoints_of(ring@);
    proof {
        lemma_position_of(names, endpoint@);
    }
    let n = ring.len();
    let mut k: usize = 0;
    while k < n
        invariant
            n == ring@.len(),
            names == endpoints_of(ring@),
            0 <= k <= n,
            forall|j: int| 0 <= j < k ==> names[j] != endpoint@,
            0 <= position_of(names, endpoint@) <= names.len(),
            forall|j: int| 0 <= j < position_of(names, endpoint@) ==> names[j] != endpoint@,
            position_of(names, endpoint@) < names.len() ==> names[position_of(names, endpoint@)]
                == endpoint@,
        decreases n - k,
    {
        if ring.member_at(k).serves(endpoint) {
            assert(names[k as int] == endpoint@);
            return Some(k);
        }
        assert(names[k as int] != endpoint@);
        k += 1;
    }
    None
}

impl StatsdBackend {
    /// Builds a backend from its configuration.
    ///
    /// The filter is compiled from the block list and the filter pattern,
    /// where they are set. The ring follows the discovered shard map where
    /// one is given, else the configured one, in order and with repetitions.
    /// A client of `client_ref` is used again for each endpoint that it
    /// serves; for every other endpoint one client is made, and the work to
    /// start for it is returned.
    ///
    /// Fails, making nothing, exactly when there are patterns and they do not
    /// compile.
    pub fn new(
        conf: &StatsdDuplicateTo,
        client_ref: Option<&StatsdBackend>,
        discovery_update: Option<&Update>,
    ) -> (r: Result<(StatsdBackend, Vec<ClientTask>), BackendError>)
        ensures
            r is Ok <==> (filter_patterns(*conf).len() == 0 || regex_set_compiles(
                filter_patterns(*conf),
            )),
            r matches Err(e) ==> e is InvalidFilter,
            r matches Ok(made) ==> {
                let previous = previous_clients(
                    match client_ref {
                        Some(backend) => Some(*backend),
                        None => None,
                    },
                );
                let discovered = discovered_hosts(discovery_update);
                &&& made.0.built_from(*conf, previous, discovered)
                &&& task_endpoints(made.1@) == fresh_endpoints(
                    effective_shard_map(*conf, discovered),
                    endpoints_of(previous),
                )
            },
    {
        let mut filters: Vec<String> = Vec::new();
        if let Some(pattern) = &conf.input_blocklist {
            filters.push(pattern.clone());
        }
        if let Some(pattern) = &conf.input_filter {
            filters.push(pattern.clone());
        }
        assert(texts(filters@) =~= filter_patterns(*conf));
        let input_filter = if filters.len() > 0 {
            match compile_filters(&filters) {
                Some(set) => Some(set),
                None => {
                    return Err(BackendError::InvalidFilter);
                },
            }
        } else {
            None
        };
        let use_endpoints: &Vec<String> = match discovery_update {
            Some(update) => update.sources(),
            None => &conf.shard_map,
        };
        let ghost map = effective_shard_map(*conf, discovered_hosts(discovery_update));
        let ghost previous = previous_clients(
            match client_ref {
                Some(backend) => Some(*backend),
                None => None,
            },
        );
        let ghost known = endpoints_of(previous);
        assert(map == texts(use_endpoints@));
        let mut ring: Ring<StatsdClient> = Ring::new();
        let mut tasks: Vec<ClientTask> = Vec::new();
        let mut i: usize = 0;
        assert(task_endpoints(tasks@) =~= Seq::<Seq<char>>::empty());
        assert(map.take(0) =~= Seq::<Seq<char>>::empty());
        assert(endpoints_of(ring@) =~= map.take(0));
        while i < use_endpoints.len()
            invariant
                map == texts(use_endpoints@),
                previous == previous_clients(
                    match client_ref {
                        Some(backend) => Some(*backend),
                        None => None,
                    },
                ),
                known == endpoints_of(previous),
                0 <= i <= use_endpoints@.len(),
                ring@.len() == i,
                endpoints_of(ring@) == map.take(i as int),
                forall|k: int| 0 <= k < i ==> slot_filled(map, previous, ring@, k),
                task_endpoints(tasks@) == fresh_endpoints(map.take(i as int), known),
            decreases use_endpoints@.len() - i,
        {
            let endpoint = &use_endpoints[i];
            let ghost filled = ring@;
            let ghost started = tasks@;
            assert(map[i as int] == endpoint@);
            proof {
                lemma_position_of(map.take(i as int), endpoint@);
                lemma_position_of(known, endpoint@);
                assert(map.take(i + 1).drop_last() =~= map.take(i as int));
                assert(map.take(i + 1).last() == endpoint@);
            }
            let earlier = find_slot(&ring, endpoint);
            let client = match earlier {
                Some(k) => ring.member_at(k).clone(),
                None => {
                    let reused = match client_ref {
                        Some(backend) => match find_slot(&backend.ring, endpoint) {
                            Some(j) => Some(backend.ring.member_at(j).clone()),
                            None => None,
                        },
                        None => None,
                    };
                    match reused {
                        Some(client) => client,
                        None => {
                            let (client, task) = StatsdClient::new(
                                endpoint.as_str(),
                                DEFAULT_QUEUE_CAPACITY,
                            );
                            tasks.push(task);
                            assert(task_endpoints(tasks@) =~= task_endpoints(started).push(
                                endpoint@,
                            ));
                            client
                        },
                    }
                },
            };
            ring.push(client);
            assert(endpoints_of(ring@) =~= map.take(i + 1));
            assert forall|k: int| 0 <= k < i + 1 implies slot_filled(map, previous, ring@, k) by {
                if k < i {
                    assert(slot_filled(map, previous, filled, k));
                    assert(ring@[k] == filled[k]);
                    let e = position_of(map.take(k), map[k]);
                    lemma_position_of(map.take(k), map[k]);
                    if e < k {
                        assert(ring@[e] == filled[e]);
                    }
                }
            }
            i += 1;
        }
        assert(map.take(i as int) =~= map);
        let backend = StatsdBackend {
            conf: conf.clone(),
            ring,
            input_filter,
            warning_log: AtomicU64::new(0),
        };
        Ok((backend, tasks))
    }

    /// The number of slots of the ring.
    pub fn shards(&self) -> (r: usize)
        ensures
            r == self.clients().len(),
    {
        self.ring.len()
    }

    /// The client in slot `slot`.
    pub fn client_at(&self, slot: usize) -> (r: &StatsdClient)
        requires
            slot < self.clients().len(),
        ensures
            *r == self.clients()[slot as int],
    {
        self.ring.member_at(slot)
    }

    /// Decides where a line goes, and renames it for the way.
    pub fn route_pdu(&self, pdu: &StatsdPDU) -> (r: Routed)
        ensures
            r@ == self.route(pdu@),
    {
        if let Some(set) = &self.input_filter {
            if !set_matches(set, pdu.name()) {
                return Routed::Filtered;
            }
        }
        let n = self.ring.len();
        if n == 0 {
            return Routed::NoShards;
        }
        let code: u32 = if n == 1 {
            1
        } else {
            statsrelay_compat_hash(pdu)
        };
        let slot = code as usize % n;
        if self.conf.prefix.is_none() && self.conf.suffix.is_none() {
            return Routed::To { slot, pdu: pdu.clone() };
        }
        let nothing: &[u8] = &[];
        assert(nothing@ =~= Seq::<u8>::empty());
        let prefix: &[u8] = match &self.conf.prefix {
            Some(text) => text.as_str().as_bytes(),
            None => nothing,
        };
        let suffix: &[u8] = match &self.conf.suffix {
            Some(text) => text.as_str().as_bytes(),
            None => nothing,
        };
        assert(prefix@ == affix_bytes(self.prefix()));
        assert(suffix@ == affix_bytes(self.suffix()));
        let limit = isize::MAX as usize;
        if prefix.len() > limit || suffix.len() > limit - prefix.len() || pdu.len() > limit
            - prefix.len() - suffix.len() {
            return Routed::Oversize;
        }
        Routed::To { slot, pdu: pdu.with_prefix_suffix(prefix, suffix) }
    }

    /// Sends a line on its way: routes it and offers it to the client that
    /// the route names. A refusal is counted.
    pub fn provide_statsd_pdu(&self, pdu: &StatsdPDU) -> (r: Delivery)
        ensures
            r.follows(self.route(pdu@)),
    {
        match self.route_pdu(pdu) {
            Routed::Filtered => Delivery::Filtered,
            Routed::NoShards => Delivery::NoShards,
            Routed::Oversize => Delivery::Oversize,
            Routed::To { slot, pdu: renamed } => {
                let client = self.ring.member_at(slot);
                match client.try_submit(renamed) {
                    Ok(()) => settle(slot, Ok(()), 0),
                    Err(refusal) => settle(slot, Err(refusal), bump(&self.warning_log)),
                }
            },
        }
    }
}

/// In a ring of one, every line that passes the filter goes to slot `0`,
/// whatever its name; with an empty ring every such line goes nowhere.
pub proof fn lemma_small_rings(backend: StatsdBackend, line: Line)
    requires
        backend.route(line) !is Filtered,
    ensures
        backend.clients().len() == 0 ==> backend.route(line) is NoShards,
        backend.clients().len() == 1 ==> backend.route(line) is Oversize || (backend.route(
            line,
        ) matches Route::To { slot, .. } && slot == 0),
{
}

/// A backend without a filter lets every line pass; one with a filter lets
/// pass exactly the lines whose name its pattern set matches.
pub proof fn lemma_filter_semantics(backend: StatsdBackend, line: Line)
    ensures
        backend.filter() is None ==> backend.route(line) !is Filtered,
        backend.filter() matches Some(patterns) ==> (backend.route(line) is Filtered
            <==> !regex_set_is_match(patterns, line.name)),
{
}

/// A line that is sent on carries the backend's affixes around its name and
/// is otherwise unchanged.
pub proof fn lemma_route_renames(backend: StatsdBackend, line: Line)
    ensures
        backend.route(line) matches Route::To { line: sent, .. } ==> {
            &&& sent.name == affix_bytes(backend.prefix()) + line.name + affix_bytes(
                backend.suffix(),
            )
            &&& sent.value == line.value
            &&& sent.kind == line.kind
            &&& sent.trailer == line.trailer
        },
{
    if backend.route(line) is To {
        if backend.prefix() is None && backend.suffix() is None {
            assert(Seq::<u8>::empty() + line.name + Seq::<u8>::empty() =~= line.name);
        }
    }
}

/// A backend rebuilt over a shard map keeps, for every endpoint that the
/// replaced backend served, a client of the replaced backend, and makes
/// clients only for endpoints that it did not serve.
pub proof fn lemma_rebuild_reuses_clients(
    backend: StatsdBackend,
    conf: StatsdDuplicateTo,
    previous: Seq<StatsdClient>,
    discovered: Option<Seq<Seq<char>>>,
    i: int,
)
    requires
        backend.built_from(conf, previous, discovered),
        0 <= i < effective_shard_map(conf, discovered).len(),
        endpoints_of(previous).contains(effective_shard_map(conf, discovered)[i]),
    ensures
        exists|j: int|
            0 <= j < previous.len() && #[trigger] previous[j] == backend.clients()[i]
                && previous[j].endpoint_view() == effective_shard_map(conf, discovered)[i],
    decreases i,
{
    let map = effective_shard_map(conf, discovered);
    let endpoint = map[i];
    assert(slot_filled(map, previous, backend.clients(), i));
    lemma_position_of(map.take(i), endpoint);
    lemma_position_of(endpoints_of(previous), endpoint);
    let earlier = position_of(map.take(i), endpoint);
    if earlier < i {
        assert(map[earlier] == map.take(i)[earlier]);
        lemma_rebuild_reuses_clients(backend, conf, previous, discovered, earlier);
    } else {
        let before = position_of(endpoints_of(previous), endpoint);
        assert(previous[before] == backend.clients()[i]);
        assert(endpoints_of(previous)[before] == previous[before].endpoint_view());
    }
}

/// The backends by name.
pub struct Backends {
    statsd: NameTable<StatsdBackend>,
}

impl Backends {
    /// The names of the backends, in the order in which they were first put
    /// in place.
    pub closed spec fn names(&self) -> Seq<Seq<char>> {
        self.statsd.names()
    }

    /// The backends; `backends()[i]` is the one named `names()[i]`.
    pub closed spec fn backends(&self) -> Seq<StatsdBackend> {
        self.statsd.values()
    }

    /// The backend named `name`, if there is one.
    pub open spec fn backend(&self, name: Seq<char>) -> Option<StatsdBackend> {
        if self.names().contains(name) {
            Some(self.backends()[self.names().index_of(name)])
        } else {
            None
        }
    }

    /// What holds of every registry: each name stands for one backend.
    pub open spec fn wf(&self) -> bool {
        &&& self.names().len() == self.backends().len()
        &&& self.names().no_duplicates()
    }

    /// A registry without backends.
    pub fn new() -> (r: Self)
        ensures
            r.names() == Seq::<Seq<char>>::empty(),
            r.backends() == Seq::<StatsdBackend>::empty(),
    {
        Backends { statsd: NameTable::new() }
    }

    /// Puts the backend built from `c` in place under `name`, instead of the
    /// one that stands there, whose clients it takes over as far as the new
    /// shard map names their endpoints. Returned is the work to start for the
    /// clients that had to be made. Other backends are not touched.
    ///
    /// Fails exactly when `c` has filter patterns that do not compile; the
    /// registry is then as it was.
    pub fn replace_statsd_backend(
        &mut self,
        name: &String,
        c: &StatsdDuplicateTo,
        discovery_update: Option<&Update>,
    ) -> (r: Result<Vec<ClientTask>, BackendError>)
        ensures
            final(self).wf(),
            r is Ok <==> (filter_patterns(*c).len() == 0 || regex_set_compiles(filter_patterns(*c))),
            r matches Err(e) ==> {
                &&& e is InvalidFilter
                &&& final(self).names() == old(self).names()
                &&& final(self).backends() == old(self).backends()
            },
            r matches Ok(tasks) ==> {
                let previous = previous_clients(old(self).backend(name@));
                let discovered = discovered_hosts(discovery_update);
                &&& final(self).backend(name@) matches Some(backend) && backend.built_from(
                    *c,
                    previous,
                    discovered,
                )
                &&& task_endpoints(tasks@) == fresh_endpoints(
                    effective_shard_map(*c, discovered),
                    endpoints_of(previous),
                )
                &&& final(self).names() == if old(self).names().contains(name@) {
                    old(self).names()
                } else {
                    old(self).names().push(name@)
                }
                &&& forall|other: Seq<char>|
                    other != name@ ==> final(self).backend(other) == old(self).backend(other)
            },
    {
        let ghost before = self.statsd;
        let previous = self.statsd.get(name);
        assert(previous_clients(
            match previous {
                Some(backend) => Some(*backend),
                None => None,
            },
        ) == previous_clients(old(self).backend(name@)));
        let made = StatsdBackend::new(c, previous, discovery_update);
        match made {
            Err(e) => {
                proof {
                    use_type_invariant(&self.statsd);
                }
                Err(e)
            },
            Ok((backend, tasks)) => {
                self.statsd.insert(name.clone(), backend);
                proof {
                    use_type_invariant(&self.statsd);
                }
                assert(self.statsd.lookup(name@) == Some(backend));
                assert(self.backend(name@) == Some(backend));
                assert forall|other: Seq<char>| other != name@ implies self.backend(other) == old(
                    self,
                ).backend(other) by {
                    assert(self.statsd.lookup(other) == before.lookup(other));
                }
                Ok(tasks)
            },
        }
    }

    /// Takes the backend named `name` out, if there is one. Its clients go
    /// with it unless another backend holds them too. Other backends are not
    /// touched.
    pub fn remove_statsd_backend(&mut self, name: &String) -> (r: Result<(), BackendError>)
        ensures
            r is Ok,
            final(self).wf(),
            final(self).backend(name@) is None,
            final(self).names() == if old(self).names().contains(name@) {
                old(self).names().remove(old(self).names().index_of(name@))
            } else {
                old(self).names()
            },
            forall|other: Seq<char>|
                other != name@ ==> final(self).backend(other) == old(self).backend(other),
    {
        let ghost before = self.statsd;
        let _gone = self.statsd.remove(name);
        proof {
            use_type_invariant(&self.statsd);
        }
        assert forall|other: Seq<char>| other != name@ implies self.backend(other) == old(
            self,
        ).backend(other) by {
            assert(self.statsd.lookup(other) == before.lookup(other));
        }
        Ok(())
    }

    /// The names of the backends.
    pub fn backend_names(&self) -> (r: Vec<String>)
        ensures
            texts(r@) == self.names(),
            self.wf(),
    {
        let n = self.statsd.len();
        let mut names: Vec<String> = Vec::new();
        let mut i: usize = 0;
        while i < n
            invariant
                n == self.statsd.names().len(),
                0 <= i <= n,
                names@.len() == i,
                texts(names@) == self.statsd.names().take(i as int),
            decreases n - i,
        {
            let ghost listed = names@;
            let name = self.statsd.name_at(i).clone();
            names.push(name);
            assert forall|k: int| 0 <= k < i + 1 implies texts(names@)[k]
                == self.statsd.names()[k] by {
                if k < i {
                    assert(texts(listed)[k] == self.statsd.names().take(i as int)[k]);
                    assert(names@[k] == listed[k]);
                }
            }
            assert(texts(names@) =~= self.statsd.names().take(i + 1));
            i += 1;
        }
        assert(self.statsd.names().take(n as int) =~= self.statsd.names());
        names
    }

    /// The number of backends.
    pub fn len(&self) -> (r: usize)
        ensures
            r == self.names().len(),
            self.wf(),
    {
        self.statsd.len()
    }

    /// Whether a backend called `name` is in place.
    pub fn has_backend(&self, name: &String) -> (r: bool)
        ensures
            r == self.names().contains(name@),
    {
        self.statsd.position(name).is_some()
    }

    /// The endpoint of the client in slot `slot` of the backend at position
    /// `index`, where there is such a backend and such a slot.
    pub fn endpoint_at(&self, index: usize, slot: usize) -> (r: Option<String>)
        ensures
            match r {
                Some(endpoint) => index < self.backends().len() && slot < self.backends()[index as int].clients().len()
                    && endpoint@ == self.backends()[index as int].endpoints()[slot as int],
                None => index >= self.backends().len() || slot >= self.backends()[index as int].clients().len(),
            },
    {
        if index >= self.statsd.len() {
            return None;
        }
        let backend = self.statsd.value_at(index);
        if slot >= backend.shards() {
            return None;
        }
        Some(String::from_str(backend.client_at(slot).endpoint()))
    }

    /// Whether `outcomes` is what offering `line` to every backend may give:
    /// one outcome for each backend, in the order of [`Backends::names`], each
    /// following the route that the backend chooses for the line.
    pub open spec fn offered(&self, line: Line, outcomes: Seq<Delivery>) -> bool {
        &&& outcomes.len() == self.backends().len()
        &&& forall|i: int|
            0 <= i < outcomes.len() ==> (#[trigger] outcomes[i]).follows(
                self.backends()[i].route(line),
            )
    }

    /// Offers a line to every backend. Returned is what became of it at each,
    /// in the order of [`Backends::names`].
    pub fn provide_statsd_pdu(&self, pdu: StatsdPDU) -> (r: Vec<Delivery>)
        ensures
            self.offered(pdu@, r@),
    {
        let n = self.statsd.len();
        let mut outcomes: Vec<Delivery> = Vec::new();
        let mut i: usize = 0;
        while i < n
            invariant
                n == self.statsd.values().len(),
                0 <= i <= n,
                outcomes@.len() == i,
                forall|k: int|
                    0 <= k < i ==> (#[trigger] outcomes@[k]).follows(
                        self.statsd.values()[k].route(pdu@),
                    ),
            decreases n - i,
        {
            let outcome = self.statsd.value_at(i).provide_statsd_pdu(&pdu);
            outcomes.push(outcome);
            i += 1;
        }
        outcomes
    }
}

} // verus!
