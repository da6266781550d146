//! Bringing the registry of backends in line with a configuration and with
//! what discovery has found.

use crate::backends::effective_shard_map;
use crate::backends::endpoints_of;
use crate::backends::filter_patterns;
use crate::backends::fresh_endpoints;
use crate::backends::previous_clients;
use crate::backends::regex_set_compiles;
use crate::backends::task_endpoints;
use crate::backends::Backends;
use crate::backends::StatsdBackend;
use crate::config::Config;
use crate::config::StatsdDuplicateTo;
use crate::discovery::texts;
use crate::discovery::Cache;
use crate::statsd_client::ClientTask;
use vstd::prelude::*;

verus! {

/// The shard map that discovery holds for a backend: the cached update of
/// the source that the backend names, if it names one and one is cached.
pub open spec fn discovered_for(backend: StatsdDuplicateTo, cache: &Cache) -> Option<
    Seq<Seq<char>>,
> {
    match backend.shard_map_source {
        Some(source) => cache.lookup(source@),
        None => None,
    }
}

/// Whether a backend can be built from this configuration: it has no filter
/// patterns, or they compile.
pub open spec fn buildable(backend: StatsdDuplicateTo) -> bool {
    filter_patterns(backend).len() == 0 || regex_set_compiles(filter_patterns(backend))
}

/// What a reload makes of one configured backend: where it can be built,
/// `after` is the backend built from the configuration, the discovered shard
/// map and the clients of `before`; where it cannot, `after` is `before`.
pub open spec fn reloaded(
    before: Option<StatsdBackend>,
    after: Option<StatsdBackend>,
    backend: StatsdDuplicateTo,
    cache: &Cache,
) -> bool {
    if buildable(backend) {
        after matches Some(built) && built.built_from(
            backend,
            previous_clients(before),
            discovered_for(backend, cache),
        )
    } else {
        after == before
    }
}

/// The endpoints for which a reload makes clients while it deals with the
/// first `n` configured backends, in order.
pub open spec fn started_upto(
    before: &Backends,
    names: Seq<Seq<char>>,
    backends: Seq<StatsdDuplicateTo>,
    cache: &Cache,
    n: int,
) -> Seq<Seq<char>>
    decreases n,
{
    if n <= 0 {
        Seq::empty()
    } else {
        let backend = backends[n - 1];
        let earlier = started_upto(before, names, backends, cache, n - 1);
        if buildable(backend) {
            earlier + fresh_endpoints(
                effective_shard_map(backend, discovered_for(backend, cache)),
                endpoints_of(previous_clients(before.backend(names[n - 1]))),
            )
        } else {
            earlier
        }
    }
}

/// The names of the first `n` configured backends that cannot be built, in
/// order.
pub open spec fn unbuildable_upto(
    names: Seq<Seq<char>>,
    backends: Seq<StatsdDuplicateTo>,
    n: int,
) -> Seq<Seq<char>>
    decreases n,
{
    if n <= 0 {
        Seq::empty()
    } else {
        let earlier = unbuildable_upto(names, backends, n - 1);
        if buildable(backends[n - 1]) {
            earlier
        } else {
            earlier.push(names[n - 1])
        }
    }
}

/// The first `n` names of `existing` that are not among `configured`, in
/// order.
pub open spec fn unnamed_upto(
    existing: Seq<Seq<char>>,
    configured: Seq<Seq<char>>,
    n: int,
) -> Seq<Seq<char>>
    decreases n,
{
    if n <= 0 {
        Seq::empty()
    } else {
        let earlier = unnamed_upto(existing, configured, n - 1);
        if configured.contains(existing[n - 1]) {
            earlier
        } else {
            earlier.push(existing[n - 1])
        }
    }
}

/// Names that agree on their first `n` places give the same unnamed ones
/// there.
proof fn lemma_unnamed_agree(
    left: Seq<Seq<char>>,
    right: Seq<Seq<char>>,
    configured: Seq<Seq<char>>,
    n: int,
)
    requires
        0 <= n <= left.len(),
        n <= right.len(),
        forall|m: int| 0 <= m < n ==> left[m] == right[m],
    ensures
        unnamed_upto(left, configured, n) == unnamed_upto(right, configured, n),
    decreases n,
{
    if n > 0 {
        lemma_unnamed_agree(left, right, configured, n - 1);
    }
}

/// Names that are all configured from place `from` on add nothing to the
/// unnamed ones.
proof fn lemma_unnamed_tail(
    existing: Seq<Seq<char>>,
    configured: Seq<Seq<char>>,
    from: int,
    n: int,
)
    requires
        0 <= from <= n <= existing.len(),
        forall|m: int| from <= m < n ==> configured.contains(existing[m]),
    ensures
        unnamed_upto(existing, configured, n) == unnamed_upto(existing, configured, from),
    decreases n - from,
{
    if n > from {
        lemma_unnamed_tail(existing, configured, from, n - 1);
    }
}

/// What a reload did.
pub struct ReloadReport {
    /// The work to start for the clients that were made.
    pub started: Vec<ClientTask>,
    /// The configured backends that could not be built and were left as they
    /// were.
    pub failed: Vec<String>,
    /// The backends that were taken out because the configuration does not
    /// name them.
    pub removed: Vec<String>,
}

/// Brings the registry in line with a configuration.
///
/// Every configured backend is rebuilt, from its discovered shard map where
/// the cache holds one for its source and from its configured one otherwise,
/// taking over the clients of the backend that stood under its name. A
/// backend that cannot be built is left as it was. Backends that the
/// configuration does not name are taken out. The report lists, each in
/// order, the endpoints for which clients were made, the configured backends
/// that could not be built, and the backends that were taken out.
pub fn reconcile(backends: &mut Backends, config: &Config, cache: &Cache) -> (r: ReloadReport)
    ensures
        final(backends).wf(),
        forall|i: int|
            0 <= i < config.statsd.backends.names().len() ==> reloaded(
                old(backends).backend(#[trigger] config.statsd.backends.names()[i]),
                final(backends).backend(config.statsd.backends.names()[i]),
                config.statsd.backends.values()[i],
                cache,
            ),
        forall|name: Seq<char>|
            !config.statsd.backends.contains(name) ==> final(backends).backend(name) is None,
        task_endpoints(r.started@) == started_upto(
            old(backends),
            config.statsd.backends.names(),
            config.statsd.backends.values(),
            cache,
            config.statsd.backends.names().len() as int,
        ),
        texts(r.failed@) == unbuildable_upto(
            config.statsd.backends.names(),
            config.statsd.backends.values(),
            config.statsd.backends.names().len() as int,
        ),
        texts(r.removed@) == unnamed_upto(
            old(backends).names(),
            config.statsd.backends.names(),
            old(backends).names().len() as int,
        ),
{
    let table = &config.statsd.backends;
    let n = table.len();
    let ghost names = table.names();
    let ghost values = table.values();
    let ghost before = *backends;
    let ghost held = before.names().len() as int;
    let mut started: Vec<ClientTask> = Vec::new();
    let mut failed: Vec<String> = Vec::new();
    let mut i: usize = 0;
    assert(task_endpoints(started@) =~= Seq::<Seq<char>>::empty());
    assert(texts(failed@) =~= Seq::<Seq<char>>::empty());
    while i < n
        invariant
            table == &config.statsd.backends,
            names == table.names(),
            values == table.values(),
            n == names.len(),
            n == values.len(),
            names.no_duplicates(),
            before == *old(backends),
            held == before.names().len(),
            0 <= i <= n,
            forall|k: int|
                0 <= k < i ==> reloaded(
                    before.backend(#[trigger] names[k]),
                    backends.backend(names[k]),
                    values[k],
                    cache,
                ),
            forall|name: Seq<char>|
                !names.take(i as int).contains(name) ==> backends.backend(name)
                    == before.backend(name),
            task_endpoints(started@) == started_upto(&before, names, values, cache, i as int),
            texts(failed@) == unbuildable_upto(names, values, i as int),
            backends.names().len() >= held,
            forall|m: int| 0 <= m < held ==> backends.names()[m] == before.names()[m],
            forall|m: int|
                held <= m < backends.names().len() ==> names.contains(
                    #[trigger] backends.names()[m],
                ),
        decreases n - i,
    {
        let name = table.name_at(i);
        let dp = table.value_at(i);
        let ghost so_far = *backends;
        let ghost tasks_so_far = started@;
        let ghost failed_so_far = failed@;
        let discovery_data = match &dp.shard_map_source {
            Some(discovery_name) => cache.get(discovery_name),
            None => None,
        };
        assert(!names.take(i as int).contains(names[i as int])) by {
            if names.take(i as int).contains(names[i as int]) {
                let k = choose|k: int|
                    0 <= k < names.take(i as int).len() && names.take(i as int)[k] == names[i as int];
                assert(names[k] == names[i as int]);
            }
        }
        assert(so_far.backend(name@) == before.backend(name@));
        let outcome = match &discovery_data {
            Some(update) => backends.replace_statsd_backend(name, dp, Some(update)),
            None => backends.replace_statsd_backend(name, dp, None),
        };
        match outcome {
            Ok(mut tasks) => {
                let ghost made = tasks@;
                started.append(&mut tasks);
                assert(task_endpoints(started@) =~= task_endpoints(tasks_so_far) + task_endpoints(
                    made,
                ));
            },
            Err(_) => {
                failed.push(name.clone());
                assert(texts(failed@) =~= texts(failed_so_far).push(name@));
            },
        }
        assert forall|m: int| held <= m < backends.names().len() implies names.contains(
            #[trigger] backends.names()[m],
        ) by {
            if m < so_far.names().len() {
                assert(backends.names()[m] == so_far.names()[m]);
            } else {
                assert(backends.names()[m] == names[i as int]);
            }
        }
        assert forall|k: int| 0 <= k < i + 1 implies reloaded(
            before.backend(#[trigger] names[k]),
            backends.backend(names[k]),
            values[k],
            cache,
        ) by {
            if k < i {
                assert(names[k] != names[i as int]);
                assert(backends.backend(names[k]) == so_far.backend(names[k]));
            }
        }
        assert forall|other: Seq<char>| !names.take(i + 1).contains(other) implies backends.backend(
            other,
        ) == before.backend(other) by {
            assert(names.take(i + 1)[i as int] == names[i as int]);
            assert(other != names[i as int]);
            if names.take(i as int).contains(other) {
                let k = choose|k: int|
                    0 <= k < names.take(i as int).len() && names.take(i as int)[k] == other;
                assert(names.take(i + 1)[k] == other);
            }
            assert(backends.backend(other) == so_far.backend(other));
        }
        i += 1;
    }
    assert(names.take(n as int) =~= names);
    let ghost rebuilt = *backends;
    let existing = backends.backend_names();
    let mut removed: Vec<String> = Vec::new();
    let mut j: usize = 0;
    assert(texts(removed@) =~= Seq::<Seq<char>>::empty());
    while j < existing.len()
        invariant
            table == &config.statsd.backends,
            names == table.names(),
            texts(existing@) == rebuilt.names(),
            texts(existing@).len() == existing@.len(),
            rebuilt.wf(),
            0 <= j <= existing@.len(),
            backends.wf(),
            forall|name: Seq<char>|
                #[trigger] backends.backend(name) == if texts(existing@).take(j as int).contains(
                    name,
                ) && !names.contains(name) {
                    None
                } else {
                    rebuilt.backend(name)
                },
            texts(removed@) == unnamed_upto(rebuilt.names(), names, j as int),
        decreases existing@.len() - j,
    {
        let candidate = &existing[j];
        let ghost so_far = *backends;
        let ghost removed_so_far = removed@;
        assert(texts(existing@)[j as int] == candidate@);
        if table.position(candidate).is_none() {
            let _gone = backends.remove_statsd_backend(candidate);
            removed.push(candidate.clone());
            assert(texts(removed@) =~= texts(removed_so_far).push(candidate@));
        }
        assert forall|name: Seq<char>|
            #[trigger] backends.backend(name) == if texts(existing@).take(j + 1).contains(name)
                && !names.contains(name) {
                None
            } else {
                rebuilt.backend(name)
            } by {
            let shorter = texts(existing@).take(j as int);
            let longer = texts(existing@).take(j + 1);
            assert(longer[j as int] == candidate@);
            assert(so_far.backend(name) == if shorter.contains(name) && !names.contains(name) {
                None
            } else {
                rebuilt.backend(name)
            });
            if shorter.contains(name) {
                let k = choose|k: int| 0 <= k < shorter.len() && shorter[k] == name;
                assert(longer[k] == name);
            }
            if longer.contains(name) && name != candidate@ {
                let k = choose|k: int| 0 <= k < longer.len() && longer[k] == name;
                assert(shorter[k] == name);
            }
            if name != candidate@ {
                assert(backends.backend(name) == so_far.backend(name));
            } else {
                assert(longer.contains(name));
                if names.contains(name) {
                    assert(backends.backend(name) == so_far.backend(name));
                } else {
                    assert(backends.backend(name) is None);
                }
            }
        }
        j += 1;
    }
    assert(texts(existing@).take(existing@.len() as int) =~= texts(existing@));
    assert forall|k: int| 0 <= k < n implies reloaded(
        before.backend(#[trigger] names[k]),
        backends.backend(names[k]),
        values[k],
        cache,
    ) by {
        assert(names.contains(names[k]));
        assert(backends.backend(names[k]) == rebuilt.backend(names[k]));
    }
    assert forall|name: Seq<char>| !names.contains(name) implies backends.backend(
        name,
    ) is None by {
        if !texts(existing@).contains(name) {
            assert(rebuilt.backend(name) is None);
        }
    }
    proof {
        lemma_unnamed_tail(rebuilt.names(), names, held, rebuilt.names().len() as int);
        lemma_unnamed_agree(rebuilt.names(), before.names(), names, held);
    }
    ReloadReport { started, failed, removed }
}

} // verus!
