//! Discovered shard maps: the update type, the transforms that a source
//! applies to what it fetched, the rule that suppresses repeated updates, and
//! the cache that the reload loop reads.
//!
//! The cache keeps its entries in a `dashmap` map. What is said of that map
//! here is assumed from its documentation.

use crate::config::clone_strings;
use crate::config::DiscoverySource;
use crate::config::DiscoveryTransform;
use dashmap::DashMap;
use vstd::arithmetic::div_mod::lemma_fundamental_div_mod_converse;
use vstd::prelude::*;
use vstd::std_specs::cmp::PartialEqSpecImpl;
use vstd::string::StrSliceExecFns;
use vstd::string::StringExecFns;

verus! {

/// `String::push` appends one character to the end of the string.
pub assume_specification[ String::push ](text: &mut String, ch: char)
    ensures
        final(text)@ == old(text)@.push(ch),
;

/// The contents of a list of strings.
pub open spec fn texts(list: Seq<String>) -> Seq<Seq<char>> {
    list.map_values(|s: String| s@)
}

/// A list of endpoints, as one fetch of a discovery source gave it.
#[derive(Debug)]
pub struct Update {
    hosts: Vec<String>,
}

impl View for Update {
    type V = Seq<Seq<char>>;

    closed spec fn view(&self) -> Seq<Seq<char>> {
        texts(self.hosts@)
    }
}

impl Update {
    /// An update that lists `hosts`.
    pub fn new(hosts: Vec<String>) -> (r: Self)
        ensures
            r@ == texts(hosts@),
    {
        Update { hosts }
    }

    /// The listed endpoints, in order.
    pub fn sources(&self) -> (r: &Vec<String>)
        ensures
            texts(r@) == self@,
    {
        &self.hosts
    }

    /// Whether two updates list the same endpoints in the same order.
    pub fn same_as(&self, other: &Update) -> (r: bool)
        ensures
            r == (self@ == other@),
    {
        if self.hosts.len() != other.hosts.len() {
            assert(self@.len() != other@.len());
            return false;
        }
        let mut i: usize = 0;
        while i < self.hosts.len()
            invariant
                0 <= i <= self.hosts@.len(),
                self.hosts@.len() == other.hosts@.len(),
                forall|j: int| 0 <= j < i ==> self@[j] == other@[j],
            decreases self.hosts@.len() - i,
        {
            if self.hosts[i] != other.hosts[i] {
                assert(self@[i as int] != other@[i as int]);
                return false;
            }
            i += 1;
        }
        assert(self@ =~= other@);
        true
    }
}

impl Clone for Update {
    fn clone(&self) -> (r: Self)
        ensures
            r@ == self@,
    {
        Update { hosts: clone_strings(&self.hosts) }
    }
}

impl Default for Update {
    fn default() -> (r: Self)
        ensures
            r@ == Seq::<Seq<char>>::empty(),
    {
        let r = Update { hosts: Vec::new() };
        assert(r@ =~= Seq::<Seq<char>>::empty());
        r
    }
}

impl PartialEq for Update {
    fn eq(&self, other: &Self) -> (r: bool) {
        self.same_as(other)
    }
}

impl Eq for Update {

}

impl PartialEqSpecImpl for Update {
    open spec fn obeys_eq_spec() -> bool {
        true
    }

    open spec fn eq_spec(&self, other: &Self) -> bool {
        self@ == other@
    }
}

/// Why a fetch gave no update.
#[derive(Debug)]
pub enum Error {
    EmptyObjectError,
}

impl Error {
    /// The error in words.
    pub fn message(&self) -> (r: String)
        ensures
            r@ == "reading a discovery source had no data"@,
    {
        String::from_str("reading a discovery source had no data")
    }
}

/// Whether a pattern holds the placeholder `{}`.
pub open spec fn has_placeholder(pattern: Seq<char>) -> bool {
    exists|i: int|
        0 <= i && i + 1 < pattern.len() && #[trigger] pattern[i] == '{' && pattern[i + 1] == '}'
}

/// The pattern with each placeholder `{}`, taken from left to right,
/// replaced by `host`.
pub open spec fn fill(pattern: Seq<char>, host: Seq<char>) -> Seq<char>
    decreases pattern.len(),
{
    if pattern.len() == 0 {
        Seq::empty()
    } else if pattern.len() >= 2 && pattern[0] == '{' && pattern[1] == '}' {
        host + fill(pattern.skip(2), host)
    } else {
        seq![pattern[0]] + fill(pattern.skip(1), host)
    }
}

/// Each host `hosts[k]` repeated `count` times in place.
pub open spec fn repeat_each(hosts: Seq<Seq<char>>, count: nat) -> Seq<Seq<char>> {
    Seq::new(hosts.len() * count, |i: int| hosts[i / (count as int)])
}

/// What the format transform makes of a list of hosts: nothing where the
/// pattern has no placeholder, else the pattern filled with each host.
pub open spec fn format_hosts(pattern: Seq<char>, hosts: Seq<Seq<char>>) -> Option<
    Seq<Seq<char>>,
> {
    if has_placeholder(pattern) {
        Some(hosts.map_values(|h: Seq<char>| fill(pattern, h)))
    } else {
        None
    }
}

/// What the repeat transform makes of a list of hosts: nothing for a count of
/// zero, else each host `count` times.
pub open spec fn repeat_hosts(count: u32, hosts: Seq<Seq<char>>) -> Option<Seq<Seq<char>>> {
    if count == 0 {
        None
    } else {
        Some(repeat_each(hosts, count as nat))
    }
}

/// What a transform makes of a list of hosts.
pub open spec fn transform_hosts(transform: DiscoveryTransform, hosts: Seq<Seq<char>>) -> Option<
    Seq<Seq<char>>,
> {
    match transform {
        DiscoveryTransform::Format { pattern } => format_hosts(pattern@, hosts),
        DiscoveryTransform::Repeat { count } => repeat_hosts(count, hosts),
    }
}

/// The hosts after the transforms were applied in order; a transform that
/// gives nothing leaves the list as it was.
pub open spec fn transformed(hosts: Seq<Seq<char>>, transforms: Seq<DiscoveryTransform>) -> Seq<
    Seq<char>,
>
    decreases transforms.len(),
{
    if transforms.len() == 0 {
        hosts
    } else {
        let next = match transform_hosts(transforms[0], hosts) {
            Some(changed) => changed,
            None => hosts,
        };
        transformed(next, transforms.skip(1))
    }
}

/// Repeating once changes nothing.
pub proof fn lemma_repeat_once(hosts: Seq<Seq<char>>)
    ensures
        repeat_each(hosts, 1) == hosts,
{
    assert(repeat_each(hosts, 1) =~= hosts);
}

/// Tells whether `pattern` holds the placeholder.
fn pattern_has_placeholder(pattern: &str) -> (r: bool)
    ensures
        r == has_placeholder(pattern@),
{
    let n = pattern.unicode_len();
    if n < 2 {
        return false;
    }
    let mut i: usize = 0;
    while i + 1 < n
        invariant
            n == pattern@.len(),
            n >= 2,
            0 <= i <= n - 1,
            forall|j: int|
                0 <= j < i ==> !(#[trigger] pattern@[j] == '{' && pattern@[j + 1] == '}'),
        decreases n - i,
    {
        if pattern.get_char(i) == '{' && pattern.get_char(i + 1) == '}' {
            return true;
        }
        i += 1;
    }
    false
}

/// Fills `pattern` with `host`.
fn fill_pattern(pattern: &str, host: &str) -> (r: String)
    ensures
        r@ == fill(pattern@, host@),
{
    let n = pattern.unicode_len();
    let mut out = String::new();
    let mut i: usize = 0;
    assert(pattern@.skip(0) =~= pattern@);
    while i < n
        invariant
            n == pattern@.len(),
            0 <= i <= n,
            out@ + fill(pattern@.skip(i as int), host@) == fill(pattern@, host@),
        decreases n - i,
    {
        let ghost rest = pattern@.skip(i as int);
        let c = pattern.get_char(i);
        assert(rest[0] == c);
        if c == '{' && i + 1 < n && pattern.get_char(i + 1) == '}' {
            assert(rest[1] == '}');
            assert(rest.skip(2) =~= pattern@.skip(i + 2));
            let ghost before = out@;
            out.append(host);
            assert((before + host@) + fill(pattern@.skip(i + 2), host@) =~= before + (host@ + fill(
                pattern@.skip(i + 2),
                host@,
            )));
            i += 2;
        } else {
            assert(rest.skip(1) =~= pattern@.skip(i + 1));
            let ghost before = out@;
            out.push(c);
            assert(before.push(c) + fill(pattern@.skip(i + 1), host@) =~= before + (seq![c] + fill(
                pattern@.skip(i + 1),
                host@,
            )));
            i += 1;
        }
    }
    assert(out@ + Seq::<char>::empty() =~= out@);
    out
}

/// The format transform: every host becomes the pattern with `{}` replaced
/// by the host. A pattern without `{}` gives no update.
pub fn transform_format(format: &String, input: &Update) -> (r: Option<Update>)
    ensures
        match r {
            Some(update) => format_hosts(format@, input@) == Some(update@),
            None => format_hosts(format@, input@) is None,
        },
{
    if !pattern_has_placeholder(format.as_str()) {
        return None;
    }
    let mut hosts: Vec<String> = Vec::new();
    let mut i: usize = 0;
    while i < input.hosts.len()
        invariant
            0 <= i <= input.hosts@.len(),
            hosts@.len() == i,
            forall|j: int| 0 <= j < i ==> (#[trigger] hosts@[j])@ == fill(format@, input@[j]),
        decreases input.hosts@.len() - i,
    {
        hosts.push(fill_pattern(format.as_str(), input.hosts[i].as_str()));
        i += 1;
    }
    let update = Update { hosts };
    assert(update@ =~= input@.map_values(|h: Seq<char>| fill(format@, h)));
    Some(update)
}

/// The repeat transform: every host is repeated `count` times in place. A
/// count of zero gives no update; a count of one gives the input back.
pub fn transform_repeat(count: u32, input: &Update) -> (r: Option<Update>)
    ensures
        match r {
            Some(update) => repeat_hosts(count, input@) == Some(update@),
            None => repeat_hosts(count, input@) is None,
        },
{
    if count == 0 {
        return None;
    }
    if count == 1 {
        proof {
            lemma_repeat_once(input@);
        }
        return Some(input.clone());
    }
    let ghost n = count as int;
    let mut hosts: Vec<String> = Vec::new();
    let mut i: usize = 0;
    while i < input.hosts.len()
        invariant
            n == count,
            n > 0,
            0 <= i <= input.hosts@.len(),
            hosts@.len() == i * n,
            forall|k: int| 0 <= k < hosts@.len() ==> (#[trigger] hosts@[k])@ == input@[k / n],
        decreases input.hosts@.len() - i,
    {
        let mut j: u32 = 0;
        while j < count
            invariant
                n == count,
                n > 0,
                0 <= i < input.hosts@.len(),
                0 <= j <= count,
                hosts@.len() == i * n + j,
                forall|k: int| 0 <= k < hosts@.len() ==> (#[trigger] hosts@[k])@ == input@[k / n],
            decreases count - j,
        {
            proof {
                lemma_fundamental_div_mod_converse(i * n + j, n, i as int, j as int);
            }
            hosts.push(input.hosts[i].clone());
            j += 1;
        }
        assert((i + 1) * n == i * n + n) by (nonlinear_arith);
        i += 1;
    }
    let update = Update { hosts };
    assert(update@ =~= repeat_each(input@, count as nat));
    Some(update)
}

impl DiscoveryTransform {
    /// Applies the transform to an update; `None` where it has nothing to
    /// say about it.
    pub fn transform(&self, input: &Update) -> (r: Option<Update>)
        ensures
            match r {
                Some(update) => transform_hosts(*self, input@) == Some(update@),
                None => transform_hosts(*self, input@) is None,
            },
    {
        match self {
            DiscoveryTransform::Format { pattern } => transform_format(pattern, input),
            DiscoveryTransform::Repeat { count } => transform_repeat(*count, input),
        }
    }
}

/// Applies the transforms of a source, in the order of the configuration, to
/// what was fetched from it.
pub fn apply_transforms(fetched: Update, transforms: &Vec<DiscoveryTransform>) -> (r: Update)
    ensures
        r@ == transformed(fetched@, transforms@),
{
    let mut update = fetched;
    let mut i: usize = 0;
    assert(transforms@.skip(0) =~= transforms@);
    while i < transforms.len()
        invariant
            0 <= i <= transforms@.len(),
            transformed(update@, transforms@.skip(i as int)) == transformed(
                fetched@,
                transforms@,
            ),
        decreases transforms@.len() - i,
    {
        assert(transforms@.skip(i as int).skip(1) =~= transforms@.skip(i + 1));
        if let Some(changed) = transforms[i].transform(&update) {
            update = changed;
        }
        i += 1;
    }
    update
}

/// Makes the update of a source from what was fetched from it: the
/// transforms of the source, applied in order.
pub fn finish_fetch(fetched: Update, source: &DiscoverySource) -> (r: Update)
    ensures
        r@ == transformed(fetched@, source.configured_transforms()),
{
    match source.transforms() {
        Some(transforms) => apply_transforms(fetched, transforms),
        None => fetched,
    }
}

/// What one poll of a source emits: the fetched list, unless it is the list
/// that the source remembers or the fetch failed. A source that remembers
/// nothing emits whatever it fetches first, an empty list too.
pub open spec fn poll_emits(
    last: Option<Seq<Seq<char>>>,
    fetched: Option<Seq<Seq<char>>>,
) -> Option<Seq<Seq<char>>> {
    match fetched {
        Some(hosts) => if last != Some(hosts) {
            Some(hosts)
        } else {
            None
        },
        None => None,
    }
}

/// What a source remembers after one poll: the fetched list, or what it
/// remembered before where the fetch failed.
pub open spec fn poll_keeps(
    last: Option<Seq<Seq<char>>>,
    fetched: Option<Seq<Seq<char>>>,
) -> Option<Seq<Seq<char>>> {
    match fetched {
        Some(hosts) => Some(hosts),
        None => last,
    }
}

/// What a source emits over a run of polls, in order.
pub open spec fn emitted_over(
    last: Option<Seq<Seq<char>>>,
    fetches: Seq<Option<Seq<Seq<char>>>>,
) -> Seq<Seq<Seq<char>>>
    decreases fetches.len(),
{
    if fetches.len() == 0 {
        Seq::empty()
    } else {
        let later = emitted_over(poll_keeps(last, fetches[0]), fetches.drop_first());
        match poll_emits(last, fetches[0]) {
            Some(hosts) => seq![hosts] + later,
            None => later,
        }
    }
}

/// The lists that a run of polls fetched, in order, the failed polls left
/// out.
pub open spec fn fetched_lists(fetches: Seq<Option<Seq<Seq<char>>>>) -> Seq<Seq<Seq<char>>>
    decreases fetches.len(),
{
    if fetches.len() == 0 {
        Seq::empty()
    } else {
        let later = fetched_lists(fetches.drop_first());
        match fetches[0] {
            Some(hosts) => seq![hosts] + later,
            None => later,
        }
    }
}

/// The lists with every run of equal neighbours cut to its first; a run at
/// the start that equals `last` is left out altogether.
pub open spec fn without_repeats(
    last: Option<Seq<Seq<char>>>,
    lists: Seq<Seq<Seq<char>>>,
) -> Seq<Seq<Seq<char>>>
    decreases lists.len(),
{
    if lists.len() == 0 {
        Seq::empty()
    } else if last == Some(lists[0]) {
        without_repeats(last, lists.drop_first())
    } else {
        seq![lists[0]] + without_repeats(Some(lists[0]), lists.drop_first())
    }
}

/// A list that the source does not remember is emitted once: fetching the
/// same list again emits nothing. A source that remembers nothing meets the
/// condition for every list.
pub proof fn lemma_identical_fetches_emit_once(
    last: Option<Seq<Seq<char>>>,
    hosts: Seq<Seq<char>>,
)
    requires
        last != Some(hosts),
    ensures
        poll_emits(last, Some(hosts)) == Some(hosts),
        poll_emits(poll_keeps(last, Some(hosts)), Some(hosts)) is None,
        emitted_over(last, seq![Some(hosts), Some(hosts)]) == seq![hosts],
{
    let twice = seq![Some(hosts), Some(hosts)];
    let once = twice.drop_first();
    assert(once.len() == 1 && once[0] == Some(hosts));
    assert(once.drop_first().len() == 0);
    assert(emitted_over(Some(hosts), once.drop_first()) == Seq::<Seq<Seq<char>>>::empty());
    assert(emitted_over(Some(hosts), once) == Seq::<Seq<Seq<char>>>::empty());
    assert(seq![hosts] + Seq::<Seq<Seq<char>>>::empty() =~= seq![hosts]);
}

/// Whatever was remembered before, a list fetched a second time in a row is
/// not emitted again.
pub proof fn lemma_repeated_fetch_is_silent(last: Option<Seq<Seq<char>>>, hosts: Seq<Seq<char>>)
    ensures
        poll_emits(poll_keeps(last, Some(hosts)), Some(hosts)) is None,
{
}

/// A failed fetch emits nothing and forgets nothing.
pub proof fn lemma_failed_fetch_changes_nothing(last: Option<Seq<Seq<char>>>)
    ensures
        poll_emits(last, None) is None,
        poll_keeps(last, None) == last,
{
}

/// Over any run of polls, what is emitted is the fetched lists with every run
/// of equal neighbours cut to its first, failed polls counting for nothing.
pub proof fn lemma_emitted_is_fetched_without_repeats(
    last: Option<Seq<Seq<char>>>,
    fetches: Seq<Option<Seq<Seq<char>>>>,
)
    ensures
        emitted_over(last, fetches) == without_repeats(last, fetched_lists(fetches)),
    decreases fetches.len(),
{
    if fetches.len() > 0 {
        let later = fetches.drop_first();
        lemma_emitted_is_fetched_without_repeats(poll_keeps(last, fetches[0]), later);
        match fetches[0] {
            Some(hosts) => {
                let lists = fetched_lists(fetches);
                assert(lists[0] == hosts);
                assert(lists.drop_first() =~= fetched_lists(later));
            },
            None => {},
        }
    }
}

/// What was fetched, as contracts see it.
pub open spec fn hosts_of(fetched: Option<Update>) -> Option<Seq<Seq<char>>> {
    match fetched {
        Some(update) => Some(update@),
        None => None,
    }
}

/// The memory of one polled source: the list that it fetched last, if it has
/// fetched any.
pub struct Poller {
    last_update: Option<Update>,
}

impl Poller {
    /// The list fetched last, if any was.
    pub closed spec fn last(&self) -> Option<Seq<Seq<char>>> {
        hosts_of(self.last_update)
    }

    /// A poller that has fetched nothing yet.
    pub fn new() -> (r: Self)
        ensures
            r.last() is None,
    {
        Poller { last_update: None }
    }

    /// Takes the outcome of one fetch (`None` for a failed one) and returns
    /// the update to emit, if any: see [`poll_emits`] and [`poll_keeps`].
    pub fn observe(&mut self, fetched: Option<Update>) -> (r: Option<Update>)
        ensures
            final(self).last() == poll_keeps(old(self).last(), hosts_of(fetched)),
            hosts_of(r) == poll_emits(old(self).last(), hosts_of(fetched)),
    {
        match fetched {
            None => None,
            Some(new_update) => {
                let same = match &self.last_update {
                    Some(last) => new_update.same_as(last),
                    None => false,
                };
                let emit = if same {
                    None
                } else {
                    Some(new_update.clone())
                };
                self.last_update = Some(new_update);
                emit
            },
        }
    }
}

/// `dashmap::DashMap`, a hash map. Verified code sees of it only what
/// [`cached_hosts`] tells.
#[verifier::external_type_specification]
#[verifier::external_body]
#[verifier::reject_recursive_types(K)]
#[verifier::reject_recursive_types(V)]
#[verifier::reject_recursive_types(S)]
pub struct ExDashMap<K, V, S>(DashMap<K, V, S>);

/// The map of a cache: host lists by source name.
pub type HostMap = DashMap<String, Vec<String>>;

/// The host lists that a map holds, by source name. It stands for a map that
/// one [`Cache`] owns: such a map is reached by no other handle and is
/// changed only through a `&mut` borrow of its cache, so what it holds does
/// not change behind a shared reference.
pub uninterp spec fn cached_hosts(map: DashMap<String, Vec<String>>) -> Map<
    Seq<char>,
    Seq<Seq<char>>,
>;

/// What a map without entries holds.
pub open spec fn no_hosts() -> Map<Seq<char>, Seq<Seq<char>>> {
    Map::empty()
}

/// `DashMap::new` makes a map that holds nothing.
#[verifier::external_body]
fn new_map() -> (r: HostMap)
    ensures
        cached_hosts(r) == no_hosts(),
{
    DashMap::new()
}

/// `DashMap::insert` puts the value under the key, in place of a value that
/// was there; other keys keep theirs. No reference into the map is held
/// during the call, so it cannot block.
#[verifier::external_body]
fn map_insert(map: &mut HostMap, key: String, hosts: Vec<String>)
    ensures
        cached_hosts(*final(map)) == cached_hosts(*old(map)).insert(key@, texts(hosts@)),
{
    map.insert(key, hosts);
}

/// `DashMap::get` finds the entry of a key, if the map has one. Handed out
/// is a copy of the entry's value.
#[verifier::external_body]
fn map_get(map: &HostMap, key: &String) -> (r: Option<Vec<String>>)
    ensures
        match r {
            Some(hosts) => cached_hosts(*map).contains_key(key@) && cached_hosts(*map)[key@]
                == texts(hosts@),
            None => !cached_hosts(*map).contains_key(key@),
        },
{
    map.get(key).map(|entry| entry.value().clone())
}

/// The update seen last from each source, by source name.
pub struct Cache {
    cache: HostMap,
}

impl Cache {
    /// The update stored for `source`, if any.
    pub closed spec fn lookup(&self, source: Seq<char>) -> Option<Seq<Seq<char>>> {
        if cached_hosts(self.cache).contains_key(source) {
            Some(cached_hosts(self.cache)[source])
        } else {
            None
        }
    }

    /// An empty cache.
    pub fn new() -> (r: Self)
        ensures
            forall|source: Seq<char>| r.lookup(source) is None,
    {
        Cache { cache: new_map() }
    }

    /// Stores the update of an event under the event's source name, in place
    /// of what was stored there. Other sources keep theirs.
    pub fn store(&mut self, event: &(String, Update))
        ensures
            final(self).lookup(event.0@) == Some(event.1@),
            forall|other: Seq<char>|
                other != event.0@ ==> final(self).lookup(other) == old(self).lookup(other),
    {
        map_insert(&mut self.cache, event.0.clone(), clone_strings(event.1.sources()));
    }

    /// The update stored for `key`, if any.
    pub fn get(&self, key: &String) -> (r: Option<Update>)
        ensures
            match r {
                Some(update) => self.lookup(key@) == Some(update@),
                None => self.lookup(key@) is None,
            },
    {
        match map_get(&self.cache, key) {
            Some(hosts) => Some(Update::new(hosts)),
            None => None,
        }
    }
}

} // verus!
