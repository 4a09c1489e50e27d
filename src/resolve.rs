//! Resolution of named sources to downloadable artifacts.
//!
//! A `Session` holds the decisions of one resolution run: which request goes
//! out next, what a result adds to the work queue, when the run is over and
//! what it produced. The caller performs the requests (concurrently, up to the
//! session's limit) and hands each result back.

use vstd::prelude::*;
use crate::filters::{Filters, FiltersView, concat_view, is_empty_view};
use crate::source::{NamedSource, Source, SourceId, SourceView};

verus! {

/// A concrete artifact that a platform offered for a source.
pub struct DownloadData {
    pub filename: String,
    pub length: u64,
    /// Sources this artifact depends on; they are resolved in turn.
    pub dependencies: Vec<SourceId>,
    /// Where the file goes, relative to the game directory.
    pub output: String,
    /// Where the file is fetched from.
    pub url: String,
}

/// Why a single source could not be resolved.
#[derive(Debug)]
pub enum ResolveError {
    NoCompatibleVersion,
    NotFound,
    /// The platform forbids third-party downloads of this file; it has to be
    /// fetched by hand.
    DistributionDenied { project_id: i32, file_id: i32 },
    /// The platform's rate limit was exceeded: the whole run stops.
    RateLimited,
    NetworkError(String),
}

/// A source waiting to be resolved, under the name its outcome is reported by.
pub struct WorkItem {
    pub name: String,
    pub source: Source,
}

/// One query for the caller to perform. A pinned identifier carries no
/// filters: it names its artifact exactly.
pub struct Request {
    pub ticket: usize,
    pub name: String,
    pub id: SourceId,
    pub filters: Option<Filters>,
}

/// The run was stopped by a rate limit; its partial results are not reported.
#[derive(Debug, PartialEq, Eq)]
pub struct SessionAborted;

/// What a run produced: the artifacts found, in the order their requests went
/// out, and the sources that failed.
pub struct Resolution {
    pub downloads: Vec<DownloadData>,
    pub failures: Vec<(String, ResolveError)>,
}

pub open spec fn digit_char(d: int) -> char {
    if d == 0 { '0' }
    else if d == 1 { '1' }
    else if d == 2 { '2' }
    else if d == 3 { '3' }
    else if d == 4 { '4' }
    else if d == 5 { '5' }
    else if d == 6 { '6' }
    else if d == 7 { '7' }
    else if d == 8 { '8' }
    else { '9' }
}

/// The decimal digits of `n`, without leading zeros.
pub open spec fn digits(n: nat) -> Seq<char>
    decreases n,
{
    if n < 10 {
        seq![digit_char(n as int)]
    } else {
        digits(n / 10) + seq![digit_char((n % 10) as int)]
    }
}

/// `n` written in decimal, with a leading minus sign when negative.
pub open spec fn decimal(n: int) -> Seq<char> {
    if n < 0 {
        seq!['-'] + digits((-n) as nat)
    } else {
        digits(n as nat)
    }
}

/// The key a dependency is known by: a CurseForge project number, a Modrinth
/// project id, or `owner/repo` for GitHub.
pub open spec fn dependency_key(dep: SourceId) -> Seq<char> {
    match dep {
        SourceId::Curseforge(id) => decimal(id as int),
        SourceId::PinnedCurseforge(id, _) => decimal(id as int),
        SourceId::Modrinth(id) => id@,
        SourceId::PinnedModrinth(id, _) => id@,
        SourceId::Github(owner, repo) => owner@ + "/"@ + repo@,
        SourceId::PinnedGithub(repo_id, _) => repo_id.0@ + "/"@ + repo_id.1@,
    }
}

/// The name under which a dependency of `parent` is resolved.
pub open spec fn dependency_name(parent: Seq<char>, dep: SourceId) -> Seq<char> {
    "Dependency of "@ + parent + ": "@ + dependency_key(dep)
}

fn digit_text(d: u64) -> (r: &'static str)
    requires
        d < 10,
    ensures
        r@ == seq![digit_char(d as int)],
{
    proof {
        reveal_strlit("0");
        reveal_strlit("1");
        reveal_strlit("2");
        reveal_strlit("3");
        reveal_strlit("4");
        reveal_strlit("5");
        reveal_strlit("6");
        reveal_strlit("7");
        reveal_strlit("8");
        reveal_strlit("9");
    }
    if d == 0 { "0" }
    else if d == 1 { "1" }
    else if d == 2 { "2" }
    else if d == 3 { "3" }
    else if d == 4 { "4" }
    else if d == 5 { "5" }
    else if d == 6 { "6" }
    else if d == 7 { "7" }
    else if d == 8 { "8" }
    else { "9" }
}

fn push_digits(out: &mut String, n: u64)
    ensures
        final(out)@ == old(out)@ + digits(n as nat),
    decreases n,
{
    if n >= 10 {
        push_digits(out, n / 10);
    }
    out.append(digit_text(n % 10));
    assert(final(out)@ =~= old(out)@ + digits(n as nat));
}

/// `n` written in decimal.
pub fn decimal_text(n: i32) -> (r: String)
    ensures
        r@ == decimal(n as int),
{
    let mut out = String::new();
    if n < 0 {
        proof { reveal_strlit("-"); }
        out.append("-");
        let m: u64 = (0i64 - n as i64) as u64;
        push_digits(&mut out, m);
    } else {
        push_digits(&mut out, n as u64);
    }
    out
}

/// The name under which dependency `dep` of the source named `parent` is resolved.
pub fn name_dependency(parent: &String, dep: &SourceId) -> (r: String)
    ensures
        r@ == dependency_name(parent@, *dep),
{
    let mut out = String::from_str("Dependency of ");
    out.append(parent.as_str());
    out.append(": ");
    match dep {
        SourceId::Curseforge(id) | SourceId::PinnedCurseforge(id, _) => {
            let t = decimal_text(*id);
            out.append(t.as_str());
        },
        SourceId::Modrinth(id) | SourceId::PinnedModrinth(id, _) => {
            out.append(id.as_str());
        },
        SourceId::Github(owner, repo) | SourceId::PinnedGithub((owner, repo), _) => {
            out.append(owner.as_str());
            out.append("/");
            out.append(repo.as_str());
        },
    }
    assert(out@ =~= dependency_name(parent@, *dep));
    out
}


pub type Outcome = Option<Result<DownloadData, ResolveError>>;

pub open spec fn work_view(w: WorkItem) -> (Seq<char>, SourceView) {
    (w.name@, w.source@)
}

pub open spec fn item_names(items: Seq<WorkItem>) -> Seq<Seq<char>> {
    items.map_values(|w: WorkItem| w.name@)
}

/// The number of dispatched requests whose result has not come back.
pub open spec fn pending_count<T>(results: Seq<Option<T>>) -> nat
    decreases results.len(),
{
    if results.len() == 0 {
        0
    } else {
        pending_count(results.drop_last()) + if results.last() is None { 1nat } else { 0nat }
    }
}

/// Whether result `i` is an artifact that declares a dependency named `n`.
pub open spec fn declares(items: Seq<WorkItem>, results: Seq<Outcome>, i: int, n: Seq<char>) -> bool {
    match results[i] {
        Some(Ok(d)) => exists|k: int|
            0 <= k < d.dependencies@.len() && n == dependency_name(
                items[i].name@,
                #[trigger] d.dependencies@[k],
            ),
        _ => false,
    }
}

/// The names of all dependencies declared by the artifacts resolved so far.
pub open spec fn declared_names(items: Seq<WorkItem>, results: Seq<Outcome>) -> Set<Seq<char>> {
    Set::new(|n: Seq<char>| exists|i: int| 0 <= i < results.len() && #[trigger] declares(items, results, i, n))
}

/// The work items a resolved artifact adds: one per dependency, with no filters.
pub open spec fn dependency_items(parent: Seq<char>, d: DownloadData) -> Seq<(Seq<char>, SourceView)> {
    Seq::new(
        d.dependencies@.len(),
        |k: int| (dependency_name(parent, d.dependencies@[k]), SourceView { id: d.dependencies@[k], filters: Filters::empty_view() }),
    )
}

pub open spec fn new_work(parent: Seq<char>, result: Result<DownloadData, ResolveError>) -> Seq<(Seq<char>, SourceView)> {
    match result {
        Ok(d) => dependency_items(parent, d),
        Err(_) => Seq::empty(),
    }
}

/// The artifacts among `results`, in order.
pub open spec fn ok_downloads(results: Seq<Outcome>) -> Seq<DownloadData>
    decreases results.len(),
{
    if results.len() == 0 {
        Seq::empty()
    } else {
        let rest = ok_downloads(results.drop_first());
        match results[0] {
            Some(Ok(d)) => seq![d] + rest,
            _ => rest,
        }
    }
}

/// The failures among `results`, each under the name of its item, in order.
pub open spec fn failures_of(items: Seq<WorkItem>, results: Seq<Outcome>) -> Seq<(Seq<char>, ResolveError)>
    decreases results.len(),
{
    if results.len() == 0 || items.len() == 0 {
        Seq::empty()
    } else {
        let rest = failures_of(items.drop_first(), results.drop_first());
        match results[0] {
            Some(Err(e)) => seq![(items[0].name@, e)] + rest,
            _ => rest,
        }
    }
}

pub open spec fn is_rate_limited(o: Outcome) -> bool {
    o matches Some(Err(ResolveError::RateLimited))
}

/// The state of one resolution run.
pub struct Session {
    filters: Filters,
    limit: usize,
    queue: Vec<WorkItem>,
    started: Vec<WorkItem>,
    results: Vec<Outcome>,
    in_flight: usize,
    aborted: bool,
    seeded: Ghost<Seq<Seq<char>>>,
}

impl Session {
    /// The filters every source is resolved under, before its own.
    pub closed spec fn baseline(&self) -> FiltersView {
        self.filters@
    }

    /// The most requests that may be out at once.
    pub closed spec fn max_in_flight(&self) -> nat {
        self.limit as nat
    }

    /// Items waiting to be dispatched, in order.
    pub closed spec fn queue_items(&self) -> Seq<WorkItem> {
        self.queue@
    }

    /// Items dispatched so far; an item's ticket is its position here.
    pub closed spec fn started_items(&self) -> Seq<WorkItem> {
        self.started@
    }

    /// The result of each dispatched item, `None` while it is outstanding.
    pub closed spec fn outcomes(&self) -> Seq<Outcome> {
        self.results@
    }

    pub closed spec fn in_flight(&self) -> nat {
        self.in_flight as nat
    }

    pub closed spec fn aborted(&self) -> bool {
        self.aborted
    }

    /// The names of the sources the run was seeded with.
    pub closed spec fn seeded_names(&self) -> Seq<Seq<char>> {
        self.seeded@
    }

    /// Every name ever queued: the seeded ones and those of declared dependencies.
    pub open spec fn enqueued(&self) -> Set<Seq<char>> {
        self.seeded_names().to_set() + declared_names(self.started_items(), self.outcomes())
    }

    pub open spec fn awaiting(&self, ticket: int) -> bool {
        0 <= ticket < self.outcomes().len() && self.outcomes()[ticket] is None
    }

    pub open spec fn finished(&self) -> bool {
        self.in_flight() == 0 && (self.aborted() || self.queue_items().len() == 0)
    }

    /// A measure of what is left to do: each queued item costs a dispatch and
    /// a result, each outstanding request a result.
    pub open spec fn remaining_work(&self) -> nat {
        2 * self.queue_items().len() + self.in_flight()
    }

    pub closed spec fn wf(&self) -> bool {
        &&& self.limit > 0
        &&& self.results@.len() == self.started@.len()
        &&& self.in_flight as nat == pending_count(self.results@)
        &&& item_names(self.started@).no_duplicates()
        &&& (self.aborted <==> exists|i: int| 0 <= i < self.results@.len() && #[trigger] is_rate_limited(self.results@[i]))
        &&& forall|n: Seq<char>| #[trigger] self.enqueued().contains(n) <==> (item_names(self.started@).contains(n) || item_names(self.queue@).contains(n))
    }

    /// A session for the sources `entries`, resolved under `filters`, with at
    /// most `max_in_flight` requests out at once.
    pub fn new(entries: &Vec<NamedSource>, filters: Filters, max_in_flight: usize) -> (r: Session)
        requires
            max_in_flight > 0,
        ensures
            r.wf(),
            r.baseline() == filters@,
            r.max_in_flight() == max_in_flight,
            r.queue_items().len() == entries@.len(),
            forall|i: int| 0 <= i < entries@.len() ==> #[trigger] work_view(r.queue_items()[i]) == (entries@[i].name@, entries@[i].source@),
            r.seeded_names() == item_names(r.queue_items()),
            r.started_items().len() == 0,
            r.outcomes().len() == 0,
            r.in_flight() == 0,
            !r.aborted(),
            r.remaining_work() == 2 * entries@.len(),
    {
        let mut queue: Vec<WorkItem> = Vec::new();
        let mut i: usize = 0;
        while i < entries.len()
            invariant
                i <= entries.len(),
                queue@.len() == i,
                forall|k: int| 0 <= k < i ==> #[trigger] work_view(queue@[k]) == (entries@[k].name@, entries@[k].source@),
            decreases entries.len() - i,
        {
            let e = &entries[i];
            queue.push(WorkItem { name: e.name.clone(), source: e.source.duplicate() });
            i = i + 1;
        }
        let ghost seeded = item_names(queue@);
        let s = Session {
            filters,
            limit: max_in_flight,
            queue,
            started: Vec::new(),
            results: Vec::new(),
            in_flight: 0,
            aborted: false,
            seeded: Ghost(seeded),
        };
        proof {
            assert(declared_names(s.started@, s.results@) =~= Set::empty());
            assert forall|n: Seq<char>| #[trigger] s.enqueued().contains(n) <==> (item_names(s.started@).contains(n) || item_names(s.queue@).contains(n)) by {
                if item_names(s.queue@).contains(n) {
                    assert(seeded.to_set().contains(n));
                }
            }
        }
        s
    }

    pub fn is_aborted(&self) -> (r: bool)
        ensures
            r == self.aborted(),
    {
        self.aborted
    }

    /// Returns whether the run is over: nothing is outstanding, and nothing is
    /// queued or the run was aborted.
    pub fn is_finished(&self) -> (r: bool)
        ensures
            r == self.finished(),
    {
        self.in_flight == 0 && (self.aborted || self.queue.len() == 0)
    }

    /// Returns whether `ticket` names a request whose result is still due.
    pub fn is_awaiting(&self, ticket: usize) -> (r: bool)
        ensures
            r == self.awaiting(ticket as int),
    {
        ticket < self.results.len() && self.results[ticket].is_none()
    }

    fn has_started(&self, name: &String) -> (r: bool)
        ensures
            r == item_names(self.started@).contains(name@),
    {
        let mut i: usize = 0;
        while i < self.started.len()
            invariant
                i <= self.started@.len(),
                forall|k: int| 0 <= k < i ==> #[trigger] self.started@[k].name@ != name@,
            decreases self.started@.len() - i,
        {
            if self.started[i].name == *name {
                assert(item_names(self.started@)[i as int] == name@);
                return true;
            }
            i = i + 1;
        }
        assert(!item_names(self.started@).contains(name@)) by {
            if item_names(self.started@).contains(name@) {
                let k = choose|k: int| 0 <= k < item_names(self.started@).len() && item_names(self.started@)[k] == name@;
                assert(self.started@[k].name@ == name@);
            }
        }
        false
    }

    /// Takes the next queued item whose name has not been dispatched yet and
    /// returns its request; items whose name was already dispatched are
    /// dropped. Returns `None`, leaving the run as it was, once the run is
    /// aborted or the limit of outstanding requests is reached.
    pub fn next_request(&mut self) -> (r: Option<Request>)
        requires
            old(self).wf(),
        ensures
            final(self).wf(),
            final(self).baseline() == old(self).baseline(),
            final(self).max_in_flight() == old(self).max_in_flight(),
            final(self).seeded_names() == old(self).seeded_names(),
            final(self).aborted() == old(self).aborted(),
            final(self).remaining_work() <= old(self).remaining_work(),
            (old(self).aborted() || old(self).in_flight() >= old(self).max_in_flight()) ==> r is None
                && final(self).queue_items() == old(self).queue_items(),
            r is None ==> {
                &&& final(self).started_items() == old(self).started_items()
                &&& final(self).outcomes() == old(self).outcomes()
                &&& final(self).in_flight() == old(self).in_flight()
                &&& (final(self).aborted() || final(self).in_flight() >= final(self).max_in_flight()
                    || final(self).queue_items().len() == 0)
                &&& (!old(self).aborted() && old(self).in_flight() < old(self).max_in_flight()) ==> {
                    &&& final(self).queue_items().len() == 0
                    &&& forall|j: int| 0 <= j < old(self).queue_items().len() ==> item_names(old(self).started_items()).contains(
                        #[trigger] old(self).queue_items()[j].name@,
                    )
                }
            },
            r matches Some(req) ==> exists|k: int| #![trigger old(self).queue_items()[k]] {
                let q = old(self).queue_items();
                let started = old(self).started_items();
                &&& 0 <= k < q.len()
                &&& forall|j: int| 0 <= j < k ==> item_names(started).contains(#[trigger] q[j].name@)
                &&& !item_names(started).contains(q[k].name@)
                &&& final(self).queue_items() == q.skip(k + 1)
                &&& final(self).started_items() == started.push(q[k])
                &&& final(self).outcomes() == old(self).outcomes().push(None)
                &&& final(self).in_flight() == old(self).in_flight() + 1
                &&& req.ticket == started.len()
                &&& req.name@ == q[k].name@
                &&& req.id == q[k].source.id
                &&& (req.id.pinned() ==> req.filters is None)
                &&& (!req.id.pinned() ==> (req.filters matches Some(f) && f@ == concat_view(
                    old(self).baseline(),
                    q[k].source.filters@,
                )))
            },
            r is Some ==> final(self).remaining_work() < old(self).remaining_work(),
    {
        if self.aborted || self.in_flight >= self.limit {
            return None;
        }
        let ghost mut skipped: int = 0;
        while self.queue.len() > 0
            invariant
                self.wf(),
                !self.aborted,
                self.in_flight < self.limit,
                self.filters == old(self).filters,
                self.limit == old(self).limit,
                self.seeded == old(self).seeded,
                self.aborted == old(self).aborted,
                self.started == old(self).started,
                self.results == old(self).results,
                self.in_flight == old(self).in_flight,
                0 <= skipped <= old(self).queue@.len(),
                self.queue@ == old(self).queue@.skip(skipped),
                forall|j: int| 0 <= j < skipped ==> item_names(self.started@).contains(#[trigger] old(self).queue@[j].name@),
            decreases self.queue.len(),
        {
            let ghost before = self.queue@;
            let ghost pre = *self;
            let item = self.queue.remove(0);
            assert(item_names(before) =~= seq![item.name@] + item_names(self.queue@));
            assert(self.queue@ =~= old(self).queue@.skip(skipped + 1));
            if !self.has_started(&item.name) {
                let ticket = self.started.len();
                let filters = if item.source.id.is_pinned() {
                    None
                } else {
                    Some(self.filters.duplicate().concat(item.source.filters.duplicate()))
                };
                let req = Request {
                    ticket,
                    name: item.name.clone(),
                    id: item.source.id.duplicate(),
                    filters,
                };
                proof {
                    lemma_declared_push(self.started@, self.results@, item);
                    lemma_pending_push_none(self.results@);
                }
                let ghost old_started = self.started@;
                let ghost old_results = self.results@;
                self.started.push(item);
                self.results.push(None);
                self.in_flight = self.in_flight + 1;
                proof {
                    assert(item_names(self.started@) =~= item_names(old_started).push(item.name@));
                    assert(self.results@.drop_last() =~= old_results);
                    assert forall|i: int, j: int|
                        0 <= i < item_names(self.started@).len() && 0 <= j < item_names(self.started@).len() && i != j
                        implies item_names(self.started@)[i] != item_names(self.started@)[j] by {
                        if i == old_started.len() as int {
                            assert(item_names(old_started).contains(item_names(self.started@)[j]));
                        } else if j == old_started.len() as int {
                            assert(item_names(old_started).contains(item_names(self.started@)[i]));
                        }
                    }
                    assert(self.aborted <==> exists|i: int| 0 <= i < self.results@.len() && #[trigger] is_rate_limited(self.results@[i])) by {
                        if exists|i: int| 0 <= i < self.results@.len() && #[trigger] is_rate_limited(self.results@[i]) {
                            let i = choose|i: int| 0 <= i < self.results@.len() && #[trigger] is_rate_limited(self.results@[i]);
                            assert(is_rate_limited(old_results[i]));
                        }
                    }
                    assert forall|n: Seq<char>| #[trigger] self.enqueued().contains(n) <==> (item_names(self.started@).contains(n) || item_names(self.queue@).contains(n)) by {
                        assert(pre.enqueued().contains(n) <==> (item_names(old_started).contains(n) || item_names(before).contains(n)));
                        assert(pre.enqueued() == self.enqueued());
                        lemma_concat_contains(seq![item.name@], item_names(self.queue@), n);
                        lemma_concat_contains(item_names(old_started), seq![item.name@], n);
                        assert(item_names(old_started).push(item.name@) == item_names(old_started) + seq![item.name@]);
                    }
                    assert forall|j: int| 0 <= j < skipped implies item_names(old_started).contains(#[trigger] old(self).queue@[j].name@) by {}
                    assert(old(self).queue@[skipped] == item);
                }
                return Some(req);
            }
            proof {
                assert forall|n: Seq<char>| #[trigger] self.enqueued().contains(n) <==> (item_names(self.started@).contains(n) || item_names(self.queue@).contains(n)) by {
                    assert(pre.enqueued().contains(n) <==> (item_names(self.started@).contains(n) || item_names(before).contains(n)));
                    assert(pre.enqueued() == self.enqueued());
                    lemma_concat_contains(seq![item.name@], item_names(self.queue@), n);
                }
                assert(old(self).queue@[skipped] == item);
                skipped = skipped + 1;
            }
        }
        assert(skipped == old(self).queue@.len());
        None
    }

    /// Records the result of the request `ticket`. A resolved artifact queues
    /// each of its dependencies, unfiltered, under a name derived from the
    /// parent's; a rate limit aborts the run.
    pub fn complete(&mut self, ticket: usize, result: Result<DownloadData, ResolveError>)
        requires
            old(self).wf(),
            old(self).awaiting(ticket as int),
        ensures
            final(self).wf(),
            final(self).baseline() == old(self).baseline(),
            final(self).max_in_flight() == old(self).max_in_flight(),
            final(self).seeded_names() == old(self).seeded_names(),
            final(self).started_items() == old(self).started_items(),
            final(self).outcomes() == old(self).outcomes().update(ticket as int, Some(result)),
            final(self).queue_items().map_values(|w: WorkItem| work_view(w)) == old(self).queue_items().map_values(
                |w: WorkItem| work_view(w),
            ) + new_work(old(self).started_items()[ticket as int].name@, result),
            final(self).in_flight() + 1 == old(self).in_flight(),
            final(self).aborted() == (old(self).aborted() || result matches Err(ResolveError::RateLimited)),
            final(self).remaining_work() + 1 == old(self).remaining_work() + 2 * new_work(
                old(self).started_items()[ticket as int].name@,
                result,
            ).len(),
    {
        let ghost parent = self.started@[ticket as int].name@;
        let ghost old_queue = self.queue@;
        proof { lemma_pending_some(self.results@, ticket as int); }
        if let Ok(d) = &result {
            let mut k: usize = 0;
            while k < d.dependencies.len()
                invariant
                    k <= d.dependencies@.len(),
                    self.started == old(self).started,
                    ticket < self.started@.len(),
                    parent == self.started@[ticket as int].name@,
                    self.queue@.len() == old_queue.len() + k,
                    forall|j: int| 0 <= j < old_queue.len() ==> #[trigger] self.queue@[j] == old_queue[j],
                    forall|j: int| old_queue.len() <= j < self.queue@.len() ==> work_view(#[trigger] self.queue@[j]) == dependency_items(parent, *d)[j - old_queue.len()],
                    self.filters == old(self).filters,
                    self.limit == old(self).limit,
                    self.seeded == old(self).seeded,
                    self.aborted == old(self).aborted,
                    self.results == old(self).results,
                    self.in_flight == old(self).in_flight,
                decreases d.dependencies.len() - k,
            {
                let name = name_dependency(&self.started[ticket].name, &d.dependencies[k]);
                let source = Source::from_id(d.dependencies[k].duplicate(), Filters::empty());
                self.queue.push(WorkItem { name, source });
                k = k + 1;
            }
        }
        let limited = match &result {
            Err(ResolveError::RateLimited) => true,
            _ => false,
        };
        let ghost added = new_work(parent, result);
        proof {
            assert(self.queue@.map_values(|w: WorkItem| work_view(w)) =~= old_queue.map_values(|w: WorkItem| work_view(w)) + added);
            assert(item_names(self.queue@) =~= item_names(old_queue) + work_names(added));
            lemma_pending_update(self.results@, ticket as int, Some(result));
            lemma_declared_update(self.started@, self.results@, ticket as int, result);
        }
        let ghost old_results = self.results@;
        self.results.set(ticket, Some(result));
        self.in_flight = self.in_flight - 1;
        if limited {
            self.aborted = true;
        }
        proof {
            assert(self.aborted <==> exists|i: int| 0 <= i < self.results@.len() && #[trigger] is_rate_limited(self.results@[i])) by {
                if limited {
                    assert(is_rate_limited(self.results@[ticket as int]));
                } else if exists|i: int| 0 <= i < self.results@.len() && #[trigger] is_rate_limited(self.results@[i]) {
                    let i = choose|i: int| 0 <= i < self.results@.len() && #[trigger] is_rate_limited(self.results@[i]);
                    assert(i != ticket);
                    assert(is_rate_limited(old_results[i]));
                } else if old(self).aborted {
                    let i = choose|i: int| 0 <= i < old_results.len() && #[trigger] is_rate_limited(old_results[i]);
                    assert(i != ticket);
                    assert(is_rate_limited(self.results@[i]));
                }
            }
            assert forall|n: Seq<char>| #[trigger] self.enqueued().contains(n) <==> (item_names(self.started@).contains(n) || item_names(self.queue@).contains(n)) by {
                assert(old(self).enqueued().contains(n) <==> (item_names(self.started@).contains(n) || item_names(old_queue).contains(n)));
                lemma_concat_contains(item_names(old_queue), work_names(added), n);
            }
        }
    }

    /// Ends a finished run: its artifacts and failures, or `SessionAborted`
    /// when a rate limit stopped it.
    pub fn finish(self) -> (r: Result<Resolution, SessionAborted>)
        requires
            self.wf(),
            self.finished(),
        ensures
            r is Err <==> self.aborted(),
            self.aborted() <==> exists|i: int| 0 <= i < self.outcomes().len() && #[trigger] is_rate_limited(self.outcomes()[i]),
            r matches Ok(res) ==> {
                &&& res.downloads@ == ok_downloads(self.outcomes())
                &&& failure_views(res.failures@) == failures_of(self.started_items(), self.outcomes())
            },
    {
        proof {
            if self.aborted {
                let i = choose|i: int| 0 <= i < self.results@.len() && #[trigger] is_rate_limited(self.results@[i]);
                assert(is_rate_limited(self.outcomes()[i]));
            } else if exists|i: int| 0 <= i < self.outcomes().len() && #[trigger] is_rate_limited(self.outcomes()[i]) {
                let i = choose|i: int| 0 <= i < self.outcomes().len() && #[trigger] is_rate_limited(self.outcomes()[i]);
                assert(is_rate_limited(self.results@[i]));
            }
        }
        if self.aborted {
            return Err(SessionAborted);
        }
        let ghost all_results = self.results@;
        let ghost all_items = self.started@;
        let mut results = self.results;
        let mut started = self.started;
        let mut downloads: Vec<DownloadData> = Vec::new();
        let mut failures: Vec<(String, ResolveError)> = Vec::new();
        while results.len() > 0
            invariant
                results@.len() == started@.len(),
                ok_downloads(all_results) == downloads@ + ok_downloads(results@),
                failures_of(all_items, all_results) == failure_views(failures@) + failures_of(started@, results@),
            decreases results.len(),
        {
            let ghost rs = results@;
            let ghost ws = started@;
            let r = results.remove(0);
            let w = started.remove(0);
            assert(results@ =~= rs.drop_first());
            assert(started@ =~= ws.drop_first());
            match r {
                Some(Ok(d)) => {
                    downloads.push(d);
                },
                Some(Err(e)) => {
                    failures.push((w.name, e));
                },
                None => {},
            }
            assert(ok_downloads(all_results) =~= downloads@ + ok_downloads(results@));
            assert(failures_of(all_items, all_results) =~= failure_views(failures@) + failures_of(started@, results@));
        }
        assert(downloads@ =~= downloads@ + ok_downloads(results@));
        assert(failure_views(failures@) =~= failure_views(failures@) + failures_of(started@, results@));
        Ok(Resolution { downloads, failures })
    }
}

pub open spec fn work_names(s: Seq<(Seq<char>, SourceView)>) -> Seq<Seq<char>> {
    s.map_values(|p: (Seq<char>, SourceView)| p.0)
}

pub open spec fn failure_views(s: Seq<(String, ResolveError)>) -> Seq<(Seq<char>, ResolveError)> {
    s.map_values(|p: (String, ResolveError)| (p.0@, p.1))
}

proof fn lemma_concat_contains<A>(a: Seq<A>, b: Seq<A>, x: A)
    ensures
        (a + b).contains(x) <==> (a.contains(x) || b.contains(x)),
{
    if (a + b).contains(x) {
        let i = choose|i: int| 0 <= i < (a + b).len() && (a + b)[i] == x;
        if i < a.len() {
            assert(a[i] == x);
        } else {
            assert(b[i - a.len()] == x);
        }
    }
    if a.contains(x) {
        let i = choose|i: int| 0 <= i < a.len() && a[i] == x;
        assert((a + b)[i] == x);
    }
    if b.contains(x) {
        let i = choose|i: int| 0 <= i < b.len() && b[i] == x;
        assert((a + b)[i + a.len()] == x);
    }
}

pub proof fn lemma_pending_push_none<T>(s: Seq<Option<T>>)
    ensures
        pending_count(s.push(None::<T>)) == pending_count(s) + 1,
{
    assert(s.push(None::<T>).drop_last() =~= s);
}

pub proof fn lemma_pending_some<T>(s: Seq<Option<T>>, t: int)
    requires
        0 <= t < s.len(),
        s[t] is None,
    ensures
        pending_count(s) > 0,
    decreases s.len(),
{
    if t < s.len() - 1 {
        lemma_pending_some(s.drop_last(), t);
    }
}

pub proof fn lemma_pending_update<T>(s: Seq<Option<T>>, t: int, o: Option<T>)
    requires
        0 <= t < s.len(),
        s[t] is None,
        o is Some,
    ensures
        pending_count(s.update(t, o)) + 1 == pending_count(s),
    decreases s.len(),
{
    let u = s.update(t, o);
    if t == s.len() - 1 {
        assert(u.drop_last() =~= s.drop_last());
    } else {
        assert(u.drop_last() =~= s.drop_last().update(t, o));
        lemma_pending_update(s.drop_last(), t, o);
    }
}

pub proof fn lemma_pending_zero<T>(s: Seq<Option<T>>)
    requires
        pending_count(s) == 0,
    ensures
        forall|t: int| 0 <= t < s.len() ==> #[trigger] s[t] is Some,
{
    assert forall|t: int| 0 <= t < s.len() implies #[trigger] s[t] is Some by {
        if s[t] is None {
            lemma_pending_some(s, t);
        }
    }
}

proof fn lemma_declared_push(items: Seq<WorkItem>, results: Seq<Outcome>, w: WorkItem)
    requires
        items.len() == results.len(),
    ensures
        declared_names(items.push(w), results.push(None)) == declared_names(items, results),
{
    let items2 = items.push(w);
    let results2 = results.push(None);
    assert forall|n: Seq<char>| #[trigger] declared_names(items2, results2).contains(n) <==> declared_names(items, results).contains(n) by {
        if declared_names(items2, results2).contains(n) {
            let i = choose|i: int| 0 <= i < results2.len() && #[trigger] declares(items2, results2, i, n);
            assert(i < results.len());
            assert(declares(items, results, i, n));
        }
        if declared_names(items, results).contains(n) {
            let i = choose|i: int| 0 <= i < results.len() && #[trigger] declares(items, results, i, n);
            assert(items2[i] == items[i] && results2[i] == results[i]);
            assert(declares(items2, results2, i, n));
        }
    }
    assert(declared_names(items2, results2) =~= declared_names(items, results));
}

proof fn lemma_declared_update(items: Seq<WorkItem>, results: Seq<Outcome>, t: int, r: Result<DownloadData, ResolveError>)
    requires
        items.len() == results.len(),
        0 <= t < results.len(),
        results[t] is None,
    ensures
        declared_names(items, results.update(t, Some(r))) == declared_names(items, results)
            + work_names(new_work(items[t].name@, r)).to_set(),
{
    let results2 = results.update(t, Some(r));
    let added = work_names(new_work(items[t].name@, r));
    assert forall|n: Seq<char>| #[trigger] declared_names(items, results2).contains(n) <==> (declared_names(items, results).contains(n) || added.to_set().contains(n)) by {
        if declared_names(items, results2).contains(n) {
            let i = choose|i: int| 0 <= i < results2.len() && #[trigger] declares(items, results2, i, n);
            if i == t {
                let d = r->Ok_0;
                let k = choose|k: int| 0 <= k < d.dependencies@.len() && n == dependency_name(items[i].name@, #[trigger] d.dependencies@[k]);
                assert(added[k] == n);
            } else {
                assert(declares(items, results, i, n));
            }
        }
        if declared_names(items, results).contains(n) {
            let i = choose|i: int| 0 <= i < results.len() && #[trigger] declares(items, results, i, n);
            assert(i != t);
            assert(declares(items, results2, i, n));
        }
        if added.to_set().contains(n) {
            let k = choose|k: int| 0 <= k < added.len() && added[k] == n;
            let d = r->Ok_0;
            assert(n == dependency_name(items[t].name@, d.dependencies@[k]));
            assert(declares(items, results2, t, n));
        }
    }
    assert(declared_names(items, results2) =~= declared_names(items, results) + added.to_set());
}

pub open spec fn declares_dependency(o: Outcome) -> bool {
    o matches Some(Ok(d)) && d.dependencies@.len() > 0
}

/// The names that result `t` of `s` queued for its dependencies.
pub open spec fn names_added_by(s: Session, t: int) -> Seq<Seq<char>> {
    work_names(new_work(s.started_items()[t].name@, s.outcomes()[t]->Some_0))
}

/// Once a run has finished without being aborted, every dispatched request has
/// its result, and there is exactly one outcome for each name ever queued: the
/// seeded names and those of the dependencies that resolved artifacts declared.
pub proof fn lemma_one_outcome_per_name(s: Session)
    requires
        s.wf(),
        s.finished(),
        !s.aborted(),
    ensures
        forall|t: int| 0 <= t < s.outcomes().len() ==> #[trigger] s.outcomes()[t] is Some,
        item_names(s.started_items()).to_set() == s.enqueued(),
        s.outcomes().len() == s.enqueued().len(),
{
    lemma_pending_zero(s.results@);
    assert forall|n: Seq<char>| #[trigger] item_names(s.started@).to_set().contains(n) <==> s.enqueued().contains(n) by {
        assert(s.enqueued().contains(n) <==> (item_names(s.started@).contains(n) || item_names(s.queue@).contains(n)));
        assert(!item_names(s.queue@).contains(n));
    }
    assert(item_names(s.started@).to_set() =~= s.enqueued());
    item_names(s.started@).unique_seq_to_set();
}

/// Independent sources: when no resolved artifact declared a dependency, a run
/// seeded with N distinctly named sources finishes with exactly N outcomes.
pub proof fn lemma_independent_sources(s: Session)
    requires
        s.wf(),
        s.finished(),
        !s.aborted(),
        s.seeded_names().no_duplicates(),
        forall|t: int| 0 <= t < s.outcomes().len() ==> !declares_dependency(#[trigger] s.outcomes()[t]),
    ensures
        s.outcomes().len() == s.seeded_names().len(),
{
    assert forall|n: Seq<char>| !(#[trigger] declared_names(s.started@, s.results@).contains(n)) by {
        if declared_names(s.started@, s.results@).contains(n) {
            let i = choose|i: int| 0 <= i < s.results@.len() && #[trigger] declares(s.started@, s.results@, i, n);
            assert(!declares_dependency(s.outcomes()[i]));
        }
    }
    assert(s.enqueued() =~= s.seeded_names().to_set());
    lemma_one_outcome_per_name(s);
    s.seeded_names().unique_seq_to_set();
}

/// Dependencies add outcomes: when a resolved artifact declared K dependencies
/// whose names are distinct and differ from the seeded names, a run seeded with
/// N distinctly named sources finishes with at least N + K outcomes.
pub proof fn lemma_dependencies_add_outcomes(s: Session, t: int)
    requires
        s.wf(),
        s.finished(),
        !s.aborted(),
        s.seeded_names().no_duplicates(),
        0 <= t < s.outcomes().len(),
        s.outcomes()[t] matches Some(Ok(_)),
        names_added_by(s, t).no_duplicates(),
        forall|i: int, j: int|
            0 <= i < s.seeded_names().len() && 0 <= j < names_added_by(s, t).len() ==> s.seeded_names()[i]
                != names_added_by(s, t)[j],
    ensures
        s.outcomes().len() >= s.seeded_names().len() + names_added_by(s, t).len(),
{
    let seeded = s.seeded_names();
    let added = names_added_by(s, t);
    vstd::seq_lib::lemma_no_dup_in_concat(seeded, added);
    let both = seeded + added;
    assert forall|n: Seq<char>| #[trigger] both.to_set().contains(n) implies s.enqueued().contains(n) by {
        lemma_concat_contains(seeded, added, n);
        if added.contains(n) {
            let k = choose|k: int| 0 <= k < added.len() && added[k] == n;
            let d = s.outcomes()[t]->Some_0->Ok_0;
            assert(n == dependency_name(s.started_items()[t].name@, d.dependencies@[k]));
            assert(declares(s.started@, s.results@, t, n));
        }
    }
    lemma_one_outcome_per_name(s);
    both.unique_seq_to_set();
    vstd::seq_lib::seq_to_set_is_finite(item_names(s.started@));
    vstd::set_lib::lemma_len_subset(both.to_set(), s.enqueued());
}

/// A run with no work left is finished: together with the decrease of the
/// remaining work at each dispatch and at each result that declares no
/// dependency, this bounds a run of N independent sources to 2 N steps.
pub proof fn lemma_no_work_left_is_finished(s: Session)
    requires
        s.wf(),
        s.remaining_work() == 0,
    ensures
        s.finished(),
{
}

/// A rate-limited result aborts the run: from then on no request is
/// dispatched, and the run ends in `SessionAborted` rather than a resolution.
pub proof fn lemma_rate_limit_aborts(s: Session, t: int)
    requires
        s.wf(),
        0 <= t < s.outcomes().len(),
        is_rate_limited(s.outcomes()[t]),
    ensures
        s.aborted(),
{
}

} // verus!
