use vstd::prelude::*;

use crate::entry::{file_type, file_type_of, is_hidden, Entry, FileType};
use crate::cli::Validate;
use crate::errors::{aggregates, join, texts, Error};

verus! {

/// The path of the entry `name` inside the directory `parent`.
pub open spec fn child_path(parent: Seq<char>, name: Seq<char>) -> Seq<char> {
    parent + "/"@ + name
}

/// The paths of the visible sub-directories of a listing, in the order they were listed.
pub open spec fn subdirectories_of(parent: Seq<char>, entries: Seq<Entry>) -> Seq<Seq<char>>
    decreases entries.len(),
{
    if entries.len() == 0 {
        Seq::empty()
    } else {
        let rest = subdirectories_of(parent, entries.drop_last());
        let last = entries.last();
        if file_type_of(last.name@, last.kind) == FileType::Directory {
            rest.push(child_path(parent, last.name@))
        } else {
            rest
        }
    }
}

/// A listing holds at least one qualifying file.
pub open spec fn needs_validation(entries: Seq<Entry>) -> bool {
    exists|i: int|
        0 <= i < entries.len() && file_type_of(#[trigger] entries[i].name@, entries[i].kind)
            == FileType::Qualifying
}

/// What one directory listing asks for: the sub-directories to crawl, and whether the
/// directory itself is validated (once, however many qualifying files it holds).
#[derive(Debug)]
pub struct Plan {
    pub subdirectories: Vec<String>,
    pub validate: bool,
}

/// Builds `parent/name`.
pub fn join_path(parent: &str, name: &str) -> (r: String)
    ensures
        r@ == child_path(parent@, name@),
{
    let r = String::from_str(parent);
    let r = r.concat("/");
    r.concat(name)
}

/// Classifies the entries of the directory `path`: every visible sub-directory is to be
/// crawled, hidden entries are skipped, and the first qualifying file marks the directory
/// for validation.
pub fn crawl_directory(path: &String, entries: &Vec<Entry>) -> (r: Plan)
    ensures
        texts(r.subdirectories@) == subdirectories_of(path@, entries@),
        r.validate == needs_validation(entries@),
{
    let mut subdirectories: Vec<String> = Vec::new();
    let mut validate = false;
    let mut i: usize = 0;
    while i < entries.len()
        invariant
            i <= entries@.len(),
            texts(subdirectories@) == subdirectories_of(path@, entries@.subrange(0, i as int)),
            validate == exists|j: int|
                0 <= j < i && file_type_of(#[trigger] entries@[j].name@, entries@[j].kind)
                    == FileType::Qualifying,
        decreases entries@.len() - i,
    {
        let entry = &entries[i];
        assert(entries@.subrange(0, i + 1).drop_last() =~= entries@.subrange(0, i as int));
        let ghost before = subdirectories@;
        match file_type(entry) {
            FileType::Directory => {
                let child = join_path(path.as_str(), entry.name.as_str());
                subdirectories.push(child);
                assert(texts(subdirectories@) =~= texts(before).push(child@));
            },
            FileType::Qualifying => {
                validate = true;
            },
            FileType::DotFile | FileType::Other => {},
        }
        i = i + 1;
    }
    assert(entries@.subrange(0, i as int) =~= entries@);
    Plan { subdirectories, validate }
}

/// The abstract state of a crawl.
pub ghost struct CrawlerModel {
    /// The filesystem budget: how many directory listings may run at once.
    pub max_fs: nat,
    /// The process budget: how many validations may run at once.
    pub max_process: nat,
    /// Directories waiting to be listed, oldest first.
    pub pending_listings: Seq<Seq<char>>,
    /// Directories waiting to be validated, oldest first.
    pub pending_validations: Seq<Seq<char>>,
    /// Listings handed out and not yet reported back.
    pub active_listings: nat,
    /// Validations handed out and not yet reported back.
    pub active_validations: nat,
    /// Every failure reported so far.
    pub errors: Seq<Error>,
    /// The root, then every visible sub-directory that a listing reported.
    pub discovered: Seq<Seq<char>>,
    /// Every directory handed out for listing.
    pub listed: Seq<Seq<char>>,
    /// Every directory whose listing held a qualifying file.
    pub requested: Seq<Seq<char>>,
    /// Every directory handed out for validation.
    pub validated: Seq<Seq<char>>,
}

impl CrawlerModel {
    /// The crawl's invariant: both budgets are positive and respected, and every directory
    /// discovered (or marked for validation) is either handed out already or still waiting.
    pub open spec fn wf(self) -> bool {
        &&& self.max_fs > 0
        &&& self.max_process > 0
        &&& self.active_listings <= self.max_fs
        &&& self.active_validations <= self.max_process
        &&& self.discovered == self.listed + self.pending_listings
        &&& self.requested == self.validated + self.pending_validations
    }

    /// A listing may be handed out now.
    pub open spec fn can_list(self) -> bool {
        self.pending_listings.len() > 0 && self.active_listings < self.max_fs
    }

    /// A validation may be handed out now.
    pub open spec fn can_validate(self) -> bool {
        self.pending_validations.len() > 0 && self.active_validations < self.max_process
    }

    /// Nothing is waiting and nothing is running: no task can report anything any more.
    pub open spec fn is_quiescent(self) -> bool {
        &&& self.pending_listings.len() == 0
        &&& self.pending_validations.len() == 0
        &&& self.active_listings == 0
        &&& self.active_validations == 0
    }
}

/// What the driver of a crawl is to do next.
#[derive(Debug)]
pub enum Action {
    /// List this directory, then report with `Crawler::on_listing`.
    List(String),
    /// Validate this directory, then report with `Crawler::on_validation`.
    Validate(String),
    /// Wait for a running listing or validation to report back.
    Wait,
    /// Every task has finished: call `Crawler::finish`.
    Finished,
}

/// The decisions of a bounded-concurrency crawl: which directory to list or validate next,
/// within two budgets, and when every task has finished.
pub struct Crawler {
    max_fs: usize,
    max_process: usize,
    pending_listings: Vec<String>,
    pending_validations: Vec<String>,
    active_listings: usize,
    active_validations: usize,
    errors: Vec<Error>,
    discovered: Ghost<Seq<Seq<char>>>,
    listed: Ghost<Seq<Seq<char>>>,
    requested: Ghost<Seq<Seq<char>>>,
    validated: Ghost<Seq<Seq<char>>>,
}

impl View for Crawler {
    type V = CrawlerModel;

    closed spec fn view(&self) -> CrawlerModel {
        CrawlerModel {
            max_fs: self.max_fs as nat,
            max_process: self.max_process as nat,
            pending_listings: texts(self.pending_listings@),
            pending_validations: texts(self.pending_validations@),
            active_listings: self.active_listings as nat,
            active_validations: self.active_validations as nat,
            errors: self.errors@,
            discovered: self.discovered@,
            listed: self.listed@,
            requested: self.requested@,
            validated: self.validated@,
        }
    }
}

/// The error recorded for a listing of `path`, if it failed.
pub open spec fn traversal_errors(path: String, failure: Option<String>) -> Seq<Error> {
    match failure {
        Some(message) => seq![Error::Traversal { path, message }],
        None => Seq::empty(),
    }
}

/// The error recorded for a validation of `path`, if it failed.
pub open spec fn validation_errors(path: String, outcome: Result<(), String>) -> Seq<Error> {
    match outcome {
        Ok(()) => Seq::empty(),
        Err(message) => seq![Error::Validation { path, message }],
    }
}

/// The directories marked for validation by a listing of `path`: the path itself, or none.
pub open spec fn validation_requests(path: Seq<char>, entries: Seq<Entry>) -> Seq<Seq<char>> {
    if needs_validation(entries) {
        seq![path]
    } else {
        Seq::empty()
    }
}

impl Crawler {
    /// A crawl of `root`, with at most `max_fs` listings and at most `max_process`
    /// validations running at once.
    pub fn new(root: String, max_fs: usize, max_process: usize) -> (r: Crawler)
        requires
            max_fs > 0,
            max_process > 0,
        ensures
            r@.wf(),
            r@.max_fs == max_fs,
            r@.max_process == max_process,
            r@.pending_listings == seq![root@],
            r@.pending_validations.len() == 0,
            r@.active_listings == 0,
            r@.active_validations == 0,
            r@.errors.len() == 0,
            r@.discovered == seq![root@],
            r@.listed.len() == 0,
            r@.requested.len() == 0,
            r@.validated.len() == 0,
    {
        let ghost root_view = root@;
        let ghost discovered = seq![root_view];
        let ghost none: Seq<Seq<char>> = Seq::empty();
        let mut pending_listings: Vec<String> = Vec::new();
        pending_listings.push(root);
        let r = Crawler {
            max_fs,
            max_process,
            pending_listings,
            pending_validations: Vec::new(),
            active_listings: 0,
            active_validations: 0,
            errors: Vec::new(),
            discovered: Ghost(discovered),
            listed: Ghost(none),
            requested: Ghost(none),
            validated: Ghost(none),
        };
        assert(r@.pending_listings =~= seq![root_view]);
        assert(r@.discovered =~= r@.listed + r@.pending_listings);
        assert(r@.requested =~= r@.validated + r@.pending_validations);
        r
    }

    /// A crawl of `root` under the budgets of `config`; `None` when either budget is zero,
    /// since no work could ever be handed out under it.
    pub fn from_config(config: &Validate, root: String) -> (r: Option<Crawler>)
        ensures
            r is Some <==> config.max_concurrency_fs > 0 && config.max_concurrency_process > 0,
            r matches Some(c) ==> c@.wf() && c@.max_fs == config.max_concurrency_fs
                && c@.max_process == config.max_concurrency_process && c@.pending_listings
                == seq![root@] && c@.pending_validations.len() == 0 && c@.active_listings == 0
                && c@.active_validations == 0 && c@.errors.len() == 0 && c@.discovered
                == seq![root@] && c@.listed.len() == 0 && c@.requested.len() == 0
                && c@.validated.len() == 0,
    {
        if config.max_concurrency_fs == 0 || config.max_concurrency_process == 0 {
            None
        } else {
            Some(Crawler::new(root, config.max_concurrency_fs, config.max_concurrency_process))
        }
    }

    /// How many listings are handed out and not yet reported back.
    pub fn active_listings(&self) -> (r: usize)
        ensures
            r == self@.active_listings,
    {
        self.active_listings
    }

    /// How many validations are handed out and not yet reported back.
    pub fn active_validations(&self) -> (r: usize)
        ensures
            r == self@.active_validations,
    {
        self.active_validations
    }

    /// Whether nothing is waiting and nothing is running.
    pub fn is_finished(&self) -> (r: bool)
        ensures
            r == self@.is_quiescent(),
    {
        self.pending_listings.len() == 0 && self.pending_validations.len() == 0
            && self.active_listings == 0 && self.active_validations == 0
    }

    /// Hands out the next piece of work. A listing goes first while the filesystem budget
    /// allows, then a validation while the process budget allows; otherwise the driver
    /// waits, or, when nothing is waiting or running, the crawl is finished.
    pub fn next_action(&mut self) -> (a: Action)
        requires
            old(self)@.wf(),
        ensures
            final(self)@.wf(),
            old(self)@.can_list() ==> (a matches Action::List(p) && p@ == old(self)@.pending_listings[0]
                && final(self)@ == (CrawlerModel {
                pending_listings: old(self)@.pending_listings.drop_first(),
                active_listings: old(self)@.active_listings + 1,
                listed: old(self)@.listed.push(p@),
                ..old(self)@
            })),
            !old(self)@.can_list() && old(self)@.can_validate() ==> (a matches Action::Validate(p)
                && p@ == old(self)@.pending_validations[0] && final(self)@ == (CrawlerModel {
                pending_validations: old(self)@.pending_validations.drop_first(),
                active_validations: old(self)@.active_validations + 1,
                validated: old(self)@.validated.push(p@),
                ..old(self)@
            })),
            !old(self)@.can_list() && !old(self)@.can_validate() ==> final(self)@ == old(self)@,
            !old(self)@.can_list() && !old(self)@.can_validate() ==> (a is Finished
                <==> old(self)@.is_quiescent()),
            !old(self)@.can_list() && !old(self)@.can_validate() ==> (a is Wait
                <==> !old(self)@.is_quiescent()),
            a is Finished ==> final(self)@.listed == final(self)@.discovered
                && final(self)@.validated == final(self)@.requested,
    {
        if self.pending_listings.len() > 0 && self.active_listings < self.max_fs {
            let p = self.pending_listings.remove(0);
            self.active_listings = self.active_listings + 1;
            self.listed = Ghost(self.listed@.push(p@));
            proof {
                let o = old(self)@;
                assert(texts(self.pending_listings@) =~= o.pending_listings.drop_first());
                assert(o.pending_listings =~= seq![p@] + o.pending_listings.drop_first());
                assert(self@.discovered =~= self@.listed + self@.pending_listings);
            }
            Action::List(p)
        } else if self.pending_validations.len() > 0 && self.active_validations < self.max_process {
            let p = self.pending_validations.remove(0);
            self.active_validations = self.active_validations + 1;
            self.validated = Ghost(self.validated@.push(p@));
            proof {
                let o = old(self)@;
                assert(texts(self.pending_validations@) =~= o.pending_validations.drop_first());
                assert(o.pending_validations =~= seq![p@] + o.pending_validations.drop_first());
                assert(self@.requested =~= self@.validated + self@.pending_validations);
            }
            Action::Validate(p)
        } else if self.active_listings > 0 || self.active_validations > 0 {
            Action::Wait
        } else {
            proof {
                assert(self@.discovered =~= self@.listed);
                assert(self@.requested =~= self@.validated);
            }
            Action::Finished
        }
    }

    /// Records the listing of `path`: the entries read, and the failure that cut the listing
    /// short, if any. Every visible sub-directory read is queued for listing, the directory
    /// is queued for validation at most once, and a failure is recorded as one error.
    pub fn on_listing(&mut self, path: String, entries: Vec<Entry>, failure: Option<String>)
        requires
            old(self)@.wf(),
            old(self)@.active_listings > 0,
        ensures
            final(self)@.wf(),
            final(self)@ == (CrawlerModel {
                active_listings: (old(self)@.active_listings - 1) as nat,
                pending_listings: old(self)@.pending_listings + subdirectories_of(path@, entries@),
                discovered: old(self)@.discovered + subdirectories_of(path@, entries@),
                pending_validations: old(self)@.pending_validations + validation_requests(
                    path@,
                    entries@,
                ),
                requested: old(self)@.requested + validation_requests(path@, entries@),
                errors: old(self)@.errors + traversal_errors(path, failure),
                ..old(self)@
            }),
    {
        let plan = crawl_directory(&path, &entries);
        let ghost subdirectories = subdirectories_of(path@, entries@);
        let ghost requests = validation_requests(path@, entries@);
        let mut found = plan.subdirectories;
        let ghost found_view = texts(found@);
        let ghost pending_before = texts(self.pending_listings@);
        self.pending_listings.append(&mut found);
        assert(texts(self.pending_listings@) =~= pending_before + found_view);
        self.discovered = Ghost(self.discovered@ + subdirectories);
        let ghost validations_before = texts(self.pending_validations@);
        if plan.validate {
            self.pending_validations.push(path.clone());
            assert(texts(self.pending_validations@) =~= validations_before + requests);
        } else {
            assert(texts(self.pending_validations@) =~= validations_before + requests);
        }
        self.requested = Ghost(self.requested@ + requests);
        let ghost errors_before = self.errors@;
        match failure {
            Some(message) => {
                self.errors.push(Error::Traversal { path, message });
            },
            None => {},
        }
        assert(self.errors@ =~= errors_before + traversal_errors(path, failure));
        self.active_listings = self.active_listings - 1;
        proof {
            assert(self@.discovered =~= self@.listed + self@.pending_listings);
            assert(self@.requested =~= self@.validated + self@.pending_validations);
        }
    }

    /// Records the outcome of the validation of `path`; a failure is recorded as one error.
    pub fn on_validation(&mut self, path: String, outcome: Result<(), String>)
        requires
            old(self)@.wf(),
            old(self)@.active_validations > 0,
        ensures
            final(self)@.wf(),
            final(self)@ == (CrawlerModel {
                active_validations: (old(self)@.active_validations - 1) as nat,
                errors: old(self)@.errors + validation_errors(path, outcome),
                ..old(self)@
            }),
    {
        let ghost errors_before = self.errors@;
        match outcome {
            Ok(()) => {},
            Err(message) => {
                self.errors.push(Error::Validation { path, message });
            },
        }
        assert(self.errors@ =~= errors_before + validation_errors(path, outcome));
        self.active_validations = self.active_validations - 1;
    }

    /// Folds the errors of a finished crawl into its outcome.
    pub fn finish(self) -> (r: Result<(), Error>)
        requires
            self@.wf(),
            self@.is_quiescent(),
        ensures
            aggregates(self@.errors, r),
    {
        join(self.errors)
    }
}

/// How many times `x` occurs in `s`.
pub open spec fn count_of(s: Seq<Seq<char>>, x: Seq<char>) -> nat
    decreases s.len(),
{
    if s.len() == 0 {
        0
    } else {
        count_of(s.drop_last(), x) + if s.last() == x {
            1nat
        } else {
            0nat
        }
    }
}

/// No two entries of a listing share a name.
pub open spec fn distinct_names(entries: Seq<Entry>) -> bool {
    forall|i: int, j: int|
        0 <= i < j < entries.len() ==> #[trigger] entries[i].name@ != #[trigger] entries[j].name@
}

proof fn lemma_child_path_injective(parent: Seq<char>, a: Seq<char>, b: Seq<char>)
    requires
        child_path(parent, a) == child_path(parent, b),
    ensures
        a == b,
{
    let start = parent.len() + "/"@.len();
    assert(child_path(parent, a).subrange(start as int, child_path(parent, a).len() as int) =~= a);
    assert(child_path(parent, b).subrange(start as int, child_path(parent, b).len() as int) =~= b);
}

proof fn lemma_absent_name(parent: Seq<char>, entries: Seq<Entry>, name: Seq<char>)
    requires
        forall|k: int| 0 <= k < entries.len() ==> #[trigger] entries[k].name@ != name,
    ensures
        count_of(subdirectories_of(parent, entries), child_path(parent, name)) == 0,
    decreases entries.len(),
{
    if entries.len() > 0 {
        let rest = entries.drop_last();
        assert forall|k: int| 0 <= k < rest.len() implies #[trigger] rest[k].name@ != name by {
            assert(rest[k] == entries[k]);
        }
        lemma_absent_name(parent, rest, name);
        let last = entries.last();
        assert(last.name@ != name);
        if file_type_of(last.name@, last.kind) == FileType::Directory {
            if child_path(parent, last.name@) == child_path(parent, name) {
                lemma_child_path_injective(parent, last.name@, name);
            }
            assert(subdirectories_of(parent, entries).drop_last() == subdirectories_of(
                parent,
                rest,
            ));
        }
    }
}

/// In a listing whose names are distinct, each visible sub-directory is queued for crawling
/// exactly once, and every other entry (a hidden directory among them) never.
pub proof fn lemma_each_subdirectory_once(parent: Seq<char>, entries: Seq<Entry>, i: int)
    requires
        distinct_names(entries),
        0 <= i < entries.len(),
    ensures
        count_of(subdirectories_of(parent, entries), child_path(parent, entries[i].name@)) == if file_type_of(
            entries[i].name@,
            entries[i].kind,
        ) == FileType::Directory {
            1nat
        } else {
            0nat
        },
    decreases entries.len(),
{
    let rest = entries.drop_last();
    let last = entries.last();
    let x = child_path(parent, entries[i].name@);
    let n = entries.len() - 1;
    if file_type_of(last.name@, last.kind) == FileType::Directory {
        assert(subdirectories_of(parent, entries).drop_last() == subdirectories_of(parent, rest));
    }
    if i == n {
        assert forall|k: int| 0 <= k < rest.len() implies #[trigger] rest[k].name@
            != last.name@ by {
            assert(rest[k] == entries[k]);
            assert(entries[k].name@ != entries[n].name@);
        }
        lemma_absent_name(parent, rest, last.name@);
    } else {
        assert forall|a: int, b: int| 0 <= a < b < rest.len() implies #[trigger] rest[a].name@
            != #[trigger] rest[b].name@ by {
            assert(rest[a] == entries[a]);
            assert(rest[b] == entries[b]);
        }
        assert(rest[i] == entries[i]);
        lemma_each_subdirectory_once(parent, rest, i);
        assert(entries[i].name@ != entries[n].name@);
        if child_path(parent, last.name@) == x {
            lemma_child_path_injective(parent, last.name@, entries[i].name@);
        }
    }
}

/// A hidden entry, wherever it stands in a listing, changes neither the sub-directories
/// queued for crawling nor whether the directory is validated.
pub proof fn lemma_hidden_entry_ignored(parent: Seq<char>, entries: Seq<Entry>, i: int, e: Entry)
    requires
        0 <= i <= entries.len(),
        is_hidden(e.name@),
    ensures
        subdirectories_of(parent, entries.insert(i, e)) == subdirectories_of(parent, entries),
        needs_validation(entries.insert(i, e)) == needs_validation(entries),
    decreases entries.len(),
{
    let with = entries.insert(i, e);
    if i == entries.len() {
        assert(with.drop_last() =~= entries);
    } else {
        assert(with.drop_last() =~= entries.drop_last().insert(i, e));
        lemma_hidden_entry_ignored(parent, entries.drop_last(), i, e);
    }
    if needs_validation(entries) {
        let j = choose|j: int|
            0 <= j < entries.len() && file_type_of(#[trigger] entries[j].name@, entries[j].kind)
                == FileType::Qualifying;
        let k = if j < i {
            j
        } else {
            j + 1
        };
        assert(with[k] == entries[j]);
    }
    if needs_validation(with) {
        let k = choose|k: int|
            0 <= k < with.len() && file_type_of(#[trigger] with[k].name@, with[k].kind)
                == FileType::Qualifying;
        assert(k != i);
        let j = if k < i {
            k
        } else {
            k - 1
        };
        assert(with[k] == entries[j]);
    }
}

/// A listing marks its directory for validation at most once: exactly once when it holds a
/// qualifying file, and not at all otherwise.
pub proof fn lemma_at_most_one_validation(path: Seq<char>, entries: Seq<Entry>)
    ensures
        validation_requests(path, entries).len() <= 1,
        validation_requests(path, entries).len() == 1 <==> needs_validation(entries),
        count_of(validation_requests(path, entries), path) == if needs_validation(entries) {
            1nat
        } else {
            0nat
        },
{
    let r = validation_requests(path, entries);
    if needs_validation(entries) {
        assert(r.drop_last() =~= Seq::<Seq<char>>::empty());
        assert(count_of(r.drop_last(), path) == 0);
    }
}

/// In every state of a crawl, no more listings run than the filesystem budget allows, and no
/// more validations than the process budget allows.
pub proof fn lemma_budgets_respected(crawl: CrawlerModel)
    requires
        crawl.wf(),
    ensures
        crawl.active_listings <= crawl.max_fs,
        crawl.active_validations <= crawl.max_process,
{
}

} // verus!
