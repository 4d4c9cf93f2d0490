//! The decisions of a run: what to ask the registry, what each answer
//! contributes, and what to do with the updates found.
//!
//! The caller does the asking. It may ask for all dependencies at once and
//! hand the answers in as they arrive: each answer is judged on its own, so
//! a lookup that fails costs its own update and no other.

use crate::aggregate::{
    lemma_sorted_by_name_is_sorted, lemma_sorted_by_name_permutes, lemma_sorted_keeps_names_distinct,
    lemma_sorted_unique, names_distinct, sort_by_name, sorted_by_name,
};
use crate::dependencies::{entries_map, lemma_entries_len, names_of, PackageDependencies};
use crate::flags::Flags;
use crate::package_info::{infos_view, PackageInfo, PackageInfoView};
use crate::package_json::{
    detected, invocation_args, manager_field_known, texts, InstallCommand, PackageJsonManager,
};
use crate::package_manager::manager_name;
use crate::registry::client::{
    endpoint, fetched_view, package_info_spec, url_parse, RegistryClient, UpdateError,
};
use crate::registry::errors::RegistryError;
use crate::versions::dist_tags::DistTags;
use crate::versions::version_target::VersionTarget;
use vstd::prelude::*;

verus! {

/// A lookup to make: one dependency and the URL to ask for its dist-tags,
/// or the reason why there is no such URL.
#[derive(Debug)]
pub struct Request {
    pub name: String,
    pub current_version: String,
    pub url: Result<String, RegistryError>,
}

/// A finished lookup: one dependency and what came back for it.
#[derive(Debug)]
pub struct Lookup {
    pub name: String,
    pub current_version: String,
    pub fetched: Result<DistTags, RegistryError>,
}

/// A dependency that was passed over, and why.
#[derive(Debug, PartialEq, Eq)]
pub struct Warning {
    pub pkg_name: String,
    pub error: UpdateError,
}

/// What one finished lookup contributes to the run.
#[derive(Debug)]
pub enum Resolution {
    /// An update is available.
    Update(PackageInfo),
    /// The dependency is up to date under the target.
    UpToDate,
    /// The dependency was passed over.
    Failed(Warning),
}

/// What a run has gathered: the updates found, in the order in which their
/// lookups finished, and the warnings to log.
#[derive(Debug)]
pub struct Report {
    pub updates: Vec<PackageInfo>,
    pub warnings: Vec<Warning>,
}

/// How a run begins.
#[derive(Debug)]
pub enum RunStep {
    /// There is no dependency to check: say so and stop.
    NoDependencies,
    /// Make these lookups.
    Fetch(Vec<Request>),
}

/// How a run goes on once all lookups have finished.
#[derive(Debug)]
pub enum Outcome {
    /// Nothing to update: say so and stop.
    UpToDate,
    /// Let the user choose among these updates, sorted by package name.
    Choose(Vec<PackageInfo>),
}

/// How a run ends once the user has chosen.
#[derive(Debug)]
pub enum Conclusion {
    /// The user left the selection: nothing is installed.
    Cancelled,
    /// The user chose nothing: nothing is installed.
    NothingSelected,
    /// Run this to install what the user chose.
    Install(InstallCommand),
}

/// The parts of a run: the manifest, the registry, and the options.
#[derive(Debug)]
pub struct UpdateChecker {
    pub pkg_manager: PackageJsonManager,
    pub client: RegistryClient,
    pub flags: Flags,
}

/// The names and constraints of a list of requests, in order.
pub open spec fn request_entries(requests: Seq<Request>) -> Seq<(String, String)> {
    requests.map_values(|q: Request| (q.name, q.current_version))
}

/// Whether a request carries the URL of its package's dist-tags under the
/// client's registry, or `ParseError` where there is no such URL.
pub open spec fn url_is_for(client: RegistryClient, request: Request) -> bool {
    match request.url {
        Ok(u) => url_parse(endpoint(client.registry_url@, request.name@)) == Some(u@),
        Err(e) => url_parse(endpoint(client.registry_url@, request.name@)) is None
            && e is ParseError,
    }
}

/// What the policy makes of a finished lookup.
pub open spec fn outcome_of(lookup: Lookup, target: VersionTarget) -> Result<
    Option<PackageInfoView>,
    UpdateError,
> {
    package_info_spec(lookup.name@, lookup.current_version@, fetched_view(lookup.fetched), target)
}

/// The update that a finished lookup contributes, if any.
pub open spec fn contribution(lookup: Lookup, target: VersionTarget) -> Seq<PackageInfoView> {
    match outcome_of(lookup, target) {
        Ok(Some(info)) => seq![info],
        _ => Seq::empty(),
    }
}

/// The warning that a finished lookup causes, if any: the package and the failure.
pub open spec fn complaint(lookup: Lookup, target: VersionTarget) -> Seq<(Seq<char>, UpdateError)> {
    match outcome_of(lookup, target) {
        Err(e) => seq![(lookup.name@, e)],
        _ => Seq::empty(),
    }
}

/// The updates that a list of finished lookups contributes, in their order.
pub open spec fn candidates_of(lookups: Seq<Lookup>, target: VersionTarget) -> Seq<
    PackageInfoView,
>
    decreases lookups.len(),
{
    if lookups.len() == 0 {
        Seq::empty()
    } else {
        candidates_of(lookups.drop_last(), target) + contribution(lookups.last(), target)
    }
}

/// The warnings that a list of finished lookups causes, in their order.
pub open spec fn warnings_of(lookups: Seq<Lookup>, target: VersionTarget) -> Seq<
    (Seq<char>, UpdateError),
>
    decreases lookups.len(),
{
    if lookups.len() == 0 {
        Seq::empty()
    } else {
        warnings_of(lookups.drop_last(), target) + complaint(lookups.last(), target)
    }
}

/// The values of a list of warnings.
pub open spec fn warnings_view(list: Seq<Warning>) -> Seq<(Seq<char>, UpdateError)> {
    list.map_values(|w: Warning| (w.pkg_name@, w.error))
}

/// What is shown to the user for a list of finished lookups: their updates
/// sorted by package name.
pub open spec fn shown(lookups: Seq<Lookup>, target: VersionTarget) -> Seq<PackageInfoView> {
    sorted_by_name(candidates_of(lookups, target))
}

/// The lookups with those at the positions in `down` made to fail with
/// `error`.
pub open spec fn with_failures(
    lookups: Seq<Lookup>,
    down: Set<int>,
    error: spec_fn(int) -> RegistryError,
) -> Seq<Lookup> {
    Seq::new(
        lookups.len(),
        |i: int|
            if down.contains(i) {
                Lookup {
                    name: lookups[i].name,
                    current_version: lookups[i].current_version,
                    fetched: Err(error(i)),
                }
            } else {
                lookups[i]
            },
    )
}

/// The first `upto` lookups without those at the positions in `down`.
pub open spec fn without(lookups: Seq<Lookup>, down: Set<int>, upto: int) -> Seq<Lookup>
    decreases upto,
{
    if upto <= 0 {
        Seq::empty()
    } else if down.contains(upto - 1) {
        without(lookups, down, upto - 1)
    } else {
        without(lookups, down, upto - 1).push(lookups[upto - 1])
    }
}

/// A lookup that failed contributes no update.
pub proof fn lemma_failed_lookup_contributes_nothing(lookup: Lookup, target: VersionTarget)
    requires
        lookup.fetched is Err,
    ensures
        contribution(lookup, target) == Seq::<PackageInfoView>::empty(),
        complaint(lookup, target).len() == 1,
{
}

/// Every finished lookup ends in at most one of an update and a warning.
pub proof fn lemma_each_lookup_counts_once(lookups: Seq<Lookup>, target: VersionTarget)
    ensures
        candidates_of(lookups, target).len() + warnings_of(lookups, target).len() <= lookups.len(),
    decreases lookups.len(),
{
    if lookups.len() > 0 {
        lemma_each_lookup_counts_once(lookups.drop_last(), target);
    }
}

/// The updates of two lists of lookups, one after the other, are the
/// updates of the one followed by the updates of the other.
pub proof fn lemma_candidates_concat(a: Seq<Lookup>, b: Seq<Lookup>, target: VersionTarget)
    ensures
        candidates_of(a + b, target) == candidates_of(a, target) + candidates_of(b, target),
    decreases b.len(),
{
    if b.len() == 0 {
        assert(a + b =~= a);
        assert(candidates_of(a, target) + candidates_of(b, target) =~= candidates_of(a, target));
    } else {
        lemma_candidates_concat(a, b.drop_last(), target);
        assert((a + b).drop_last() =~= a + b.drop_last());
        assert((a + b).last() == b.last());
        assert(candidates_of(a + b, target) =~= candidates_of(a, target) + candidates_of(
            b,
            target,
        ));
    }
}

/// Failure isolation. However many lookups are made to fail, the run finds
/// exactly the updates that it would find had only the others been made:
/// what the others contribute is untouched, and nothing is lost or added.
pub proof fn lemma_failure_isolation(
    lookups: Seq<Lookup>,
    down: Set<int>,
    error: spec_fn(int) -> RegistryError,
    target: VersionTarget,
)
    ensures
        candidates_of(with_failures(lookups, down, error), target) == candidates_of(
            without(lookups, down, lookups.len() as int),
            target,
        ),
        shown(with_failures(lookups, down, error), target) == shown(
            without(lookups, down, lookups.len() as int),
            target,
        ),
{
    let failed = with_failures(lookups, down, error);
    lemma_failure_isolation_upto(lookups, down, error, target, lookups.len() as int);
    assert(failed.take(lookups.len() as int) =~= failed);
}

/// Failure isolation for the first `upto` lookups.
proof fn lemma_failure_isolation_upto(
    lookups: Seq<Lookup>,
    down: Set<int>,
    error: spec_fn(int) -> RegistryError,
    target: VersionTarget,
    upto: int,
)
    requires
        0 <= upto <= lookups.len(),
    ensures
        candidates_of(with_failures(lookups, down, error).take(upto), target) == candidates_of(
            without(lookups, down, upto),
            target,
        ),
    decreases upto,
{
    let failed = with_failures(lookups, down, error);
    if upto > 0 {
        lemma_failure_isolation_upto(lookups, down, error, target, upto - 1);
        assert(failed.take(upto).drop_last() =~= failed.take(upto - 1));
        assert(failed.take(upto).last() == failed[upto - 1]);
        if down.contains(upto - 1) {
            lemma_failed_lookup_contributes_nothing(failed[upto - 1], target);
            assert(candidates_of(failed.take(upto), target) =~= candidates_of(
                failed.take(upto - 1),
                target,
            ));
        } else {
            let kept = without(lookups, down, upto - 1);
            assert(kept.push(lookups[upto - 1]).drop_last() =~= kept);
            assert(kept.push(lookups[upto - 1]).last() == lookups[upto - 1]);
        }
    }
}

/// An update is found exactly if some lookup contributes it.
pub proof fn lemma_candidates_membership(
    lookups: Seq<Lookup>,
    target: VersionTarget,
    info: PackageInfoView,
)
    ensures
        candidates_of(lookups, target).contains(info) <==> exists|i: int|
            0 <= i < lookups.len() && #[trigger] outcome_of(lookups[i], target) == Ok::<
                Option<PackageInfoView>,
                UpdateError,
            >(Some(info)),
    decreases lookups.len(),
{
    if lookups.len() == 0 {
    } else {
        let front = lookups.drop_last();
        let last = lookups.last();
        lemma_candidates_membership(front, target, info);
        let found = candidates_of(lookups, target);
        if found.contains(info) {
            let k = choose|k: int| 0 <= k < found.len() && found[k] == info;
            if k < candidates_of(front, target).len() {
                assert(candidates_of(front, target)[k] == info);
                let i = choose|i: int|
                    0 <= i < front.len() && #[trigger] outcome_of(front[i], target) == Ok::<
                        Option<PackageInfoView>,
                        UpdateError,
                    >(Some(info));
                assert(outcome_of(lookups[i], target) == outcome_of(front[i], target));
            } else {
                assert(contribution(last, target)[k - candidates_of(front, target).len()] == info);
                assert(outcome_of(lookups[lookups.len() - 1], target) == Ok::<
                    Option<PackageInfoView>,
                    UpdateError,
                >(Some(info)));
            }
        }
        if exists|i: int|
            0 <= i < lookups.len() && #[trigger] outcome_of(lookups[i], target) == Ok::<
                Option<PackageInfoView>,
                UpdateError,
            >(Some(info)) {
            let i = choose|i: int|
                0 <= i < lookups.len() && #[trigger] outcome_of(lookups[i], target) == Ok::<
                    Option<PackageInfoView>,
                    UpdateError,
                >(Some(info));
            if i < front.len() {
                assert(outcome_of(front[i], target) == outcome_of(lookups[i], target));
                let k = choose|k: int|
                    0 <= k < candidates_of(front, target).len() && candidates_of(front, target)[k]
                        == info;
                assert(found[k] == info);
            } else {
                assert(contribution(last, target) =~= seq![info]);
                assert(found[candidates_of(front, target).len() as int] == info);
            }
        }
    }
}

/// Idempotence. Two runs over the same finished lookups, in whatever order
/// they arrived, find the same set of updates and show the same set.
pub proof fn lemma_same_lookups_same_updates(a: Seq<Lookup>, b: Seq<Lookup>, target: VersionTarget)
    requires
        a.to_set() == b.to_set(),
    ensures
        candidates_of(a, target).to_set() == candidates_of(b, target).to_set(),
        shown(a, target).to_set() == shown(b, target).to_set(),
{
    assert forall|info: PackageInfoView|
        candidates_of(a, target).contains(info) == candidates_of(b, target).contains(info) by {
        lemma_candidates_membership(a, target, info);
        lemma_candidates_membership(b, target, info);
        if candidates_of(a, target).contains(info) {
            let i = choose|i: int|
                0 <= i < a.len() && #[trigger] outcome_of(a[i], target) == Ok::<
                    Option<PackageInfoView>,
                    UpdateError,
                >(Some(info));
            assert(a.to_set().contains(a[i]));
            assert(b.contains(a[i]));
            let j = choose|j: int| 0 <= j < b.len() && b[j] == a[i];
            assert(outcome_of(b[j], target) == outcome_of(a[i], target));
        }
        if candidates_of(b, target).contains(info) {
            let i = choose|i: int|
                0 <= i < b.len() && #[trigger] outcome_of(b[i], target) == Ok::<
                    Option<PackageInfoView>,
                    UpdateError,
                >(Some(info));
            assert(b.to_set().contains(b[i]));
            assert(a.contains(b[i]));
            let j = choose|j: int| 0 <= j < a.len() && a[j] == b[i];
            assert(outcome_of(a[j], target) == outcome_of(b[i], target));
        }
    }
    assert(candidates_of(a, target).to_set() =~= candidates_of(b, target).to_set());
    lemma_shown_set(a, target);
    lemma_shown_set(b, target);
}

/// No two lookups are for the same package.
pub open spec fn lookups_distinct(lookups: Seq<Lookup>) -> bool {
    forall|i: int, j: int|
        0 <= i < lookups.len() && 0 <= j < lookups.len() && i != j ==> lookups[i].name@
            != lookups[j].name@
}

/// Lookups for distinct packages contribute updates of distinct packages.
pub proof fn lemma_candidates_names_distinct(lookups: Seq<Lookup>, target: VersionTarget)
    requires
        lookups_distinct(lookups),
    ensures
        names_distinct(candidates_of(lookups, target)),
    decreases lookups.len(),
{
    if lookups.len() > 0 {
        let front = lookups.drop_last();
        let last = lookups.last();
        assert(lookups_distinct(front)) by {
            assert forall|i: int, j: int|
                0 <= i < front.len() && 0 <= j < front.len() && i != j implies front[i].name@
                != front[j].name@ by {
                assert(lookups[i].name@ != lookups[j].name@);
            }
        }
        lemma_candidates_names_distinct(front, target);
        let before = candidates_of(front, target);
        let found = candidates_of(lookups, target);
        assert forall|k: int| 0 <= k < before.len() implies before[k].pkg_name != last.name@ by {
            assert(before.contains(before[k]));
            lemma_candidates_membership(front, target, before[k]);
            let i = choose|i: int|
                0 <= i < front.len() && #[trigger] outcome_of(front[i], target) == Ok::<
                    Option<PackageInfoView>,
                    UpdateError,
                >(Some(before[k]));
            assert(before[k].pkg_name == front[i].name@);
            assert(lookups[i].name@ != lookups[lookups.len() - 1].name@);
        }
        assert forall|i: int, j: int|
            0 <= i < found.len() && 0 <= j < found.len() && i != j implies found[i].pkg_name
            != found[j].pkg_name by {
            if i < before.len() && j < before.len() {
                assert(before[i].pkg_name != before[j].pkg_name);
            } else if i < before.len() {
                assert(found[j] == contribution(last, target)[j - before.len()]);
                assert(found[j].pkg_name == last.name@);
            } else if j < before.len() {
                assert(found[i] == contribution(last, target)[i - before.len()]);
                assert(found[i].pkg_name == last.name@);
            } else {
                assert(contribution(last, target).len() <= 1);
            }
        }
    }
}

/// Order of arrival. Where no two lookups are for the same package, what is
/// shown to the user is the same list in whatever order the lookups finished.
pub proof fn lemma_shown_independent_of_arrival(
    a: Seq<Lookup>,
    b: Seq<Lookup>,
    target: VersionTarget,
)
    requires
        lookups_distinct(a),
        lookups_distinct(b),
        a.to_set() == b.to_set(),
    ensures
        shown(a, target) == shown(b, target),
{
    lemma_same_lookups_same_updates(a, b, target);
    lemma_candidates_names_distinct(a, target);
    lemma_candidates_names_distinct(b, target);
    lemma_sorted_keeps_names_distinct(candidates_of(a, target));
    lemma_sorted_keeps_names_distinct(candidates_of(b, target));
    lemma_sorted_by_name_is_sorted(candidates_of(a, target));
    lemma_sorted_by_name_is_sorted(candidates_of(b, target));
    lemma_sorted_unique(shown(a, target), shown(b, target));
}

/// What is shown holds exactly the updates found.
pub proof fn lemma_shown_set(lookups: Seq<Lookup>, target: VersionTarget)
    ensures
        shown(lookups, target).to_set() == candidates_of(lookups, target).to_set(),
        shown(lookups, target).len() == candidates_of(lookups, target).len(),
{
    broadcast use vstd::seq_lib::group_to_multiset_ensures;

    let found = candidates_of(lookups, target);
    lemma_sorted_by_name_permutes(found);
    assert forall|info: PackageInfoView| shown(lookups, target).contains(info) == found.contains(
        info,
    ) by {
        assert(shown(lookups, target).to_multiset().count(info) == found.to_multiset().count(info));
    }
    assert(shown(lookups, target).to_set() =~= found.to_set());
}

impl Report {
    /// A report with nothing in it.
    pub fn new() -> (r: Report)
        ensures
            r.updates@.len() == 0,
            r.warnings@.len() == 0,
    {
        Report { updates: Vec::new(), warnings: Vec::new() }
    }

    /// Takes in what one finished lookup contributed.
    pub fn record(&mut self, resolution: Resolution)
        ensures
            match resolution {
                Resolution::Update(info) => final(self).updates@ == old(self).updates@.push(info)
                    && final(self).warnings@ == old(self).warnings@,
                Resolution::UpToDate => final(self).updates@ == old(self).updates@
                    && final(self).warnings@ == old(self).warnings@,
                Resolution::Failed(warning) => final(self).updates@ == old(self).updates@
                    && final(self).warnings@ == old(self).warnings@.push(warning),
            },
    {
        match resolution {
            Resolution::Update(info) => {
                self.updates.push(info);
            },
            Resolution::UpToDate => {},
            Resolution::Failed(warning) => {
                self.warnings.push(warning);
            },
        }
    }
}

/// The lookups in reverse order.
fn reversed(lookups: Vec<Lookup>) -> (r: Vec<Lookup>)
    ensures
        r@ == lookups@.reverse(),
{
    let ghost all = lookups@;
    let mut rest = lookups;
    let mut out: Vec<Lookup> = Vec::new();
    while rest.len() > 0
        invariant
            rest@.len() <= all.len(),
            rest@ == all.take(rest@.len() as int),
            out@.len() == all.len() - rest@.len(),
            forall|j: int| 0 <= j < out@.len() ==> out@[j] == all[all.len() - 1 - j],
        decreases rest@.len(),
    {
        let x = rest.pop().unwrap();
        out.push(x);
    }
    assert(out@ =~= all.reverse());
    out
}

impl UpdateChecker {
    /// A run on the given manifest with the given options, against the
    /// default registry.
    pub fn new(pkg_manager: PackageJsonManager, flags: Flags) -> (r: UpdateChecker)
        ensures
            r.pkg_manager == pkg_manager,
            r.flags == flags,
            r.client.registry_url@ == "https://registry.npmjs.org"@,
    {
        UpdateChecker { pkg_manager, flags, client: RegistryClient::default() }
    }

    /// The lookups to make: one for each dependency, each with the URL to
    /// ask, in the order in which the dependencies are listed.
    pub fn fetch_updates(&self, deps: &PackageDependencies) -> (r: Vec<Request>)
        ensures
            deps@.dom().finite(),
            r@.len() == deps@.dom().len(),
            names_of(request_entries(r@)).no_duplicates(),
            entries_map(request_entries(r@)) == deps@,
            forall|i: int| 0 <= i < r@.len() ==> url_is_for(self.client, #[trigger] r@[i]),
    {
        let entries = deps.entries();
        let mut requests: Vec<Request> = Vec::with_capacity(deps.len());
        proof {
            lemma_entries_len(entries@);
        }
        let mut i: usize = 0;
        while i < entries.len()
            invariant
                i <= entries@.len(),
                requests@.len() == i,
                request_entries(requests@) == entries@.take(i as int),
                forall|j: int| 0 <= j < i ==> url_is_for(self.client, #[trigger] requests@[j]),
            decreases entries@.len() - i,
        {
            let ghost before = requests@;
            let name = entries[i].0.clone();
            let current_version = entries[i].1.clone();
            let url = self.client.package_url(name.as_str());
            requests.push(Request { name, current_version, url });
            proof {
                assert forall|j: int| 0 <= j < i implies request_entries(requests@)[j]
                    == entries@[j] by {
                    assert(request_entries(before)[j] == entries@.take(i as int)[j]);
                }
                assert(request_entries(requests@) =~= entries@.take(i + 1));
            }
            i = i + 1;
        }
        assert(entries@.take(entries@.len() as int) =~= entries@);
        requests
    }

    /// How the run begins for the given dependencies.
    pub fn run(&self, deps: &PackageDependencies) -> (r: RunStep)
        ensures
            match r {
                RunStep::NoDependencies => deps@ == Map::<Seq<char>, Seq<char>>::empty(),
                RunStep::Fetch(requests) => {
                    &&& requests@.len() > 0
                    &&& requests@.len() == deps@.dom().len()
                    &&& names_of(request_entries(requests@)).no_duplicates()
                    &&& entries_map(request_entries(requests@)) == deps@
                    &&& forall|i: int|
                        0 <= i < requests@.len() ==> url_is_for(
                            self.client,
                            #[trigger] requests@[i],
                        )
                },
            },
    {
        if deps.is_empty() {
            return RunStep::NoDependencies;
        }
        let requests = self.fetch_updates(deps);
        proof {
            if requests@.len() == 0 {
                assert(deps@.dom().len() == 0);
                assert(deps@.dom() =~= Set::empty()) by {
                    deps@.dom().lemma_len0_is_empty();
                }
                assert(deps@ =~= Map::empty());
            }
        }
        RunStep::Fetch(requests)
    }

    /// What one finished lookup contributes.
    pub fn resolve(&self, lookup: Lookup) -> (r: Resolution)
        ensures
            match outcome_of(lookup, self.flags.target) {
                Ok(Some(info)) => r matches Resolution::Update(found) && found@ == info,
                Ok(None) => r is UpToDate,
                Err(e) => r matches Resolution::Failed(warning) && warning.pkg_name@ == lookup.name@
                    && warning.error == e,
            },
    {
        let Lookup { name, current_version, fetched } = lookup;
        match RegistryClient::get_package_info(
            name.as_str(),
            current_version.as_str(),
            fetched,
            &self.flags,
        ) {
            Ok(Some(info)) => Resolution::Update(info),
            Ok(None) => Resolution::UpToDate,
            Err(error) => Resolution::Failed(Warning { pkg_name: name, error }),
        }
    }

    /// Gathers what the finished lookups contribute, in the order in which
    /// they finished. None of them can fail the run.
    pub fn process_update_stream(&self, lookups: Vec<Lookup>) -> (r: Report)
        ensures
            infos_view(r.updates@) == candidates_of(lookups@, self.flags.target),
            warnings_view(r.warnings@) == warnings_of(lookups@, self.flags.target),
    {
        let ghost all = lookups@;
        let ghost target = self.flags.target;
        let mut rest = reversed(lookups);
        let mut report = Report::new();
        assert(infos_view(report.updates@) =~= candidates_of(all.take(0), target));
        assert(warnings_view(report.warnings@) =~= warnings_of(all.take(0), target));
        while rest.len() > 0
            invariant
                rest@.len() <= all.len(),
                target == self.flags.target,
                rest@ == all.reverse().take(rest@.len() as int),
                infos_view(report.updates@) == candidates_of(
                    all.take(all.len() - rest@.len()),
                    target,
                ),
                warnings_view(report.warnings@) == warnings_of(
                    all.take(all.len() - rest@.len()),
                    target,
                ),
            decreases rest@.len(),
        {
            let ghost k = all.len() - rest@.len();
            let ghost updates_before = report.updates@;
            let ghost warnings_before = report.warnings@;
            let lookup = rest.pop().unwrap();
            assert(lookup == all[k]);
            let resolution = self.resolve(lookup);
            let ghost judged = resolution;
            report.record(resolution);
            proof {
                assert(all.take(k + 1).drop_last() =~= all.take(k));
                assert(all.take(k + 1).last() == all[k]);
                match judged {
                    Resolution::Update(info) => {
                        assert(infos_view(report.updates@) =~= infos_view(updates_before).push(
                            info@,
                        ));
                        assert(contribution(all[k], target) =~= seq![info@]);
                        assert(complaint(all[k], target) =~= Seq::empty());
                    },
                    Resolution::UpToDate => {
                        assert(contribution(all[k], target) =~= Seq::empty());
                        assert(complaint(all[k], target) =~= Seq::empty());
                    },
                    Resolution::Failed(warning) => {
                        assert(warnings_view(report.warnings@) =~= warnings_view(
                            warnings_before,
                        ).push((warning.pkg_name@, warning.error)));
                        assert(contribution(all[k], target) =~= Seq::empty());
                    },
                }
                assert(infos_view(report.updates@) =~= candidates_of(all.take(k + 1), target));
                assert(warnings_view(report.warnings@) =~= warnings_of(all.take(k + 1), target));
            }
        }
        assert(all.take(all.len() as int) =~= all);
        report
    }

    /// How the run goes on with the updates found: they are sorted by
    /// package name for the user to choose from, unless there is none.
    pub fn handle_updatable_packages(&self, updatable_packages: Vec<PackageInfo>) -> (r: Outcome)
        ensures
            match r {
                Outcome::UpToDate => updatable_packages@.len() == 0,
                Outcome::Choose(sorted) => updatable_packages@.len() > 0 && infos_view(sorted@)
                    == sorted_by_name(infos_view(updatable_packages@)),
            },
    {
        if updatable_packages.len() == 0 {
            return Outcome::UpToDate;
        }
        Outcome::Choose(sort_by_name(updatable_packages))
    }

    /// How the run ends with the user's choice, given the lock files
    /// `present` beside the manifest: what was chosen is installed, in the
    /// order given, unless the user chose nothing or left the selection.
    pub fn handle_selection(&self, selected: Option<Vec<PackageInfo>>, present: &Vec<String>) -> (r:
        Conclusion)
        requires
            selected matches Some(chosen) && chosen@.len() > 0 ==> manager_field_known(
                self.pkg_manager.json,
            ),
        ensures
            match selected {
                None => r is Cancelled,
                Some(chosen) => if chosen@.len() == 0 {
                    r is NothingSelected
                } else {
                    &&& r matches Conclusion::Install(command)
                    &&& command.program@ == manager_name(detected(self.pkg_manager, present@))
                    &&& texts(command.args@) == invocation_args(
                        detected(self.pkg_manager, present@),
                        chosen@,
                        self.pkg_manager.flags.global,
                    )
                },
            },
    {
        match selected {
            None => Conclusion::Cancelled,
            Some(chosen) => {
                if chosen.len() == 0 {
                    Conclusion::NothingSelected
                } else {
                    Conclusion::Install(self.pkg_manager.install_deps(chosen.as_slice(), present))
                }
            },
        }
    }

    /// Judges all finished lookups of a run: what to show, and what to warn of.
    pub fn check_updates(&self, lookups: Vec<Lookup>) -> (r: (Outcome, Vec<Warning>))
        ensures
            warnings_view(r.1@) == warnings_of(lookups@, self.flags.target),
            match r.0 {
                Outcome::UpToDate => candidates_of(lookups@, self.flags.target).len() == 0,
                Outcome::Choose(sorted) => candidates_of(lookups@, self.flags.target).len() > 0
                    && infos_view(sorted@) == shown(lookups@, self.flags.target),
            },
    {
        let report = self.process_update_stream(lookups);
        let Report { updates, warnings } = report;
        (self.handle_updatable_packages(updates), warnings)
    }
}

} // verus!
