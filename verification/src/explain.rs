//! Infers which change started a rebuild cascade.
//!
//! Cargo says *that* a crate was invalidated and, in prose, roughly why. This module reads those
//! reasons as cause edges between crates, finds the one crate nothing else invalidated, and
//! collects everything that traces back to it. It is inference over free text, so it is
//! best-effort by nature and declines to guess when the text is ambiguous.

use vstd::hash_set::StringHashSet;
use vstd::prelude::*;

use crate::build_log;
use crate::build_log::{BuildLog, BuildLogView};
use crate::ordered;
use crate::ordered::OrderedMap;
use crate::parse;
use crate::parse::fingerprint;
use crate::parse::{CrateId, CrateStatus, CrateStatusView, StatusKind, StatusKindView, WorkKind};
use crate::text;

verus! {

/// The rebuild story: one crate blamed for it, and every crate that followed from it.
#[derive(Debug, PartialEq, Eq)]
pub struct Analysis {
    pub culprit: CrateId,
    pub cascade: Vec<CascadeEntry>,
}

/// One crate in the cascade, in the order cargo first reported work for it.
#[derive(Debug, PartialEq, Eq)]
pub struct CascadeEntry {
    pub crate_id: CrateId,
    pub kind: WorkKind,
    /// Cargo's own explanation, absent when cargo reported work without a `Dirty` line.
    pub reason: Option<String>,
    /// The crate this one was invalidated by; absent for the culprit and whenever the reason was
    /// too ambiguous to attribute.
    pub caused_by: Option<CrateId>,
    /// Fingerprint-trace details, non-empty only under `--deep`.
    pub details: Vec<String>,
}

/// The crate a rebuild is blamed on.
#[derive(Debug, PartialEq, Eq)]
pub enum Culprit {
    /// A crate no other crate is known to have invalidated: a genuine root of the rebuild.
    Root(CrateId),
    /// Every crate was blamed on another one, so cargo's reasons form a cycle and no root
    /// exists. The first crate that did work is reported on its own instead.
    Fallback(CrateId),
}

/// An [`Analysis`] with its text as sequences of characters.
pub struct AnalysisView {
    pub culprit: Seq<char>,
    pub cascade: Seq<CascadeEntryView>,
}

/// A [`CascadeEntry`] with its text as sequences of characters.
pub struct CascadeEntryView {
    pub crate_id: Seq<char>,
    pub kind: WorkKind,
    pub reason: Option<Seq<char>>,
    pub caused_by: Option<Seq<char>>,
    pub details: Seq<Seq<char>>,
}

/// A [`Culprit`] with its text as a sequence of characters.
pub enum CulpritView {
    Root(Seq<char>),
    Fallback(Seq<char>),
}

impl View for Analysis {
    type V = AnalysisView;

    open spec fn view(&self) -> AnalysisView {
        AnalysisView { culprit: self.culprit@, cascade: text::views(self.cascade@) }
    }
}

impl View for CascadeEntry {
    type V = CascadeEntryView;

    open spec fn view(&self) -> CascadeEntryView {
        CascadeEntryView {
            crate_id: self.crate_id@,
            kind: self.kind,
            reason: text::opt_view(self.reason),
            caused_by: fingerprint::id_view(self.caused_by),
            details: text::views(self.details@),
        }
    }
}

impl View for Culprit {
    type V = CulpritView;

    open spec fn view(&self) -> CulpritView {
        match self {
            Culprit::Root(id) => CulpritView::Root(id@),
            Culprit::Fallback(id) => CulpritView::Fallback(id@),
        }
    }
}

impl Clone for CascadeEntry {
    fn clone(&self) -> (copy: Self)
        ensures
            copy@ == self@,
    {
        CascadeEntry {
            crate_id: self.crate_id.clone(),
            kind: self.kind,
            reason: text::copy_of(&self.reason),
            caused_by: match &self.caused_by {
                Some(cause) => Some(cause.clone()),
                None => None,
            },
            details: text::copies_of(&self.details),
        }
    }
}

impl Clone for Analysis {
    fn clone(&self) -> (copy: Self)
        ensures
            copy@ == self@,
    {
        let mut cascade: Vec<CascadeEntry> = Vec::new();
        let mut i: usize = 0;
        while i < self.cascade.len()
            invariant
                i <= self.cascade@.len(),
                text::views(cascade@) == text::views(self.cascade@).take(i as int),
            decreases self.cascade@.len() - i,
        {
            let ghost before = cascade@;
            cascade.push(self.cascade[i].clone());
            assert(text::views(cascade@) =~= text::views(before).push(self.cascade@[i as int]@));
            i = i + 1;
            assert(text::views(cascade@) =~= text::views(self.cascade@).take(i as int));
        }
        assert(text::views(self.cascade@).take(i as int) =~= text::views(self.cascade@));
        Analysis { culprit: self.culprit.clone(), cascade }
    }
}

/// The units worked on with the kind of work, by their views.
pub open spec fn work_views(work: Seq<(CrateId, WorkKind)>) -> Seq<(Seq<char>, WorkKind)> {
    work.map_values(|unit: (CrateId, WorkKind)| (unit.0@, unit.1))
}

/// The units that did work, each with the kind of its first work, in the order in which cargo
/// first reported work on them.
pub open spec fn work_list(statuses: Seq<CrateStatusView>) -> Seq<(Seq<char>, WorkKind)>
    decreases statuses.len(),
{
    if statuses.len() == 0 {
        Seq::empty()
    } else {
        let before = statuses.drop_last();
        let status = statuses.last();
        match status.kind {
            StatusKindView::Work(kind) if !build_log::said_work(before, status.id) => work_list(
                before,
            ).push((status.id, kind)),
            _ => work_list(before),
        }
    }
}

/// The text between a marker and the next backtick, unless there is none or it is empty.
pub open spec fn quoted_behind(reason: Seq<char>, marker: Seq<char>) -> Option<Seq<char>> {
    match text::split_at_first(reason, marker) {
        Some((_, behind)) => match text::split_at_first(behind, "`"@) {
            Some((name, _)) if name.len() > 0 => Some(name),
            _ => None,
        },
        None => None,
    }
}

/// The dependency that a reason names.
pub open spec fn dependency_in(reason: Seq<char>) -> Option<Seq<char>> {
    match quoted_behind(reason, "dependency on `"@) {
        Some(name) => Some(name),
        None => quoted_behind(reason, "dependency `"@),
    }
}

/// Whether the unit at position `at` is the only one of its name.
pub open spec fn only_one_named(
    work: Seq<(Seq<char>, WorkKind)>,
    name: Seq<char>,
    at: int,
) -> bool {
    &&& 0 <= at < work.len()
    &&& parse::unit_name(work[at].0) == name
    &&& forall|other: int|
        0 <= other < work.len() && other != at ==> parse::unit_name(#[trigger] work[other].0)
            != name
}

/// The unit of a name, if exactly one was worked on. Cargo names a dependency but not its
/// version; with two versions of one crate in the same build, picking either would misattribute
/// the cause.
pub open spec fn sole_unit(work: Seq<(Seq<char>, WorkKind)>, name: Seq<char>) -> Option<
    Seq<char>,
> {
    if exists|at: int| only_one_named(work, name, at) {
        Some(work[choose|at: int| only_one_named(work, name, at)].0)
    } else {
        None
    }
}

/// Whether a unit was worked on.
pub open spec fn is_worked_on(work: Seq<(Seq<char>, WorkKind)>, id: Seq<char>) -> bool {
    exists|at: int| 0 <= at < work.len() && #[trigger] work[at].0 == id
}

/// The unit that invalidated a unit, as far as its reason says: the one worked-on unit with the
/// name of the dependency that the reason names, if that is another unit.
pub open spec fn cause_of(
    work: Seq<(Seq<char>, WorkKind)>,
    reasons: Map<Seq<char>, Seq<char>>,
    id: Seq<char>,
) -> Option<Seq<char>> {
    if is_worked_on(work, id) && reasons.contains_key(id) {
        match dependency_in(reasons[id]) {
            Some(name) => match sole_unit(work, name) {
                Some(cause) if cause != id => Some(cause),
                _ => None,
            },
            None => None,
        }
    } else {
        None
    }
}

/// The cause of every unit that has one.
pub open spec fn causes_in(
    work: Seq<(Seq<char>, WorkKind)>,
    reasons: Map<Seq<char>, Seq<char>>,
) -> Map<Seq<char>, Seq<char>> {
    Map::new(
        |id: Seq<char>| cause_of(work, reasons, id) is Some,
        |id: Seq<char>| cause_of(work, reasons, id)->0,
    )
}

/// Whether the unit at position `at` is the first one without a cause.
pub open spec fn is_first_root(
    work: Seq<(Seq<char>, WorkKind)>,
    causes: Map<Seq<char>, Seq<char>>,
    at: int,
) -> bool {
    &&& 0 <= at < work.len()
    &&& !causes.contains_key(work[at].0)
    &&& forall|earlier: int|
        0 <= earlier < at ==> causes.contains_key(#[trigger] work[earlier].0)
}

/// The unit to blame: the first one without a cause, or the first one of all where every unit
/// has a cause.
pub open spec fn culprit_in(
    work: Seq<(Seq<char>, WorkKind)>,
    causes: Map<Seq<char>, Seq<char>>,
) -> Option<CulpritView> {
    if exists|at: int| is_first_root(work, causes, at) {
        Some(CulpritView::Root(work[choose|at: int| is_first_root(work, causes, at)].0))
    } else if work.len() > 0 {
        Some(CulpritView::Fallback(work[0].0))
    } else {
        None
    }
}

/// The unit that `steps` steps from cause to cause lead to, unless the chain ends before.
pub open spec fn follow(
    causes: Map<Seq<char>, Seq<char>>,
    start: Seq<char>,
    steps: nat,
) -> Option<Seq<char>>
    decreases steps,
{
    if steps == 0 {
        Some(start)
    } else {
        match follow(causes, start, (steps - 1) as nat) {
            Some(unit) if causes.contains_key(unit) => Some(causes[unit]),
            _ => None,
        }
    }
}

/// Whether the causes of a unit trace back to the culprit.
pub open spec fn traces_back(
    causes: Map<Seq<char>, Seq<char>>,
    start: Seq<char>,
    culprit: Seq<char>,
) -> bool {
    exists|steps: nat| follow(causes, start, steps) == Some(culprit)
}

/// What the cascade says of a unit.
pub open spec fn cascade_entry(
    log: BuildLogView,
    causes: Map<Seq<char>, Seq<char>>,
    unit: (Seq<char>, WorkKind),
) -> CascadeEntryView {
    CascadeEntryView {
        crate_id: unit.0,
        kind: unit.1,
        reason: build_log::first_reason(log.statuses, unit.0),
        caused_by: if causes.contains_key(unit.0) {
            Some(causes[unit.0])
        } else {
            None
        },
        details: fingerprint::details_for(log.fingerprint_lines, unit.0),
    }
}

/// The causes that a record shows.
pub open spec fn causes_of(log: BuildLogView) -> Map<Seq<char>, Seq<char>> {
    causes_in(work_list(log.statuses), build_log::first_reasons(log.statuses))
}

/// The units worked on that trace back to a culprit, in the order of the work.
pub open spec fn units_from(log: BuildLogView, culprit: Seq<char>) -> Seq<(Seq<char>, WorkKind)> {
    work_list(log.statuses).filter(
        |unit: (Seq<char>, WorkKind)| traces_back(causes_of(log), unit.0, culprit),
    )
}

/// The rebuild story that a record tells; `None` where no work was done. The culprit has no
/// cause, not even where the causes run in a circle.
pub open spec fn analysis(log: BuildLogView) -> Option<AnalysisView> {
    let work = work_list(log.statuses);
    let causes = causes_of(log);
    match culprit_in(work, causes) {
        Some(CulpritView::Root(culprit)) => Some(
            AnalysisView {
                culprit,
                cascade: units_from(log, culprit).map_values(
                    |unit: (Seq<char>, WorkKind)| cascade_entry(log, causes, unit),
                ),
            },
        ),
        Some(CulpritView::Fallback(culprit)) => Some(
            AnalysisView {
                culprit,
                cascade: seq![
                    CascadeEntryView { caused_by: None, ..cascade_entry(log, causes, work[0]) },
                ],
            },
        ),
        None => None,
    }
}

/// The position of the only unit of a name is unique.
pub proof fn lemma_sole_unit(work: Seq<(Seq<char>, WorkKind)>, name: Seq<char>, at: int)
    requires
        only_one_named(work, name, at),
    ensures
        sole_unit(work, name) == Some(work[at].0),
{
    let chosen = choose|at: int| only_one_named(work, name, at);
    assert(only_one_named(work, name, chosen));
    assert(parse::unit_name(work[chosen].0) == name);
}

/// The position of the first unit without a cause is unique.
pub proof fn lemma_first_root(
    work: Seq<(Seq<char>, WorkKind)>,
    causes: Map<Seq<char>, Seq<char>>,
    at: int,
)
    requires
        is_first_root(work, causes, at),
    ensures
        culprit_in(work, causes) == Some(CulpritView::Root(work[at].0)),
{
    let chosen = choose|at: int| is_first_root(work, causes, at);
    assert(is_first_root(work, causes, chosen));
    assert(!causes.contains_key(work[chosen].0));
}

/// Steps add up.
pub proof fn lemma_follow_on(
    causes: Map<Seq<char>, Seq<char>>,
    start: Seq<char>,
    first: nat,
    rest: nat,
)
    ensures
        follow(causes, start, first + rest) == match follow(causes, start, first) {
            Some(unit) => follow(causes, unit, rest),
            None => None,
        },
    decreases rest,
{
    if rest > 0 {
        lemma_follow_on(causes, start, first, (rest - 1) as nat);
        assert((first + rest - 1) as nat == first + (rest - 1) as nat);
    }
}

/// A chain that reaches a unit reaches it within as many steps as there are causes: a longer one
/// has been at some unit twice.
pub proof fn lemma_short_chain(
    causes: Map<Seq<char>, Seq<char>>,
    start: Seq<char>,
    culprit: Seq<char>,
    steps: nat,
) -> (short: nat)
    requires
        causes.dom().finite(),
        follow(causes, start, steps) == Some(culprit),
    ensures
        short <= causes.len(),
        follow(causes, start, short) == Some(culprit),
    decreases steps,
{
    if steps <= causes.len() {
        steps
    } else if exists|i: nat, j: nat|
        i < j < steps && #[trigger] follow(causes, start, i) == #[trigger] follow(causes, start, j) {
        let (i, j) = choose|i: nat, j: nat|
            i < j < steps && #[trigger] follow(causes, start, i) == #[trigger] follow(
                causes,
                start,
                j,
            );
        let rest = (steps - j) as nat;
        lemma_follow_on(causes, start, j, rest);
        lemma_follow_on(causes, start, i, rest);
        lemma_short_chain(causes, start, culprit, i + rest)
    } else {
        let units = Seq::new(steps, |i: int| follow(causes, start, i as nat)->0);
        assert forall|i: int| 0 <= i < steps implies #[trigger] follow(causes, start, i as nat)
            is Some && causes.contains_key(units[i]) by {
            let rest = (steps - i) as nat;
            lemma_follow_on(causes, start, i as nat, rest);
            lemma_follow_on(causes, start, i as nat, 1);
            lemma_follow_on(causes, start, (i + 1) as nat, (rest - 1) as nat);
            reveal_with_fuel(follow, 2);
        }
        assert forall|i: int, j: int|
            0 <= i < units.len() && 0 <= j < units.len() && i != j implies units[i]
            != units[j] by {
            assert(follow(causes, start, i as nat) is Some);
            assert(follow(causes, start, j as nat) is Some);
        }
        units.unique_seq_to_set();
        assert(units.to_set().subset_of(causes.dom()));
        vstd::set_lib::lemma_len_subset(units.to_set(), causes.dom());
        steps
    }
}

/// A filtered and mapped sequence grows by at most the image of its last element.
proof fn lemma_filter_map_step<A, B>(
    items: Seq<A>,
    at: int,
    keep: spec_fn(A) -> bool,
    image: spec_fn(A) -> B,
)
    requires
        0 <= at < items.len(),
    ensures
        items.take(at + 1).filter(keep).map_values(image) == if keep(items[at]) {
            items.take(at).filter(keep).map_values(image).push(image(items[at]))
        } else {
            items.take(at).filter(keep).map_values(image)
        },
{
    reveal(Seq::filter);
    assert(items.take(at + 1).drop_last() =~= items.take(at));
    assert(items.take(at + 1).filter(keep).map_values(image) =~= if keep(items[at]) {
        items.take(at).filter(keep).map_values(image).push(image(items[at]))
    } else {
        items.take(at).filter(keep).map_values(image)
    });
}

/// An analysis by its view.
pub open spec fn analysis_view(analysis: Option<Analysis>) -> Option<AnalysisView> {
    match analysis {
        Some(analysis) => Some(analysis@),
        None => None,
    }
}

/// Says what the record knows of one crate of the cascade.
fn entry(
    log: &BuildLog,
    causes: &OrderedMap<CrateId, CrateId>,
    details: &OrderedMap<CrateId, Vec<String>>,
    id: &CrateId,
    kind: WorkKind,
) -> (entry: CascadeEntry)
    requires
        log.wf(),
        fingerprint::holds_details(details@, log@.fingerprint_lines),
    ensures
        entry@ == cascade_entry(log@, ordered::value_views(causes@), (id@, kind)),
{
    let ghost reasons = build_log::first_reasons(log@.statuses);
    let ghost edges = ordered::value_views(causes@);
    let known = log.reasons();
    assert(ordered::value_views(known@).dom().contains(id@) == known@.dom().contains(id@));
    assert(reasons.dom().contains(id@) == (build_log::first_reason(log@.statuses, id@) is Some));
    let reason = match known.get(id) {
        Some(reason) => {
            assert(ordered::value_views(known@)[id@] == reason@);
            Some(reason.clone())
        },
        None => None,
    };
    assert(edges.dom().contains(id@) == causes@.dom().contains(id@));
    let caused_by = match causes.get(id) {
        Some(cause) => Some(cause.clone()),
        None => None,
    };
    let details = match details.get(id) {
        Some(details) => text::copies_of(details),
        None => {
            let none: Vec<String> = Vec::new();
            assert(text::views(none@) =~= fingerprint::details_for(log@.fingerprint_lines, id@));
            none
        },
    };
    CascadeEntry { crate_id: id.clone(), kind, reason, caused_by, details }
}

/// Says which crate started the rebuild and which crates followed from it. Returns `None` when
/// the build did no work at all, and so has nothing to explain.
pub fn analyze(log: &BuildLog) -> (found: Option<Analysis>)
    requires
        log.wf(),
    ensures
        analysis_view(found) == analysis(log@),
{
    let work = work_entries(log.statuses());
    let causes = infer_causes_from_reasons(work.as_slice(), log.reasons());
    let details = fingerprint::parse_details(log.fingerprint_lines());
    let ghost units = work_views(work@);
    let ghost edges = ordered::value_views(causes@);
    match infer_culprit(work.as_slice(), &causes) {
        Some(Culprit::Root(culprit)) => {
            let ghost keep = |unit: (Seq<char>, WorkKind)| traces_back(edges, unit.0, culprit@);
            let ghost image = |unit: (Seq<char>, WorkKind)| cascade_entry(log@, edges, unit);
            let mut cascade: Vec<CascadeEntry> = Vec::new();
            proof {
                reveal(Seq::filter);
                assert(text::views(cascade@) =~= units.take(0).filter(keep).map_values(image));
            }
            let mut i: usize = 0;
            while i < work.len()
                invariant
                    i <= work@.len(),
                    log.wf(),
                    fingerprint::holds_details(details@, log@.fingerprint_lines),
                    units == work_views(work@),
                    edges == ordered::value_views(causes@),
                    keep == (|unit: (Seq<char>, WorkKind)| traces_back(edges, unit.0, culprit@)),
                    image == (|unit: (Seq<char>, WorkKind)| cascade_entry(log@, edges, unit)),
                    text::views(cascade@) == units.take(i as int).filter(keep).map_values(image),
                decreases work@.len() - i,
            {
                let ghost before = cascade@;
                proof {
                    lemma_filter_map_step(units, i as int, keep, image);
                    assert(units[i as int] == (work@[i as int].0@, work@[i as int].1));
                }
                if reaches_culprit(&work[i].0, &culprit, &causes) {
                    cascade.push(entry(log, &causes, &details, &work[i].0, work[i].1));
                    assert(text::views(cascade@) =~= text::views(before).push(
                        image(units[i as int]),
                    ));
                }
                i = i + 1;
            }
            assert(units.take(i as int) =~= units);
            assert(units_from(log@, culprit@) == units.filter(keep));
            Some(Analysis { culprit, cascade })
        },
        Some(Culprit::Fallback(culprit)) => {
            assert(units[0] == (work@[0].0@, work@[0].1));
            let mut first = entry(log, &causes, &details, &work[0].0, work[0].1);
            // The culprit is where the story begins, so it names no cause, though in a circle
            // another crate is to blame for it as well.
            first.caused_by = None;
            let mut cascade: Vec<CascadeEntry> = Vec::new();
            cascade.push(first);
            assert(text::views(cascade@) =~= seq![
                CascadeEntryView { caused_by: None, ..cascade_entry(log@, edges, units[0]) },
            ]);
            Some(Analysis { culprit, cascade })
        },
        None => None,
    }
}

/// The crates that did work, in the order cargo first reported them.
pub fn work_entries(statuses: &[CrateStatus]) -> (work: Vec<(CrateId, WorkKind)>)
    ensures
        work_views(work@) == work_list(text::views(statuses@)),
{
    let mut seen = StringHashSet::new();
    let mut work: Vec<(CrateId, WorkKind)> = Vec::new();
    let ghost all = text::views(statuses@);
    assert(seen@ =~= build_log::work_units(all.take(0)));
    let mut i: usize = 0;
    while i < statuses.len()
        invariant
            i <= statuses@.len(),
            all == text::views(statuses@),
            seen@ == build_log::work_units(all.take(i as int)),
            work_views(work@) == work_list(all.take(i as int)),
        decreases statuses@.len() - i,
    {
        let status = &statuses[i];
        let ghost before = all.take(i as int);
        let ghost after = all.take(i + 1);
        proof {
            assert(after =~= before.push(status@));
            assert(after.drop_last() =~= before);
            build_log::lemma_one_more_status(before, status@);
        }
        let ghost listed = work@;
        if let StatusKind::Work(kind) = status.kind {
            if seen.insert(status.id.as_str().to_owned()) {
                work.push((status.id.clone(), kind));
            }
        }
        proof {
            assert(seen@ =~= build_log::work_units(after));
            assert(work_views(work@) =~= work_list(after));
        }
        i = i + 1;
    }
    assert(all.take(i as int) =~= all);
    work
}

/// Reads the dependency's name between a marker and the next backtick.
fn quoted_name<'a>(reason: &'a str, marker: &str) -> (name: Option<&'a str>)
    ensures
        match name {
            Some(name) => quoted_behind(reason@, marker@) == Some(name@),
            None => quoted_behind(reason@, marker@) is None,
        },
{
    match text::split_once(reason, marker) {
        Some((_, behind)) => match text::split_once(behind, "`") {
            Some((name, _)) => if name.is_empty() {
                None
            } else {
                Some(name)
            },
            None => None,
        },
        None => None,
    }
}

/// Reads the dependency that a reason names.
pub fn extract_dependency_name(reason: &str) -> (name: Option<&str>)
    ensures
        match name {
            Some(name) => dependency_in(reason@) == Some(name@),
            None => dependency_in(reason@) is None,
        },
{
    match quoted_name(reason, "dependency on `") {
        Some(name) => Some(name),
        None => quoted_name(reason, "dependency `"),
    }
}

/// Finds the only unit of a name.
fn find_sole(work: &[(CrateId, WorkKind)], name: &str) -> (at: Option<usize>)
    ensures
        match at {
            Some(at) => only_one_named(work_views(work@), name@, at as int),
            None => sole_unit(work_views(work@), name@) is None,
        },
{
    let ghost units = work_views(work@);
    let mut found: Option<usize> = None;
    let mut i: usize = 0;
    while i < work.len()
        invariant
            i <= work@.len(),
            units == work_views(work@),
            match found {
                Some(at) => {
                    &&& at < i
                    &&& parse::unit_name(units[at as int].0) == name@
                    &&& forall|other: int|
                        0 <= other < i && other != at ==> parse::unit_name(
                            #[trigger] units[other].0,
                        ) != name@
                },
                None => forall|other: int|
                    0 <= other < i ==> parse::unit_name(#[trigger] units[other].0) != name@,
            },
        decreases work@.len() - i,
    {
        assert(units[i as int].0 == work@[i as int].0@);
        if text::same_text(work[i].0.name(), name) {
            if let Some(at) = found {
                proof {
                    let (first, second) = (at as int, i as int);
                    assert forall|any: int| !only_one_named(units, name@, any) by {
                        assert(units[first].0 == units[first].0);
                        assert(units[second].0 == units[second].0);
                    }
                }
                return None;
            }
            found = Some(i);
        }
        i = i + 1;
    }
    if found.is_none() {
        assert forall|any: int| !only_one_named(units, name@, any) by {}
    }
    found
}

/// Reads cargo's invalidation reasons as cause edges: "dependency `x` was rebuilt" means this
/// crate was invalidated by `x`. Every crate has at most one cause.
pub fn infer_causes_from_reasons(
    work: &[(CrateId, WorkKind)],
    reasons: &OrderedMap<CrateId, String>,
) -> (causes: OrderedMap<CrateId, CrateId>)
    ensures
        ordered::value_views(causes@) == causes_in(
            work_views(work@),
            ordered::value_views(reasons@),
        ),
{
    let ghost units = work_views(work@);
    let ghost why = ordered::value_views(reasons@);
    let mut causes: OrderedMap<CrateId, CrateId> = OrderedMap::new();
    let mut i: usize = 0;
    while i < work.len()
        invariant
            i <= work@.len(),
            units == work_views(work@),
            why == ordered::value_views(reasons@),
            forall|id: Seq<char>| #[trigger]
                causes@.dom().contains(id) <==> is_worked_on(units.take(i as int), id) && cause_of(
                    units,
                    why,
                    id,
                ) is Some,
            forall|id: Seq<char>| #[trigger]
                causes@.dom().contains(id) ==> causes@[id]@ == cause_of(units, why, id)->0,
        decreases work@.len() - i,
    {
        let id = &work[i].0;
        let ghost before = units.take(i as int);
        let ghost after = units.take(i + 1);
        proof {
            assert(units[i as int].0 == id@);
            assert(is_worked_on(units, id@));
            assert forall|any: Seq<char>| #[trigger] is_worked_on(after, any) == (is_worked_on(
                before,
                any,
            ) || any == id@) by {
                if is_worked_on(before, any) {
                    let at = choose|at: int| 0 <= at < before.len() && #[trigger] before[at].0 == any;
                    assert(after[at].0 == any);
                }
                if is_worked_on(after, any) {
                    let at = choose|at: int| 0 <= at < after.len() && #[trigger] after[at].0 == any;
                    if at < i {
                        assert(before[at].0 == any);
                    }
                }
                assert(after[i as int].0 == id@);
            }
        }
        i = i + 1;
        let reason = match reasons.get(id) {
            Some(reason) => reason,
            None => {
                continue ;
            },
        };
        assert(why[id@] == reason@);
        let name = match extract_dependency_name(reason.as_str()) {
            Some(name) => name,
            None => {
                continue ;
            },
        };
        // Cargo names the dependency but not its version. With two versions of one crate in the
        // same build, picking either would misattribute the cause, so decline to guess.
        let at = match find_sole(work, name) {
            Some(at) => at,
            None => {
                continue ;
            },
        };
        proof {
            lemma_sole_unit(units, name@, at as int);
            assert(units[at as int].0 == work@[at as int].0@);
        }
        if !work[at].0.same_as(id) {
            causes.insert(id.clone(), work[at].0.clone());
        }
    }
    proof {
        assert(units.take(i as int) =~= units);
        let expected = causes_in(units, why);
        assert forall|id: Seq<char>| #[trigger]
            ordered::value_views(causes@).dom().contains(id) == expected.dom().contains(id) by {
            assert(causes@.dom().contains(id) == ordered::value_views(causes@).dom().contains(id));
        }
        assert(ordered::value_views(causes@) =~= expected);
    }
    causes
}

/// A culprit by its view.
pub open spec fn culprit_view(culprit: Option<Culprit>) -> Option<CulpritView> {
    match culprit {
        Some(culprit) => Some(culprit@),
        None => None,
    }
}

/// Picks the crate to blame.
pub fn infer_culprit(
    work: &[(CrateId, WorkKind)],
    causes: &OrderedMap<CrateId, CrateId>,
) -> (culprit: Option<Culprit>)
    ensures
        culprit_view(culprit) == culprit_in(work_views(work@), ordered::value_views(causes@)),
{
    let ghost units = work_views(work@);
    let ghost edges = ordered::value_views(causes@);
    let mut i: usize = 0;
    while i < work.len()
        invariant
            i <= work@.len(),
            units == work_views(work@),
            edges == ordered::value_views(causes@),
            forall|earlier: int|
                0 <= earlier < i ==> edges.contains_key(#[trigger] units[earlier].0),
        decreases work@.len() - i,
    {
        assert(units[i as int].0 == work@[i as int].0@);
        assert(edges.contains_key(units[i as int].0) == causes@.contains_key(units[i as int].0));
        if !causes.contains_key(&work[i].0) {
            proof {
                lemma_first_root(units, edges, i as int);
            }
            return Some(Culprit::Root(work[i].0.clone()));
        }
        i = i + 1;
    }
    assert forall|at: int| !is_first_root(units, edges, at) by {}
    if work.len() > 0 {
        assert(units[0].0 == work@[0].0@);
        Some(Culprit::Fallback(work[0].0.clone()))
    } else {
        None
    }
}

/// Tells whether the causes of a crate trace back to the culprit.
pub fn reaches_culprit(
    start: &CrateId,
    culprit: &CrateId,
    causes: &OrderedMap<CrateId, CrateId>,
) -> (reached: bool)
    ensures
        reached == traces_back(ordered::value_views(causes@), start@, culprit@),
{
    let ghost edges = ordered::value_views(causes@);
    let ghost mut steps: nat = 0;
    let mut current = start;
    let limit = causes.len();
    assert(edges.dom() =~= causes@.dom());
    let mut left: usize = limit;
    // Each crate has at most one cause, so reachability is a walk along a single chain. A chain
    // longer than the cause map must have revisited a node, so stop there: a cycle that never
    // met the culprit cannot reach it.
    loop
        invariant
            edges == ordered::value_views(causes@),
            edges.dom() == causes@.dom(),
            edges.dom().finite(),
            limit == edges.len(),
            left <= limit,
            steps == limit - left,
            follow(edges, start@, steps) == Some(current@),
            forall|fewer: nat| fewer < steps ==> follow(edges, start@, fewer) != Some(culprit@),
        decreases left,
    {
        if current.same_as(culprit) {
            return true;
        }
        match causes.get(current) {
            Some(next) => {
                assert(edges[current@] == next@);
                current = next;
            },
            None => {
                proof {
                    if traces_back(edges, start@, culprit@) {
                        let found = choose|found: nat| follow(edges, start@, found) == Some(culprit@);
                        assert(found > steps);
                        lemma_follow_on(edges, start@, steps, 1);
                        lemma_follow_on(edges, start@, steps + 1, (found - steps - 1) as nat);
                        reveal_with_fuel(follow, 2);
                    }
                }
                return false;
            },
        }
        if left == 0 {
            proof {
                if traces_back(edges, start@, culprit@) {
                    let found = choose|found: nat| follow(edges, start@, found) == Some(culprit@);
                    let short = lemma_short_chain(edges, start@, culprit@, found);
                    assert(short == steps);
                }
            }
            return false;
        }
        left = left - 1;
        proof {
            steps = steps + 1;
        }
    }
}

} // verus!
