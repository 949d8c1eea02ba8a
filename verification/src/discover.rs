//! Discovery: which outputs of the flake are candidates for a build.
//!
//! The evaluator is asked once for the whole prefix, or once for each
//! system. What it reports is gathered into one table, in which a name stands
//! once however often it was reported, and from which the names reported with
//! the skip token are left out.

use vstd::prelude::*;
use vstd::string::*;
use crate::eval::{flake_ref, request_for, EvalError, EvalRequest};
use crate::json::{json_attrs_of, json_names_of, read_attrs, read_names, unreadable, unreadable_message};
use crate::text::{replace, replace_all, same_text};

verus! {

/// The value that the evaluator reports for an output on the blocklist, in
/// place of its hash.
pub const SKIP_TOKEN: &'static str = "SKIPPED";

/// The function applied where no system is given: it lists the names of the
/// attributes.
pub const LIST_NAMES: &'static str = "builtins.attrNames";

/// The function applied to the outputs of one system, before its three
/// placeholders are filled in. It maps each output's full name to the hash
/// part of its store path, or to the skip token where the name is on the
/// blocklist.
pub const DISCOVER_TEMPLATE: &'static str =
    "attrs:\nlet\n  prefix = PREFIX;\n  skip = SKIP_TOKEN;\n  blocked = builtins.fromJSON BLOCKLIST;\n  entry = name:\n    let\n      path = prefix + \".\" + name;\n      output = builtins.getAttr name attrs;\n    in {\n      name = path;\n      value =\n        if builtins.elem path blocked then skip\n        else builtins.substring 11 32 (builtins.unsafeDiscardStringContext output.outPath);\n    };\nin builtins.listToAttrs (map entry (builtins.attrNames attrs))\n";

/// `s` between double quotes.
pub open spec fn quoted(s: Seq<char>) -> Seq<char> {
    "\""@ + s + "\""@
}

/// What stands for the prefix in the function: the prefix, with the system
/// behind a dot where there is one, as a string of the evaluator's language.
pub open spec fn prefix_literal(prefix: Seq<char>, system: Option<Seq<char>>) -> Seq<char> {
    match system {
        Some(sys) => quoted(prefix + "."@ + sys),
        None => quoted(prefix),
    }
}

/// What stands for the blocklist in the function: the list's JSON text as a
/// string of the evaluator's language, its double quotes escaped; the empty
/// list where none is given.
pub open spec fn blocklist_literal(blocklist: Option<Seq<char>>) -> Seq<char> {
    match blocklist {
        Some(list) => quoted(replace_all(list, "\""@, "\\\""@)),
        None => "\"[]\""@,
    }
}

/// The template with its placeholders filled in, one after the other: the
/// prefix, the skip token, the blocklist.
pub open spec fn discover_func_text(
    template: Seq<char>,
    prefix: Seq<char>,
    system: Option<Seq<char>>,
    blocklist: Option<Seq<char>>,
) -> Seq<char> {
    replace_all(
        replace_all(
            replace_all(template, "PREFIX"@, prefix_literal(prefix, system)),
            "SKIP_TOKEN"@,
            quoted(SKIP_TOKEN@),
        ),
        "BLOCKLIST"@,
        blocklist_literal(blocklist),
    )
}

fn quote(s: &str) -> (out: String)
    ensures
        out@ == quoted(s@),
{
    let mut out = String::from_str("\"");
    out.append(s);
    out.append("\"");
    out
}

/// Fills the placeholders of `template` in.
pub fn render_discover_func(
    template: &str,
    prefix: &str,
    system: Option<&str>,
    blocklist: Option<&str>,
) -> (func: String)
    ensures
        func@ == discover_func_text(
            template@,
            prefix@,
            match system {
                Some(sys) => Some(sys@),
                None => None,
            },
            match blocklist {
                Some(list) => Some(list@),
                None => None,
            },
        ),
{
    let prefix_str = match system {
        Some(sys) => {
            let mut full = String::from_str(prefix);
            full.append(".");
            full.append(sys);
            quote(full.as_str())
        },
        None => quote(prefix),
    };
    let skip_str = quote(SKIP_TOKEN);
    let blocklist_str = match blocklist {
        Some(list) => quote(replace(list, "\"", "\\\"").as_str()),
        None => String::from_str("\"[]\""),
    };
    let with_prefix = replace(template, "PREFIX", prefix_str.as_str());
    let with_skip = replace(with_prefix.as_str(), "SKIP_TOKEN", skip_str.as_str());
    replace(with_skip.as_str(), "BLOCKLIST", blocklist_str.as_str())
}

/// The function that the evaluator applies to the outputs under `prefix`, or
/// under `prefix` and `system`.
pub fn nix_discover_func(prefix: String, system: Option<String>, blocklist: Option<&str>) -> (func:
    String)
    ensures
        func@ == discover_func_text(
            DISCOVER_TEMPLATE@,
            prefix@,
            match system {
                Some(sys) => Some(sys@),
                None => None,
            },
            match blocklist {
                Some(list) => Some(list@),
                None => None,
            },
        ),
{
    match &system {
        Some(sys) => render_discover_func(
            DISCOVER_TEMPLATE,
            prefix.as_str(),
            Some(sys.as_str()),
            blocklist,
        ),
        None => render_discover_func(DISCOVER_TEMPLATE, prefix.as_str(), None, blocklist),
    }
}

/// What the evaluator has reported so far: for each name, whether it is to be
/// skipped.
pub type Reports = Map<Seq<char>, bool>;

/// The reports after one more: `name` with `value`. A later report of a name
/// replaces an earlier one.
pub open spec fn with_report(reports: Reports, name: Seq<char>, value: Seq<char>) -> Reports {
    reports.insert(name, value == SKIP_TOKEN@)
}

/// The reports after the pairs of name and value of one answer, taken in
/// their order.
pub open spec fn with_attrs(reports: Reports, attrs: Seq<(Seq<char>, Seq<char>)>) -> Reports
    decreases attrs.len(),
{
    if attrs.len() == 0 {
        reports
    } else {
        with_report(with_attrs(reports, attrs.drop_last()), attrs.last().0, attrs.last().1)
    }
}

/// The reports after a list of names, none of which is to be skipped.
pub open spec fn with_names(reports: Reports, names: Seq<Seq<char>>) -> Reports
    decreases names.len(),
{
    if names.len() == 0 {
        reports
    } else {
        with_names(reports, names.drop_last()).insert(names.last(), false)
    }
}

/// The names that are candidates: those reported and not to be skipped.
pub open spec fn candidates_of(reports: Reports) -> Set<Seq<char>> {
    Set::new(|name: Seq<char>| reports.dom().contains(name) && !reports[name])
}

/// The names that are skipped.
pub open spec fn skipped_of(reports: Reports) -> Set<Seq<char>> {
    Set::new(|name: Seq<char>| reports.dom().contains(name) && reports[name])
}

/// What discovery found: the candidates, and the names left out because the
/// evaluator reported them with the skip token.
#[derive(Debug, Clone, PartialEq, Eq)]
pub struct Discovery {
    pub candidates: Vec<String>,
    pub skipped: Vec<String>,
}

impl Discovery {
    /// The discovery is that of `reports`: its candidates are the names
    /// reported and not skipped, its skipped names those reported as skipped,
    /// and no name stands twice in either list.
    pub open spec fn is_of(&self, reports: Reports) -> bool {
        &&& self.candidates.deep_view().no_duplicates()
        &&& self.candidates.deep_view().to_set() == candidates_of(reports)
        &&& self.skipped.deep_view().no_duplicates()
        &&& self.skipped.deep_view().to_set() == skipped_of(reports)
    }
}

struct Entry {
    name: String,
    skipped: bool,
}

/// The table in which the evaluator's reports are gathered.
pub struct AttrTable {
    entries: Vec<Entry>,
}

spec fn holds(entries: Seq<Entry>, name: Seq<char>) -> bool {
    exists|i: int| 0 <= i < entries.len() && #[trigger] entries[i].name@ == name
}

spec fn place_of(entries: Seq<Entry>, name: Seq<char>) -> int {
    choose|i: int| 0 <= i < entries.len() && #[trigger] entries[i].name@ == name
}

spec fn distinct(entries: Seq<Entry>) -> bool {
    forall|i: int, j: int|
        0 <= i < j < entries.len() ==> #[trigger] entries[i].name@ != #[trigger] entries[j].name@
}

spec fn reports_of(entries: Seq<Entry>) -> Reports {
    Map::new(
        |name: Seq<char>| holds(entries, name),
        |name: Seq<char>| entries[place_of(entries, name)].skipped,
    )
}

proof fn lemma_place(entries: Seq<Entry>, i: int)
    requires
        distinct(entries),
        0 <= i < entries.len(),
    ensures
        holds(entries, entries[i].name@),
        place_of(entries, entries[i].name@) == i,
        reports_of(entries).dom().contains(entries[i].name@),
        reports_of(entries)[entries[i].name@] == entries[i].skipped,
{
    let name = entries[i].name@;
    assert(entries[i].name@ == name);
    let j = place_of(entries, name);
    assert(0 <= j < entries.len() && entries[j].name@ == name);
    if j < i {
        assert(entries[j].name@ != entries[i].name@);
    } else if i < j {
        assert(entries[i].name@ != entries[j].name@);
    }
}

impl View for AttrTable {
    type V = Reports;

    closed spec fn view(&self) -> Reports {
        reports_of(self.entries@)
    }
}

impl AttrTable {
    /// No name stands twice in the table.
    pub closed spec fn wf(&self) -> bool {
        distinct(self.entries@)
    }

    /// The table before any report.
    pub fn new() -> (table: AttrTable)
        ensures
            table.wf(),
            table@ == Map::<Seq<char>, bool>::empty(),
    {
        let table = AttrTable { entries: Vec::new() };
        assert(table@ =~= Map::<Seq<char>, bool>::empty());
        table
    }

    fn find(&self, name: &String) -> (found: Option<usize>)
        requires
            self.wf(),
        ensures
            match found {
                Some(i) => i < self.entries@.len() && self.entries@[i as int].name@ == name@,
                None => !holds(self.entries@, name@),
            },
    {
        let n = self.entries.len();
        let mut i: usize = 0;
        while i < n
            invariant
                n == self.entries@.len(),
                i <= n,
                forall|j: int| 0 <= j < i ==> self.entries@[j].name@ != name@,
            decreases n - i,
        {
            if self.entries[i].name == *name {
                return Some(i);
            }
            i = i + 1;
        }
        None
    }

    /// Notes that `name` was reported, to be skipped or not. A name that
    /// stands in the table already keeps its place and takes the new mark.
    pub fn mark(&mut self, name: String, skipped: bool)
        requires
            old(self).wf(),
        ensures
            final(self).wf(),
            final(self)@ == old(self)@.insert(name@, skipped),
    {
        let ghost before = self.entries@;
        let ghost at: int;
        match self.find(&name) {
            Some(i) => {
                self.entries.set(i, Entry { name, skipped });
                proof {
                    at = i as int;
                }
            },
            None => {
                self.entries.push(Entry { name, skipped });
                proof {
                    at = before.len() as int;
                }
            },
        }
        proof {
            let after = self.entries@;
            assert(after[at].name@ == name@ && after[at].skipped == skipped);
            assert forall|j: int| 0 <= j < before.len() && j != at implies after[j]
                == before[j] by {}
            assert forall|i: int, j: int| 0 <= i < j < after.len() implies #[trigger] after[i].name@
                != #[trigger] after[j].name@ by {
                if i != at && j != at {
                    assert(before[i].name@ != before[j].name@);
                } else if j == at && at < before.len() {
                    assert(before[i].name@ != before[j].name@);
                } else if i == at {
                    assert(before[i].name@ != before[j].name@);
                } else {
                    assert(before[i].name@ == after[i].name@);
                }
            }
            assert forall|k: Seq<char>| holds(after, k) <==> (k == name@ || holds(before, k)) by {
                if holds(after, k) && k != name@ {
                    let j = place_of(after, k);
                    assert(before[j].name@ == k);
                }
                if holds(before, k) {
                    let j = place_of(before, k);
                    if j != at {
                        assert(after[j].name@ == k);
                    }
                }
            }
            assert forall|k: Seq<char>| holds(after, k) implies reports_of(after)[k] == (if k
                == name@ {
                skipped
            } else {
                reports_of(before)[k]
            }) by {
                let j = place_of(after, k);
                lemma_place(after, j);
                if k != name@ {
                    lemma_place(before, j);
                }
            }
            assert(reports_of(after) =~= reports_of(before).insert(name@, skipped));
        }
    }

    /// Takes in the pairs of name and value of one answer, in their order.
    pub fn absorb_attrs(&mut self, attrs: &Vec<(String, String)>)
        requires
            old(self).wf(),
        ensures
            final(self).wf(),
            final(self)@ == with_attrs(old(self)@, attrs.deep_view()),
    {
        let ghost all = attrs.deep_view();
        let n = attrs.len();
        let mut i: usize = 0;
        while i < n
            invariant
                n == attrs@.len(),
                all == attrs.deep_view(),
                i <= n,
                self.wf(),
                self@ == with_attrs(old(self)@, all.take(i as int)),
            decreases n - i,
        {
            let skipped = same_text(attrs[i].1.as_str(), SKIP_TOKEN);
            self.mark(attrs[i].0.clone(), skipped);
            proof {
                assert(all.take(i + 1).drop_last() =~= all.take(i as int));
                assert(all.take(i + 1).last() == all[i as int]);
            }
            i = i + 1;
        }
        assert(all.take(n as int) =~= all);
    }

    /// Takes in the names of one answer, none of which is to be skipped.
    pub fn absorb_names(&mut self, names: &Vec<String>)
        requires
            old(self).wf(),
        ensures
            final(self).wf(),
            final(self)@ == with_names(old(self)@, names.deep_view()),
    {
        let ghost all = names.deep_view();
        let n = names.len();
        let mut i: usize = 0;
        while i < n
            invariant
                n == names@.len(),
                all == names.deep_view(),
                i <= n,
                self.wf(),
                self@ == with_names(old(self)@, all.take(i as int)),
            decreases n - i,
        {
            self.mark(names[i].clone(), false);
            proof {
                assert(all.take(i + 1).drop_last() =~= all.take(i as int));
                assert(all.take(i + 1).last() == all[i as int]);
            }
            i = i + 1;
        }
        assert(all.take(n as int) =~= all);
    }

    /// The discovery that the table stands for.
    pub fn finish(&self) -> (found: Discovery)
        requires
            self.wf(),
        ensures
            found.is_of(self@),
    {
        let mut candidates: Vec<String> = Vec::new();
        let mut skipped: Vec<String> = Vec::new();
        let ghost entries = self.entries@;
        let n = self.entries.len();
        let mut i: usize = 0;
        while i < n
            invariant
                entries == self.entries@,
                distinct(entries),
                n == entries.len(),
                i <= n,
                candidates.deep_view().no_duplicates(),
                skipped.deep_view().no_duplicates(),
                forall|name: Seq<char>|
                    candidates.deep_view().contains(name) <==> exists|j: int|
                        0 <= j < i && #[trigger] entries[j].name@ == name && !entries[j].skipped,
                forall|name: Seq<char>|
                    skipped.deep_view().contains(name) <==> exists|j: int|
                        0 <= j < i && #[trigger] entries[j].name@ == name && entries[j].skipped,
            decreases n - i,
        {
            let ghost old_candidates = candidates.deep_view();
            let ghost old_skipped = skipped.deep_view();
            let name = self.entries[i].name.clone();
            let ghost here = entries[i as int].name@;
            proof {
                if old_candidates.contains(here) {
                    let j = choose|j: int|
                        0 <= j < i && #[trigger] entries[j].name@ == here && !entries[j].skipped;
                    assert(entries[j].name@ != entries[i as int].name@);
                }
                if old_skipped.contains(here) {
                    let j = choose|j: int|
                        0 <= j < i && #[trigger] entries[j].name@ == here && entries[j].skipped;
                    assert(entries[j].name@ != entries[i as int].name@);
                }
            }
            if self.entries[i].skipped {
                skipped.push(name);
                proof {
                    lemma_pushed(old_skipped, skipped.deep_view(), here);
                    assert forall|k: Seq<char>|
                        skipped.deep_view().contains(k) <==> exists|j: int|
                            0 <= j < i + 1 && #[trigger] entries[j].name@ == k
                                && entries[j].skipped by {
                        if k == here {
                            assert(entries[i as int].name@ == k);
                        }
                    }
                }
            } else {
                candidates.push(name);
                proof {
                    lemma_pushed(old_candidates, candidates.deep_view(), here);
                    assert forall|k: Seq<char>|
                        candidates.deep_view().contains(k) <==> exists|j: int|
                            0 <= j < i + 1 && #[trigger] entries[j].name@ == k
                                && !entries[j].skipped by {
                        if k == here {
                            assert(entries[i as int].name@ == k);
                        }
                    }
                }
            }
            i = i + 1;
        }
        proof {
            assert forall|k: Seq<char>|
                candidates.deep_view().contains(k) <==> candidates_of(self@).contains(k) by {
                if candidates.deep_view().contains(k) {
                    let j = choose|j: int|
                        0 <= j < n && #[trigger] entries[j].name@ == k && !entries[j].skipped;
                    lemma_place(entries, j);
                }
                if candidates_of(self@).contains(k) {
                    lemma_place(entries, place_of(entries, k));
                }
            }
            assert forall|k: Seq<char>|
                skipped.deep_view().contains(k) <==> skipped_of(self@).contains(k) by {
                if skipped.deep_view().contains(k) {
                    let j = choose|j: int|
                        0 <= j < n && #[trigger] entries[j].name@ == k && entries[j].skipped;
                    lemma_place(entries, j);
                }
                if skipped_of(self@).contains(k) {
                    lemma_place(entries, place_of(entries, k));
                }
            }
            assert(candidates.deep_view().to_set() =~= candidates_of(self@));
            assert(skipped.deep_view().to_set() =~= skipped_of(self@));
        }
        Discovery { candidates, skipped }
    }
}

proof fn lemma_pushed(before: Seq<Seq<char>>, after: Seq<Seq<char>>, name: Seq<char>)
    requires
        after =~= before.push(name),
        before.no_duplicates(),
        !before.contains(name),
    ensures
        after.no_duplicates(),
        forall|k: Seq<char>| after.contains(k) <==> (k == name || before.contains(k)),
{
    assert forall|k: Seq<char>| after.contains(k) <==> (k == name || before.contains(k)) by {
        if k == name {
            assert(after[before.len() as int] == k);
        }
        if before.contains(k) {
            let j = choose|j: int| 0 <= j < before.len() && before[j] == k;
            assert(after[j] == k);
        }
    }
}

/// Why discovery gave no result.
#[derive(Debug, Clone, PartialEq, Eq)]
pub enum DiscoverError {
    /// The list of systems is not a JSON list of strings.
    BadSystems { detail: String },
    /// The evaluator failed where no system is given, so that nothing is
    /// left to go on with.
    Eval(EvalError),
}

impl DiscoverError {
    /// The message shown to the user.
    pub fn message(&self) -> (text: String)
        ensures
            text@ == match *self {
                DiscoverError::BadSystems { detail } => detail@,
                DiscoverError::Eval(e) => e->detail@,
            },
    {
        match self {
            DiscoverError::BadSystems { detail } => detail.clone(),
            DiscoverError::Eval(e) => e.message(),
        }
    }
}

/// Reads the list of systems from its JSON text.
pub fn parse_systems(text: &str) -> (r: Result<Vec<String>, DiscoverError>)
    ensures
        match json_names_of(text@) {
            Some(names) => r matches Ok(systems) && systems.deep_view() == names,
            None => r matches Err(DiscoverError::BadSystems { detail }) && exists|why: Seq<char>|
                detail@ == unreadable_message(why),
        },
{
    match read_names(text) {
        Ok(systems) => Ok(systems),
        Err(e) => Err(DiscoverError::BadSystems { detail: unreadable(&e) }),
    }
}

/// The attribute path of a system's outputs.
pub open spec fn system_path(prefix: Seq<char>, system: Seq<char>) -> Seq<char> {
    prefix + "."@ + system
}

/// `req` asks for the outputs of `system` under `prefix`, with the discovery
/// function for them applied.
pub open spec fn is_system_request(
    req: EvalRequest,
    prefix: Seq<char>,
    system: Seq<char>,
    filter: Option<&str>,
) -> bool {
    &&& req.target@ == flake_ref(system_path(prefix, system))
    &&& req.apply matches Some(f)
    &&& f@ == discover_func_text(
        DISCOVER_TEMPLATE@,
        prefix,
        Some(system),
        match filter {
            Some(text) => Some(text@),
            None => None,
        },
    )
}

/// The calls of the evaluator that discovery needs: one for the prefix where
/// no system is given, which lists the names under it; else one for each
/// system, in the order of the list, which applies the discovery function.
pub fn discovery_requests(prefix: &str, systems: Option<&Vec<String>>, filter: Option<&str>) -> (out:
    Vec<EvalRequest>)
    ensures
        match systems {
            None => {
                &&& out@.len() == 1
                &&& out@[0].target@ == flake_ref(prefix@)
                &&& out@[0].apply matches Some(f) && f@ == LIST_NAMES@
            },
            Some(list) => {
                &&& out@.len() == list@.len()
                &&& forall|i: int|
                    0 <= i < list@.len() ==> is_system_request(
                        #[trigger] out@[i],
                        prefix@,
                        list@[i]@,
                        filter,
                    )
            },
        },
{
    let mut out: Vec<EvalRequest> = Vec::new();
    match systems {
        None => {
            out.push(request_for(prefix, Some(String::from_str(LIST_NAMES))));
        },
        Some(list) => {
            let n = list.len();
            let mut i: usize = 0;
            while i < n
                invariant
                    n == list@.len(),
                    i <= n,
                    out@.len() == i,
                    forall|j: int|
                        0 <= j < i ==> is_system_request(
                            #[trigger] out@[j],
                            prefix@,
                            list@[j]@,
                            filter,
                        ),
                decreases n - i,
            {
                let system = list[i].as_str();
                let mut path = String::from_str(prefix);
                path.append(".");
                path.append(system);
                let func = render_discover_func(DISCOVER_TEMPLATE, prefix, Some(system), filter);
                out.push(request_for(path.as_str(), Some(func)));
                i = i + 1;
            }
        },
    }
    out
}

/// The reports after one answer of the evaluator. Where each answer is for
/// one system it is read as pairs of name and value, else as a list of names;
/// an answer that cannot be read so adds nothing.
pub open spec fn with_answer(reports: Reports, text: Seq<char>, per_system: bool) -> Reports {
    if per_system {
        match json_attrs_of(text) {
            Some(attrs) => with_attrs(reports, attrs),
            None => reports,
        }
    } else {
        match json_names_of(text) {
            Some(names) => with_names(reports, names),
            None => reports,
        }
    }
}

/// The reports after all answers, taken in their order. A call that failed
/// adds nothing.
pub open spec fn reports_after(answers: Seq<Result<String, EvalError>>, per_system: bool) -> Reports
    decreases answers.len(),
{
    if answers.len() == 0 {
        Map::empty()
    } else {
        let before = reports_after(answers.drop_last(), per_system);
        match answers.last() {
            Ok(text) => with_answer(before, text@, per_system),
            Err(_) => before,
        }
    }
}

/// Answer `i` is the first of a call that failed.
pub open spec fn is_first_failure(answers: Seq<Result<String, EvalError>>, i: int) -> bool {
    &&& 0 <= i < answers.len()
    &&& answers[i] is Err
    &&& forall|j: int| 0 <= j < i ==> answers[j] is Ok
}

/// Discovers the candidates from the evaluator's answers to the calls of
/// `discovery_requests`.
///
/// With one call for each system, a call that failed or whose answer cannot
/// be read counts for nothing, and the rest is gone on with. Without systems
/// the first failed call ends discovery with its error; an answer that cannot
/// be read still counts for nothing.
pub fn discover(per_system: bool, answers: &Vec<Result<String, EvalError>>) -> (r: Result<
    Discovery,
    DiscoverError,
>)
    ensures
        match r {
            Ok(found) => {
                &&& per_system || forall|i: int| 0 <= i < answers@.len() ==> answers@[i] is Ok
                &&& found.is_of(reports_after(answers@, per_system))
            },
            Err(DiscoverError::Eval(e)) => {
                &&& !per_system
                &&& exists|i: int|
                    is_first_failure(answers@, i) && e->detail@ == answers@[i]->Err_0->detail@
            },
            Err(DiscoverError::BadSystems { .. }) => false,
        },
{
    let mut table = AttrTable::new();
    let n = answers.len();
    let mut i: usize = 0;
    while i < n
        invariant
            n == answers@.len(),
            i <= n,
            table.wf(),
            table@ == reports_after(answers@.take(i as int), per_system),
            per_system || forall|j: int| 0 <= j < i ==> answers@[j] is Ok,
        decreases n - i,
    {
        proof {
            assert(answers@.take(i + 1).drop_last() =~= answers@.take(i as int));
            assert(answers@.take(i + 1).last() == answers@[i as int]);
        }
        match &answers[i] {
            Ok(text) => {
                if per_system {
                    match read_attrs(text.as_str()) {
                        Ok(attrs) => {
                            table.absorb_attrs(&attrs);
                        },
                        Err(_) => {},
                    }
                } else {
                    match read_names(text.as_str()) {
                        Ok(names) => {
                            table.absorb_names(&names);
                        },
                        Err(_) => {},
                    }
                }
            },
            Err(e) => {
                if !per_system {
                    assert(is_first_failure(answers@, i as int));
                    return Err(
                        DiscoverError::Eval(EvalError::ProcessFailed { detail: e.message() }),
                    );
                }
            },
        }
        i = i + 1;
    }
    assert(answers@.take(n as int) =~= answers@);
    Ok(table.finish())
}

/// A name reported with the skip token is left out of the candidates and
/// stands among the skipped names, whatever was reported of it before.
pub proof fn lemma_skip_token_excludes(reports: Reports, name: Seq<char>)
    ensures
        !candidates_of(with_report(reports, name, SKIP_TOKEN@)).contains(name),
        skipped_of(with_report(reports, name, SKIP_TOKEN@)).contains(name),
{
}

/// In a discovery, a name stands among the candidates or among the skipped
/// names exactly where it was reported, in one of the two and once: a
/// skipped name is never a candidate, and no name is found twice, from
/// however many systems it was reported.
pub proof fn lemma_discovery_partitions(found: Discovery, reports: Reports, name: Seq<char>)
    requires
        found.is_of(reports),
    ensures
        reports.dom().contains(name) <==> found.candidates.deep_view().contains(name)
            || found.skipped.deep_view().contains(name),
        !(found.candidates.deep_view().contains(name) && found.skipped.deep_view().contains(
            name,
        )),
        reports.dom().contains(name) && reports[name] ==> found.skipped.deep_view().contains(
            name,
        ) && !found.candidates.deep_view().contains(name),
        forall|i: int, j: int|
            0 <= i < j < found.candidates.deep_view().len() ==> found.candidates.deep_view()[i]
                != found.candidates.deep_view()[j],
        forall|i: int, j: int|
            0 <= i < j < found.skipped.deep_view().len() ==> found.skipped.deep_view()[i]
                != found.skipped.deep_view()[j],
{
    assert(found.candidates.deep_view().to_set().contains(name) == candidates_of(
        reports,
    ).contains(name));
    assert(found.skipped.deep_view().to_set().contains(name) == skipped_of(reports).contains(
        name,
    ));
}

} // verus!
