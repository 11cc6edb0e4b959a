//! The Linux adapter: desktop-entry records, as an external helper lists
//! them, become catalog entries and launch specifications.

use crate::catalog::{
    catalog_after, catalog_view, lemma_outcomes_append, optional_launch, outcome_view, record,
    registry_after, Application, CatalogEntry, EntryView, Found, LaunchSpec, LaunchView,
};
use crate::config::{name_allowed, passes_filter};
use crate::registry::LaunchRegistry;
use crate::text::{texts, Text};
use vstd::prelude::*;
use vstd::string::*;

verus! {

/// One record of the helper's output.
#[derive(Clone, Debug, PartialEq, Eq)]
pub struct AppInfo {
    pub name: String,
    pub exec_line: String,
    pub description: String,
    pub icon_path: String,
}

/// What a record holds.
pub struct AppInfoView {
    pub name: Text,
    pub exec_line: Text,
    pub description: Text,
    pub icon_path: Text,
}

impl View for AppInfo {
    type V = AppInfoView;

    open spec fn view(&self) -> AppInfoView {
        AppInfoView {
            name: self.name@,
            exec_line: self.exec_line@,
            description: self.description@,
            icon_path: self.icon_path@,
        }
    }
}

/// The views of a list of records, in order.
pub open spec fn app_infos(apps: Seq<AppInfo>) -> Seq<AppInfoView> {
    Seq::new(apps.len(), |i: int| apps[i]@)
}

/// The words of a command line as `shlex::split` finds them by the rules of
/// the POSIX shell, or `None` where the line ends inside a quotation or after
/// a lone backslash.
pub uninterp spec fn shell_words(line: Seq<char>) -> Option<Seq<Seq<char>>>;

/// The views of an optional list of words.
pub open spec fn optional_words(words: Option<Vec<String>>) -> Option<Seq<Text>> {
    match words {
        Some(w) => Some(texts(w@)),
        None => None,
    }
}

/// Calls `shlex::split`. The contract only names the result: the words, or
/// the failure, are a function of the line alone.
#[verifier::external_body]
fn shlex_split(line: &str) -> (r: Option<Vec<String>>)
    ensures
        optional_words(r) == shell_words(line@),
{
    shlex::split(line)
}

/// The tokens of an `exec` line: its shell words, or the whole line as one
/// token where it cannot be split.
pub open spec fn exec_tokens(exec: Text) -> Seq<Text> {
    match shell_words(exec) {
        Some(words) => words,
        None => seq![exec],
    }
}

/// Whether a token is a field code of a desktop entry, such as `%f` or `%U`.
pub open spec fn is_field_code(token: Text) -> bool {
    token.len() > 0 && token[0] == '%'
}

/// The tokens that are no field codes, in order.
pub open spec fn without_field_codes(tokens: Seq<Text>) -> Seq<Text>
    decreases tokens.len(),
{
    if tokens.len() == 0 {
        Seq::<Text>::empty()
    } else {
        let before = without_field_codes(tokens.drop_last());
        if is_field_code(tokens.last()) {
            before
        } else {
            before.push(tokens.last())
        }
    }
}

/// The launch specification that tokens give: without the field codes, the
/// first token is the command and the others are its arguments; none where no
/// token is left.
pub open spec fn launch_of_tokens(tokens: Seq<Text>) -> Option<LaunchView> {
    let kept = without_field_codes(tokens);
    if kept.len() == 0 {
        None
    } else {
        Some(LaunchView { command: kept[0], args: kept.skip(1) })
    }
}

/// What becomes of one record under a name filter: skipped where the name
/// does not pass or the `exec` line leaves no token, else kept with the
/// record's name, description and icon path.
pub open spec fn linux_outcome(app: AppInfoView, filter: Seq<Text>) -> Option<Found> {
    if !passes_filter(filter, app.name) {
        None
    } else {
        match launch_of_tokens(exec_tokens(app.exec_line)) {
            Some(launch) => Some(
                Found {
                    entry: EntryView {
                        name: app.name,
                        description: app.description,
                        icon: app.icon_path,
                    },
                    launch,
                },
            ),
            None => None,
        }
    }
}

/// The outcomes of the records, one for one.
pub open spec fn linux_outcomes(apps: Seq<AppInfoView>, filter: Seq<Text>) -> Seq<Option<Found>> {
    Seq::new(apps.len(), |i: int| linux_outcome(apps[i], filter))
}

/// The helper invocation that lists the desktop entries: one argument, the
/// additional scan paths as they were configured, unsplit.
pub fn linux_request(additional_paths: &str) -> (r: LaunchSpec)
    ensures
        r.command@ == "/data/linux_list_apps"@,
        texts(r.args@) == seq![additional_paths@],
{
    let mut args: Vec<String> = Vec::new();
    args.push(String::from_str(additional_paths));
    assert(texts(args@) =~= seq![additional_paths@]);
    LaunchSpec { command: String::from_str("/data/linux_list_apps"), args }
}

/// Whether `token` is a field code.
pub fn starts_with_percent(token: &str) -> (r: bool)
    ensures
        r == is_field_code(token@),
{
    token.unicode_len() > 0 && token.get_char(0) == '%'
}

/// The tokens of an `exec` line.
pub fn tokenize(exec: &str) -> (tokens: Vec<String>)
    ensures
        texts(tokens@) == exec_tokens(exec@),
{
    match shlex_split(exec) {
        Some(words) => words,
        None => {
            let mut whole: Vec<String> = Vec::new();
            whole.push(String::from_str(exec));
            assert(texts(whole@) =~= seq![exec@]);
            whole
        },
    }
}

/// The launch specification that `tokens` give.
pub fn launch_from_tokens(tokens: &Vec<String>) -> (r: Option<LaunchSpec>)
    ensures
        optional_launch(r) == launch_of_tokens(texts(tokens@)),
{
    let n: usize = tokens.len();
    let mut command: Option<String> = None;
    let mut args: Vec<String> = Vec::new();
    let mut i: usize = 0;
    proof {
        assert(texts(tokens@).take(0) =~= Seq::<Text>::empty());
        assert(texts(args@) =~= Seq::<Text>::empty());
    }
    while i < n
        invariant
            n == tokens.len(),
            i <= n,
            match command {
                Some(c) => {
                    let kept = without_field_codes(texts(tokens@).take(i as int));
                    kept.len() > 0 && kept[0] == c@ && kept.skip(1) == texts(args@)
                },
                None => without_field_codes(texts(tokens@).take(i as int)).len() == 0
                    && args@.len() == 0,
            },
        decreases n - i,
    {
        let ghost before = without_field_codes(texts(tokens@).take(i as int));
        proof {
            let upto = texts(tokens@).take(i + 1);
            assert(upto.drop_last() =~= texts(tokens@).take(i as int));
            assert(upto.last() == tokens@[i as int]@);
        }
        if !starts_with_percent(tokens[i].as_str()) {
            let token = tokens[i].clone();
            if command.is_none() {
                proof {
                    assert(before.push(token@).skip(1) =~= texts(args@));
                }
                command = Some(token);
            } else {
                proof {
                    assert(texts(args@.push(token)) =~= texts(args@).push(token@));
                    assert(before.push(token@).skip(1) =~= before.skip(1).push(token@));
                }
                args.push(token);
            }
        }
        i += 1;
    }
    proof {
        assert(texts(tokens@).take(n as int) =~= texts(tokens@));
    }
    match command {
        Some(c) => Some(LaunchSpec { command: c, args }),
        None => None,
    }
}

/// What becomes of one record under a name filter.
pub fn linux_application(app: &AppInfo, filter: &Vec<String>) -> (r: Option<Application>)
    ensures
        outcome_view(r) == linux_outcome(app@, texts(filter@)),
{
    if !name_allowed(filter, app.name.as_str()) {
        return None;
    }
    let tokens = tokenize(app.exec_line.as_str());
    match launch_from_tokens(&tokens) {
        Some(launch) => Some(
            Application {
                entry: CatalogEntry {
                    name: app.name.clone(),
                    description: app.description.clone(),
                    icon: app.icon_path.clone(),
                },
                launch,
            },
        ),
        None => None,
    }
}

/// Processes the helper's records in order: every kept application is
/// registered and appended to the catalog.
pub fn linux_pass(
    apps: &Vec<AppInfo>,
    filter: &Vec<String>,
    catalog: &mut Vec<CatalogEntry>,
    registry: &mut LaunchRegistry,
)
    ensures
        catalog_view(final(catalog)@) == catalog_after(
            catalog_view(old(catalog)@),
            linux_outcomes(app_infos(apps@), texts(filter@)),
        ),
        final(registry)@ == registry_after(
            old(registry)@,
            linux_outcomes(app_infos(apps@), texts(filter@)),
        ),
{
    let ghost outcomes = linux_outcomes(app_infos(apps@), texts(filter@));
    let ghost catalog0 = catalog_view(catalog@);
    let ghost registry0 = registry@;
    let n: usize = apps.len();
    let mut i: usize = 0;
    proof {
        assert(outcomes.take(0) =~= Seq::<Option<Found>>::empty());
    }
    while i < n
        invariant
            n == apps.len(),
            i <= n,
            outcomes == linux_outcomes(app_infos(apps@), texts(filter@)),
            catalog_view(catalog@) == catalog_after(catalog0, outcomes.take(i as int)),
            registry@ == registry_after(registry0, outcomes.take(i as int)),
        decreases n - i,
    {
        let outcome = linux_application(&apps[i], filter);
        proof {
            lemma_outcomes_append(
                catalog0,
                registry0,
                outcomes.take(i as int),
                seq![outcome_view(outcome)],
            );
            assert(outcomes.take(i as int) + seq![outcome_view(outcome)] =~= outcomes.take(i + 1));
        }
        record(outcome, catalog, registry);
        i += 1;
    }
    proof {
        assert(outcomes.take(n as int) =~= outcomes);
    }
}

} // verus!
