//! The discovery pass as a state machine. The library decides; its caller
//! performs each action (a command, a directory listing, reading files) and
//! hands back what happened as an event.

use crate::catalog::{
    all_pass, all_registered, catalog_after, catalog_view, kept_pass, lemma_catalog_passes_filter,
    lemma_catalog_registered, lemma_registry_grows, registry_after, CatalogEntry, EntryView,
    LaunchSpec, LaunchView,
};
use crate::config::{list_items, optional_text, Config, ConfigView, Platform, platform_named};
use crate::linux::{app_infos, linux_outcomes, linux_pass, linux_request, AppInfo, AppInfoView};
use crate::macos::{
    bundles_among, children_view, home_request, macos_outcomes, macos_pass, macos_scan_dirs,
    manifest_paths, manifest_paths_of, optional_texts, scan_dirs, select_bundles, ChildView,
    DirChild,
};
use crate::registry::LaunchRegistry;
use crate::text::{lines, texts, trimmed_lines, Text};
use crate::windows::{
    additional_request, additional_request_of, appdata_request, appdata_request_of, cache_request,
    cache_request_of, icon_requests_of, launches, start_menu_request,
    start_menu_request_of, windows_apps, windows_outcomes, windows_pass, WindowsAppInfo,
    WindowsAppView,
};
use vstd::prelude::*;

verus! {

/// Where a discovery pass stands: what it waits for.
#[derive(Clone, Copy, Debug, PartialEq, Eq, Structural)]
pub enum Phase {
    /// macOS: the lookup of the home directory.
    AwaitHome,
    /// macOS: the children of a scan directory.
    AwaitChildren,
    /// macOS: the manifests of the bundles of a scan directory.
    AwaitDocuments,
    /// Linux: the helper's records.
    AwaitLinuxApps,
    /// Windows: the listing of the icon cache.
    AwaitIconListing,
    /// Windows: the application-data directory.
    AwaitAppData,
    /// Windows: the records of the Start-Menu locations.
    AwaitStartMenuApps,
    /// Windows: the records of the additional paths.
    AwaitAdditionalApps,
    /// Windows: the end of the icon extractions.
    AwaitIcons,
    /// The pass has ended and its catalog was handed out.
    Finished,
    /// The pass was given up.
    Aborted,
}

/// What the caller reports after performing an action.
#[derive(Clone, Debug, PartialEq, Eq)]
pub enum Event {
    /// The text that a command printed or that a lookup gave.
    Output(String),
    /// The action failed.
    Failed,
    /// The immediate children of the directory that was to be listed.
    Children(Vec<DirChild>),
    /// The text of each file that was to be read, `None` where it could not
    /// be read, in the order of the paths.
    Documents(Vec<Option<String>>),
    /// The records that the Linux helper printed.
    LinuxApps(Vec<AppInfo>),
    /// The records that the Windows enumeration helper printed.
    WindowsApps(Vec<WindowsAppInfo>),
    /// The action was carried out; nothing is reported of it.
    Done,
}

/// What the caller is to do next.
#[derive(Clone, Debug, PartialEq, Eq)]
pub enum Action {
    /// Run the command and report its output, or that it failed.
    Run(LaunchSpec),
    /// List the directory and report its children; report a failure where it
    /// does not exist, is no directory or cannot be listed.
    ListDirectory(String),
    /// Read each file as text and report the documents.
    ReadDocuments(Vec<String>),
    /// Run the command and report the Linux records that it printed; report a
    /// failure where it fails or its output is no list of such records.
    ListLinuxApps(LaunchSpec),
    /// Run the command and report the Windows records that it printed; report
    /// a failure where it fails or its output is no list of such records.
    ListWindowsApps(LaunchSpec),
    /// Run each command, whether or not the ones before it succeeded, and
    /// report that this was done.
    ExtractIcons(Vec<LaunchSpec>),
    /// The pass is over: hand the catalog to the host.
    Finish(Vec<CatalogEntry>),
    /// The pass is given up: report the failure to the host.
    Abort,
}

/// What an event holds.
#[verifier::ext_equal]
pub enum EventView {
    Output(Text),
    Failed,
    Children(Seq<ChildView>),
    Documents(Seq<Option<Text>>),
    LinuxApps(Seq<AppInfoView>),
    WindowsApps(Seq<WindowsAppView>),
    Done,
}

/// What an action holds.
#[verifier::ext_equal]
pub enum ActionView {
    Run(LaunchView),
    ListDirectory(Text),
    ReadDocuments(Seq<Text>),
    ListLinuxApps(LaunchView),
    ListWindowsApps(LaunchView),
    ExtractIcons(Seq<LaunchView>),
    Finish(Seq<EntryView>),
    Abort,
}

impl View for Event {
    type V = EventView;

    open spec fn view(&self) -> EventView {
        match *self {
            Event::Output(text) => EventView::Output(text@),
            Event::Failed => EventView::Failed,
            Event::Children(children) => EventView::Children(children_view(children@)),
            Event::Documents(documents) => EventView::Documents(optional_texts(documents@)),
            Event::LinuxApps(apps) => EventView::LinuxApps(app_infos(apps@)),
            Event::WindowsApps(apps) => EventView::WindowsApps(windows_apps(apps@)),
            Event::Done => EventView::Done,
        }
    }
}

impl View for Action {
    type V = ActionView;

    open spec fn view(&self) -> ActionView {
        match *self {
            Action::Run(spec) => ActionView::Run(spec@),
            Action::ListDirectory(path) => ActionView::ListDirectory(path@),
            Action::ReadDocuments(paths) => ActionView::ReadDocuments(texts(paths@)),
            Action::ListLinuxApps(spec) => ActionView::ListLinuxApps(spec@),
            Action::ListWindowsApps(spec) => ActionView::ListWindowsApps(spec@),
            Action::ExtractIcons(specs) => ActionView::ExtractIcons(launches(specs@)),
            Action::Finish(catalog) => ActionView::Finish(catalog_view(catalog@)),
            Action::Abort => ActionView::Abort,
        }
    }
}

/// The state of a discovery pass.
pub struct Discovery {
    phase: Phase,
    config: Config,
    catalog: Vec<CatalogEntry>,
    pending: Vec<String>,
    bundles: Vec<DirChild>,
    cached: Vec<String>,
    apps: Vec<WindowsAppInfo>,
}

/// What the state of a discovery pass holds.
#[verifier::ext_equal]
pub struct DiscoveryView {
    /// What the pass waits for.
    pub phase: Phase,
    /// The options that the pass was started with.
    pub config: ConfigView,
    /// The catalog so far.
    pub catalog: Seq<EntryView>,
    /// macOS: the scan directories that are still to be listed.
    pub pending: Seq<Text>,
    /// macOS: the bundles whose manifests are being read.
    pub bundles: Seq<ChildView>,
    /// Windows: the icon file names that the cache listing held.
    pub cached: Seq<Text>,
    /// Windows: the records of the Start-Menu locations, kept while those of
    /// the additional paths are awaited.
    pub apps: Seq<WindowsAppView>,
}

/// A step of the pass: the state and the registry after it, and what the
/// caller is to do next.
#[verifier::ext_equal]
pub struct Transition {
    pub state: DiscoveryView,
    pub action: ActionView,
    pub registry: Map<Text, LaunchView>,
}

/// The terms of the name filter that a configuration holds.
pub open spec fn filter_of(config: ConfigView) -> Seq<Text> {
    list_items(config.application_filter)
}

/// The state in which a pass starts.
pub open spec fn initial_state(config: ConfigView, phase: Phase) -> DiscoveryView {
    DiscoveryView {
        phase,
        config,
        catalog: Seq::<EntryView>::empty(),
        pending: Seq::<Text>::empty(),
        bundles: Seq::<ChildView>::empty(),
        cached: Seq::<Text>::empty(),
        apps: Seq::<WindowsAppView>::empty(),
    }
}

/// How a pass starts: with the first action of the configured platform's
/// adapter, or, for an unknown platform, at its end with an empty catalog.
pub open spec fn start_of(config: ConfigView) -> (DiscoveryView, ActionView) {
    match platform_named(config.platform) {
        Platform::MacOs => (
            initial_state(config, Phase::AwaitHome),
            ActionView::Run(LaunchView { command: "printenv"@, args: seq!["HOME"@] }),
        ),
        Platform::Linux => (
            initial_state(config, Phase::AwaitLinuxApps),
            ActionView::ListLinuxApps(
                LaunchView {
                    command: "/data/linux_list_apps"@,
                    args: seq![config.additional_paths],
                },
            ),
        ),
        Platform::Windows => (
            initial_state(config, Phase::AwaitIconListing),
            ActionView::Run(cache_request_of(config.data_dir)),
        ),
        Platform::Unknown => (
            initial_state(config, Phase::Finished),
            ActionView::Finish(Seq::<EntryView>::empty()),
        ),
    }
}

/// The pass ends: the catalog is handed out.
pub open spec fn finish_of(s: DiscoveryView) -> (DiscoveryView, ActionView) {
    (
        DiscoveryView { phase: Phase::Finished, catalog: Seq::<EntryView>::empty(), ..s },
        ActionView::Finish(s.catalog),
    )
}

/// The pass is given up.
pub open spec fn abort_of(s: DiscoveryView) -> (DiscoveryView, ActionView) {
    (DiscoveryView { phase: Phase::Aborted, ..s }, ActionView::Abort)
}

/// macOS: the next scan directory is listed, or the pass ends where none is
/// left.
pub open spec fn next_listing_of(s: DiscoveryView) -> (DiscoveryView, ActionView) {
    if s.pending.len() > 0 {
        (
            DiscoveryView { phase: Phase::AwaitChildren, pending: s.pending.drop_first(), ..s },
            ActionView::ListDirectory(s.pending.first()),
        )
    } else {
        finish_of(s)
    }
}

/// macOS: the home directory is known or not; the scan directories are
/// fixed and the first one is listed.
pub open spec fn after_home(s: DiscoveryView, home: Option<Text>) -> (DiscoveryView, ActionView) {
    next_listing_of(
        DiscoveryView { pending: scan_dirs(home, list_items(s.config.additional_paths)), ..s },
    )
}

/// macOS: the children of a scan directory are known: the manifests of its
/// bundles are read, or, where it has none, the next directory is listed.
pub open spec fn after_children(s: DiscoveryView, children: Seq<ChildView>) -> (
    DiscoveryView,
    ActionView,
) {
    let bundles = bundles_among(children);
    if bundles.len() > 0 {
        (
            DiscoveryView { phase: Phase::AwaitDocuments, bundles, ..s },
            ActionView::ReadDocuments(manifest_paths_of(bundles)),
        )
    } else {
        next_listing_of(s)
    }
}

/// macOS: the manifests of a directory's bundles were read: the bundles are
/// processed and the next directory is listed.
pub open spec fn after_documents(
    s: DiscoveryView,
    documents: Seq<Option<Text>>,
    registry: Map<Text, LaunchView>,
) -> Transition {
    let outcomes = macos_outcomes(s.bundles, documents, filter_of(s.config));
    let next = next_listing_of(
        DiscoveryView {
            catalog: catalog_after(s.catalog, outcomes),
            bundles: Seq::<ChildView>::empty(),
            ..s
        },
    );
    Transition { state: next.0, action: next.1, registry: registry_after(registry, outcomes) }
}

/// Linux: the records are processed and the pass ends.
pub open spec fn after_linux_apps(
    s: DiscoveryView,
    apps: Seq<AppInfoView>,
    registry: Map<Text, LaunchView>,
) -> Transition {
    let outcomes = linux_outcomes(apps, filter_of(s.config));
    let next = finish_of(DiscoveryView { catalog: catalog_after(s.catalog, outcomes), ..s });
    Transition { state: next.0, action: next.1, registry: registry_after(registry, outcomes) }
}

/// Windows: all records are known: they are processed; then the missing
/// icons are extracted, or the pass ends where none is missing.
pub open spec fn after_windows_apps(
    s: DiscoveryView,
    apps: Seq<WindowsAppView>,
    registry: Map<Text, LaunchView>,
) -> Transition {
    let filter = filter_of(s.config);
    let outcomes = windows_outcomes(apps, filter, s.config.data_dir);
    let requests = icon_requests_of(apps, filter, s.cached, s.config.data_dir);
    let done = DiscoveryView {
        catalog: catalog_after(s.catalog, outcomes),
        apps: Seq::<WindowsAppView>::empty(),
        ..s
    };
    let next = if requests.len() > 0 {
        (DiscoveryView { phase: Phase::AwaitIcons, ..done }, ActionView::ExtractIcons(requests))
    } else {
        finish_of(done)
    };
    Transition { state: next.0, action: next.1, registry: registry_after(registry, outcomes) }
}

/// A step that leaves the registry as it is.
pub open spec fn keeping(next: (DiscoveryView, ActionView), registry: Map<Text, LaunchView>)
    -> Transition {
    Transition { state: next.0, action: next.1, registry }
}

/// The step that a pass in state `s` takes on event `e`.
///
/// An event that the phase does not wait for counts as a failure. A failure
/// is passed over where the work was optional (the home directory, a scan
/// directory, the manifests, the icons) and ends the pass where a required
/// command was run. A pass that has ended answers every event by `Abort`.
pub open spec fn step_of(s: DiscoveryView, e: EventView, registry: Map<Text, LaunchView>)
    -> Transition {
    match s.phase {
        Phase::AwaitHome => match e {
            EventView::Output(home) => keeping(after_home(s, Some(home)), registry),
            _ => keeping(after_home(s, None), registry),
        },
        Phase::AwaitChildren => match e {
            EventView::Children(children) => keeping(after_children(s, children), registry),
            _ => keeping(next_listing_of(s), registry),
        },
        Phase::AwaitDocuments => match e {
            EventView::Documents(documents) => after_documents(s, documents, registry),
            _ => after_documents(s, Seq::<Option<Text>>::empty(), registry),
        },
        Phase::AwaitLinuxApps => match e {
            EventView::LinuxApps(apps) => after_linux_apps(s, apps, registry),
            _ => keeping(abort_of(s), registry),
        },
        Phase::AwaitIconListing => match e {
            EventView::Output(listing) => keeping(
                (
                    DiscoveryView {
                        phase: Phase::AwaitAppData,
                        cached: trimmed_lines(listing),
                        ..s
                    },
                    ActionView::Run(appdata_request_of()),
                ),
                registry,
            ),
            _ => keeping(abort_of(s), registry),
        },
        Phase::AwaitAppData => match e {
            EventView::Output(appdata) => keeping(
                (
                    DiscoveryView { phase: Phase::AwaitStartMenuApps, ..s },
                    ActionView::ListWindowsApps(start_menu_request_of(s.config.data_dir, appdata)),
                ),
                registry,
            ),
            _ => keeping(abort_of(s), registry),
        },
        Phase::AwaitStartMenuApps => match e {
            EventView::WindowsApps(apps) => match additional_request_of(
                s.config.data_dir,
                s.config.additional_paths,
            ) {
                Some(request) => keeping(
                    (
                        DiscoveryView { phase: Phase::AwaitAdditionalApps, apps, ..s },
                        ActionView::ListWindowsApps(request),
                    ),
                    registry,
                ),
                None => after_windows_apps(s, apps, registry),
            },
            _ => keeping(abort_of(s), registry),
        },
        Phase::AwaitAdditionalApps => match e {
            EventView::WindowsApps(apps) => after_windows_apps(s, s.apps + apps, registry),
            _ => keeping(abort_of(s), registry),
        },
        Phase::AwaitIcons => keeping(finish_of(s), registry),
        Phase::Finished => keeping((s, ActionView::Abort), registry),
        Phase::Aborted => keeping((s, ActionView::Abort), registry),
    }
}

/// Starts a discovery pass for the configured platform: the state of the
/// pass and the first thing to do. For a platform that is not recognised the
/// pass is over at once, with an empty catalog and nothing to do.
pub fn init(config: Config) -> (r: (Discovery, Action))
    ensures
        (r.0@, r.1@) == start_of(config@),
{
    match config.platform() {
        Platform::MacOs => {
            let request = home_request();
            (Discovery::new(config, Phase::AwaitHome), Action::Run(request))
        },
        Platform::Linux => {
            let request = linux_request(config.additional_paths.as_str());
            (Discovery::new(config, Phase::AwaitLinuxApps), Action::ListLinuxApps(request))
        },
        Platform::Windows => {
            let request = cache_request(config.data_dir.as_str());
            (Discovery::new(config, Phase::AwaitIconListing), Action::Run(request))
        },
        Platform::Unknown => {
            let catalog: Vec<CatalogEntry> = Vec::new();
            assert(catalog_view(catalog@) =~= Seq::<EntryView>::empty());
            (Discovery::new(config, Phase::Finished), Action::Finish(catalog))
        },
    }
}

/// The catalog for a query. Filtering by query is reserved: the catalog is
/// empty whatever the query.
pub fn filter(query: &str) -> (r: Vec<CatalogEntry>)
    ensures
        r@.len() == 0,
{
    Vec::new()
}

/// A pass keeps the filter: every entry of its catalog passes the name
/// filter of its configuration.
pub open spec fn filtered(s: DiscoveryView) -> bool {
    all_pass(s.catalog, filter_of(s.config))
}

/// A pass starts with an empty catalog, which keeps the filter and names
/// nothing that is not registered.
pub proof fn lemma_start_is_sound(config: ConfigView, registry: Map<Text, LaunchView>)
    ensures
        filtered(start_of(config).0),
        all_registered(start_of(config).0.catalog, registry),
        start_of(config).0.config == config,
{
}

/// An unknown platform yields an empty catalog and no work: the pass is over
/// as it starts.
pub proof fn lemma_unknown_platform_yields_nothing(config: ConfigView)
    requires
        config.platform != "macos"@,
        config.platform != "linux"@,
        config.platform != "windows"@,
    ensures
        start_of(config).1 == ActionView::Finish(Seq::<EntryView>::empty()),
        start_of(config).0.phase == Phase::Finished,
{
}

/// Filtered catalog: a step keeps the configuration, and where every entry
/// of the catalog so far passes the name filter, so does every entry after
/// the step and every entry of a catalog that the step hands out.
pub proof fn lemma_step_keeps_filter(
    s: DiscoveryView,
    e: EventView,
    registry: Map<Text, LaunchView>,
)
    requires
        filtered(s),
    ensures
        step_of(s, e, registry).state.config == s.config,
        filtered(step_of(s, e, registry).state),
        step_of(s, e, registry).action matches ActionView::Finish(catalog) ==> all_pass(
            catalog,
            filter_of(s.config),
        ),
{
    let filter = filter_of(s.config);
    match s.phase {
        Phase::AwaitDocuments => {
            let documents = match e {
                EventView::Documents(d) => d,
                _ => Seq::<Option<Text>>::empty(),
            };
            let outcomes = macos_outcomes(s.bundles, documents, filter);
            assert(kept_pass(outcomes, filter));
            lemma_catalog_passes_filter(s.catalog, outcomes, filter);
        },
        Phase::AwaitLinuxApps => {
            if let EventView::LinuxApps(apps) = e {
                let outcomes = linux_outcomes(apps, filter);
                assert(kept_pass(outcomes, filter));
                lemma_catalog_passes_filter(s.catalog, outcomes, filter);
            }
        },
        Phase::AwaitStartMenuApps => {
            if let EventView::WindowsApps(apps) = e {
                let outcomes = windows_outcomes(apps, filter, s.config.data_dir);
                assert(kept_pass(outcomes, filter));
                lemma_catalog_passes_filter(s.catalog, outcomes, filter);
            }
        },
        Phase::AwaitAdditionalApps => {
            if let EventView::WindowsApps(apps) = e {
                let outcomes = windows_outcomes(s.apps + apps, filter, s.config.data_dir);
                assert(kept_pass(outcomes, filter));
                lemma_catalog_passes_filter(s.catalog, outcomes, filter);
            }
        },
        _ => {},
    }
}

/// Listed means launchable: where every name of the catalog so far is
/// registered, so is every name of the catalog after the step and of a
/// catalog that the step hands out.
pub proof fn lemma_step_keeps_registered(
    s: DiscoveryView,
    e: EventView,
    registry: Map<Text, LaunchView>,
)
    requires
        all_registered(s.catalog, registry),
    ensures
        all_registered(step_of(s, e, registry).state.catalog, step_of(s, e, registry).registry),
        step_of(s, e, registry).action matches ActionView::Finish(catalog) ==> all_registered(
            catalog,
            step_of(s, e, registry).registry,
        ),
{
    let filter = filter_of(s.config);
    match s.phase {
        Phase::AwaitDocuments => {
            let documents = match e {
                EventView::Documents(d) => d,
                _ => Seq::<Option<Text>>::empty(),
            };
            lemma_catalog_registered(
                s.catalog,
                registry,
                macos_outcomes(s.bundles, documents, filter),
            );
        },
        Phase::AwaitLinuxApps => {
            if let EventView::LinuxApps(apps) = e {
                lemma_catalog_registered(s.catalog, registry, linux_outcomes(apps, filter));
            }
        },
        Phase::AwaitStartMenuApps => {
            if let EventView::WindowsApps(apps) = e {
                lemma_catalog_registered(
                    s.catalog,
                    registry,
                    windows_outcomes(apps, filter, s.config.data_dir),
                );
            }
        },
        Phase::AwaitAdditionalApps => {
            if let EventView::WindowsApps(apps) = e {
                lemma_catalog_registered(
                    s.catalog,
                    registry,
                    windows_outcomes(s.apps + apps, filter, s.config.data_dir),
                );
            }
        },
        _ => {},
    }
}

/// Where a pass stands after it was started and took a step for each of the
/// events, in order.
pub open spec fn after_events(
    config: ConfigView,
    events: Seq<EventView>,
    registry: Map<Text, LaunchView>,
) -> Transition
    decreases events.len(),
{
    if events.len() == 0 {
        keeping(start_of(config), registry)
    } else {
        let before = after_events(config, events.drop_last(), registry);
        step_of(before.state, events.last(), before.registry)
    }
}

/// Whatever the events of a pass are, every entry of a catalog that it hands
/// out passes the name filter of its configuration and is registered under
/// its name.
pub proof fn lemma_every_catalog_is_filtered_and_registered(
    config: ConfigView,
    events: Seq<EventView>,
    registry: Map<Text, LaunchView>,
)
    ensures
        after_events(config, events, registry).state.config == config,
        filtered(after_events(config, events, registry).state),
        all_registered(
            after_events(config, events, registry).state.catalog,
            after_events(config, events, registry).registry,
        ),
        after_events(config, events, registry).action matches ActionView::Finish(catalog)
            ==> all_pass(catalog, filter_of(config)) && all_registered(
            catalog,
            after_events(config, events, registry).registry,
        ),
    decreases events.len(),
{
    if events.len() == 0 {
        lemma_start_is_sound(config, registry);
    } else {
        lemma_every_catalog_is_filtered_and_registered(config, events.drop_last(), registry);
        let before = after_events(config, events.drop_last(), registry);
        lemma_step_keeps_filter(before.state, events.last(), before.registry);
        lemma_step_keeps_registered(before.state, events.last(), before.registry);
    }
}

/// A pass never takes a name out of the registry.
pub proof fn lemma_step_keeps_names(
    s: DiscoveryView,
    e: EventView,
    registry: Map<Text, LaunchView>,
    name: Text,
)
    requires
        registry.contains_key(name),
    ensures
        step_of(s, e, registry).registry.contains_key(name),
{
    let filter = filter_of(s.config);
    match s.phase {
        Phase::AwaitDocuments => {
            let documents = match e {
                EventView::Documents(d) => d,
                _ => Seq::<Option<Text>>::empty(),
            };
            lemma_registry_grows(registry, macos_outcomes(s.bundles, documents, filter), name);
        },
        Phase::AwaitLinuxApps => {
            if let EventView::LinuxApps(apps) = e {
                lemma_registry_grows(registry, linux_outcomes(apps, filter), name);
            }
        },
        Phase::AwaitStartMenuApps => {
            if let EventView::WindowsApps(apps) = e {
                lemma_registry_grows(
                    registry,
                    windows_outcomes(apps, filter, s.config.data_dir),
                    name,
                );
            }
        },
        Phase::AwaitAdditionalApps => {
            if let EventView::WindowsApps(apps) = e {
                lemma_registry_grows(
                    registry,
                    windows_outcomes(s.apps + apps, filter, s.config.data_dir),
                    name,
                );
            }
        },
        _ => {},
    }
}

/// A scan directory that cannot be listed is skipped: the pass goes on to
/// the next directory, or ends with the catalog so far, and neither the
/// catalog nor the registry changes.
pub proof fn lemma_unlisted_directory_is_skipped(s: DiscoveryView, registry: Map<Text, LaunchView>)
    requires
        s.phase == Phase::AwaitChildren,
    ensures
        step_of(s, EventView::Failed, registry).action != ActionView::Abort,
        step_of(s, EventView::Failed, registry).registry == registry,
        s.pending.len() > 0 ==> step_of(s, EventView::Failed, registry).action
            == ActionView::ListDirectory(s.pending.first()) && step_of(
            s,
            EventView::Failed,
            registry,
        ).state.catalog == s.catalog,
        s.pending.len() == 0 ==> step_of(s, EventView::Failed, registry).action
            == ActionView::Finish(s.catalog),
{
}

fn clone_app(app: &WindowsAppInfo) -> (r: WindowsAppInfo)
    ensures
        r@ == app@,
{
    WindowsAppInfo {
        full_name: app.full_name.clone(),
        extension: app.extension.clone(),
        base_name: app.base_name.clone(),
    }
}

fn append_apps(apps: &mut Vec<WindowsAppInfo>, more: &Vec<WindowsAppInfo>)
    ensures
        windows_apps(final(apps)@) == windows_apps(old(apps)@) + windows_apps(more@),
{
    let ghost before = windows_apps(apps@);
    let m: usize = more.len();
    let mut j: usize = 0;
    proof {
        assert(before + windows_apps(more@).take(0) =~= before);
    }
    while j < m
        invariant
            m == more.len(),
            j <= m,
            windows_apps(apps@) == before + windows_apps(more@).take(j as int),
        decreases m - j,
    {
        let app = clone_app(&more[j]);
        proof {
            assert(windows_apps(apps@.push(app)) =~= windows_apps(apps@).push(app@));
            assert((before + windows_apps(more@).take(j as int)).push(app@) =~= before
                + windows_apps(more@).take(j + 1));
        }
        apps.push(app);
        j += 1;
    }
    proof {
        assert(windows_apps(more@).take(m as int) =~= windows_apps(more@));
    }
}

impl Discovery {
    /// What the state holds.
    pub closed spec fn view(&self) -> DiscoveryView {
        DiscoveryView {
            phase: self.phase,
            config: self.config@,
            catalog: catalog_view(self.catalog@),
            pending: texts(self.pending@),
            bundles: children_view(self.bundles@),
            cached: texts(self.cached@),
            apps: windows_apps(self.apps@),
        }
    }

    /// What the pass waits for.
    pub fn phase(&self) -> (r: Phase)
        ensures
            r == self@.phase,
    {
        self.phase
    }

    fn new(config: Config, phase: Phase) -> (r: Discovery)
        ensures
            r@ == initial_state(config@, phase),
    {
        let r = Discovery {
            phase,
            config,
            catalog: Vec::new(),
            pending: Vec::new(),
            bundles: Vec::new(),
            cached: Vec::new(),
            apps: Vec::new(),
        };
        assert(r@ =~~= initial_state(config@, phase));
        r
    }

    fn finish(self) -> (r: (Discovery, Action))
        ensures
            (r.0@, r.1@) == finish_of(self@),
    {
        let mut s = self;
        let mut catalog: Vec<CatalogEntry> = Vec::new();
        std::mem::swap(&mut s.catalog, &mut catalog);
        s.phase = Phase::Finished;
        proof {
            assert(catalog_view(s.catalog@) =~= Seq::<EntryView>::empty());
            assert(s@ =~~= finish_of(self@).0);
        }
        (s, Action::Finish(catalog))
    }

    fn abort(self) -> (r: (Discovery, Action))
        ensures
            (r.0@, r.1@) == abort_of(self@),
    {
        let mut s = self;
        s.phase = Phase::Aborted;
        proof {
            assert(s@ =~~= abort_of(self@).0);
        }
        (s, Action::Abort)
    }

    fn next_listing(self) -> (r: (Discovery, Action))
        ensures
            (r.0@, r.1@) == next_listing_of(self@),
    {
        if self.pending.len() > 0 {
            let mut s = self;
            let dir = s.pending.remove(0);
            s.phase = Phase::AwaitChildren;
            proof {
                assert(texts(s.pending@) =~= texts(self.pending@).drop_first());
                assert(s@ =~~= next_listing_of(self@).0);
            }
            (s, Action::ListDirectory(dir))
        } else {
            self.finish()
        }
    }

    fn on_home(self, home: Option<String>) -> (r: (Discovery, Action))
        ensures
            (r.0@, r.1@) == after_home(self@, optional_text(home)),
    {
        let mut s = self;
        let additional = s.config.additional_path_list();
        s.pending = macos_scan_dirs(&home, &additional);
        proof {
            assert(s@ =~~= (DiscoveryView {
                pending: scan_dirs(optional_text(home), list_items(self@.config.additional_paths)),
                ..self@
            }));
        }
        s.next_listing()
    }

    fn on_children(self, children: &Vec<DirChild>) -> (r: (Discovery, Action))
        ensures
            (r.0@, r.1@) == after_children(self@, children_view(children@)),
    {
        let bundles = select_bundles(children);
        if bundles.len() > 0 {
            let mut s = self;
            let paths = manifest_paths(&bundles);
            s.bundles = bundles;
            s.phase = Phase::AwaitDocuments;
            proof {
                assert(s@ =~~= after_children(self@, children_view(children@)).0);
            }
            (s, Action::ReadDocuments(paths))
        } else {
            self.next_listing()
        }
    }

    fn on_documents(self, documents: &Vec<Option<String>>, registry: &mut LaunchRegistry) -> (r: (
        Discovery,
        Action,
    ))
        ensures
            (Transition { state: r.0@, action: r.1@, registry: final(registry)@ })
                == after_documents(self@, optional_texts(documents@), old(registry)@),
    {
        let mut s = self;
        let filter = s.config.filter_terms();
        macos_pass(&s.bundles, documents, &filter, &mut s.catalog, registry);
        s.bundles = Vec::new();
        proof {
            let outcomes = macos_outcomes(
                self@.bundles,
                optional_texts(documents@),
                filter_of(self@.config),
            );
            assert(children_view(s.bundles@) =~= Seq::<ChildView>::empty());
            assert(s@ =~~= (DiscoveryView {
                catalog: catalog_after(self@.catalog, outcomes),
                bundles: Seq::<ChildView>::empty(),
                ..self@
            }));
        }
        s.next_listing()
    }

    fn on_linux_apps(self, apps: &Vec<AppInfo>, registry: &mut LaunchRegistry) -> (r: (
        Discovery,
        Action,
    ))
        ensures
            (Transition { state: r.0@, action: r.1@, registry: final(registry)@ })
                == after_linux_apps(self@, app_infos(apps@), old(registry)@),
    {
        let mut s = self;
        let filter = s.config.filter_terms();
        linux_pass(apps, &filter, &mut s.catalog, registry);
        proof {
            let outcomes = linux_outcomes(app_infos(apps@), filter_of(self@.config));
            assert(s@ =~~= (DiscoveryView {
                catalog: catalog_after(self@.catalog, outcomes),
                ..self@
            }));
        }
        s.finish()
    }

    fn on_windows_apps(self, apps: &Vec<WindowsAppInfo>, registry: &mut LaunchRegistry) -> (r: (
        Discovery,
        Action,
    ))
        ensures
            (Transition { state: r.0@, action: r.1@, registry: final(registry)@ })
                == after_windows_apps(self@, windows_apps(apps@), old(registry)@),
    {
        let mut s = self;
        let filter = s.config.filter_terms();
        let requests = windows_pass(
            apps,
            &filter,
            &s.cached,
            s.config.data_dir.as_str(),
            &mut s.catalog,
            registry,
        );
        s.apps = Vec::new();
        proof {
            let outcomes = windows_outcomes(
                windows_apps(apps@),
                filter_of(self@.config),
                self@.config.data_dir,
            );
            assert(windows_apps(s.apps@) =~= Seq::<WindowsAppView>::empty());
            assert(s@ =~~= (DiscoveryView {
                catalog: catalog_after(self@.catalog, outcomes),
                apps: Seq::<WindowsAppView>::empty(),
                ..self@
            }));
        }
        if requests.len() > 0 {
            let ghost done = s@;
            s.phase = Phase::AwaitIcons;
            proof {
                assert(s@ =~~= (DiscoveryView { phase: Phase::AwaitIcons, ..done }));
            }
            (s, Action::ExtractIcons(requests))
        } else {
            s.finish()
        }
    }

    /// Takes the step that the event asks for: the next state, and what the
    /// caller is to do next. Applications that the step keeps are registered
    /// in `registry`.
    pub fn step(self, event: Event, registry: &mut LaunchRegistry) -> (r: (Discovery, Action))
        ensures
            (Transition { state: r.0@, action: r.1@, registry: final(registry)@ }) == step_of(
                self@,
                event@,
                old(registry)@,
            ),
    {
        match self.phase {
            Phase::AwaitHome => match event {
                Event::Output(home) => self.on_home(Some(home)),
                _ => self.on_home(None),
            },
            Phase::AwaitChildren => match event {
                Event::Children(children) => self.on_children(&children),
                _ => self.next_listing(),
            },
            Phase::AwaitDocuments => match event {
                Event::Documents(documents) => self.on_documents(&documents, registry),
                _ => {
                    let none: Vec<Option<String>> = Vec::new();
                    proof {
                        assert(optional_texts(none@) =~= Seq::<Option<Text>>::empty());
                    }
                    self.on_documents(&none, registry)
                },
            },
            Phase::AwaitLinuxApps => match event {
                Event::LinuxApps(apps) => self.on_linux_apps(&apps, registry),
                _ => self.abort(),
            },
            Phase::AwaitIconListing => match event {
                Event::Output(listing) => {
                    let mut s = self;
                    s.cached = lines(listing.as_str());
                    s.phase = Phase::AwaitAppData;
                    proof {
                        assert(s@ =~~= (DiscoveryView {
                            phase: Phase::AwaitAppData,
                            cached: trimmed_lines(listing@),
                            ..self@
                        }));
                    }
                    (s, Action::Run(appdata_request()))
                },
                _ => self.abort(),
            },
            Phase::AwaitAppData => match event {
                Event::Output(appdata) => {
                    let mut s = self;
                    let request = start_menu_request(s.config.data_dir.as_str(), appdata.as_str());
                    s.phase = Phase::AwaitStartMenuApps;
                    proof {
                        assert(s@ =~~= (DiscoveryView {
                            phase: Phase::AwaitStartMenuApps,
                            ..self@
                        }));
                    }
                    (s, Action::ListWindowsApps(request))
                },
                _ => self.abort(),
            },
            Phase::AwaitStartMenuApps => match event {
                Event::WindowsApps(apps) => {
                    match additional_request(
                        self.config.data_dir.as_str(),
                        self.config.additional_paths.as_str(),
                    ) {
                        Some(request) => {
                            let mut s = self;
                            s.apps = apps;
                            s.phase = Phase::AwaitAdditionalApps;
                            proof {
                                assert(s@ =~~= (DiscoveryView {
                                    phase: Phase::AwaitAdditionalApps,
                                    apps: windows_apps(apps@),
                                    ..self@
                                }));
                            }
                            (s, Action::ListWindowsApps(request))
                        },
                        None => self.on_windows_apps(&apps, registry),
                    }
                },
                _ => self.abort(),
            },
            Phase::AwaitAdditionalApps => match event {
                Event::WindowsApps(more) => {
                    let mut s = self;
                    let mut all: Vec<WindowsAppInfo> = Vec::new();
                    std::mem::swap(&mut s.apps, &mut all);
                    append_apps(&mut all, &more);
                    proof {
                        assert(windows_apps(s.apps@) =~= Seq::<WindowsAppView>::empty());
                        assert(after_windows_apps(s@, windows_apps(all@), registry@)
                            =~~= after_windows_apps(self@, windows_apps(all@), registry@));
                    }
                    s.on_windows_apps(&all, registry)
                },
                _ => self.abort(),
            },
            Phase::AwaitIcons => self.finish(),
            Phase::Finished => (self, Action::Abort),
            Phase::Aborted => (self, Action::Abort),
        }
    }
}

} // verus!
