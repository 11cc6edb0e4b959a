//! The macOS adapter: application bundles found in the scan directories, with
//! their manifests, become catalog entries and launch specifications.

use crate::catalog::{
    catalog_after, catalog_view, lemma_outcomes_append, outcome_view, record, registry_after,
    Application, CatalogEntry, EntryView, Found, LaunchSpec, LaunchView,
};
use crate::config::{name_allowed, optional_text, passes_filter, value_or};
use crate::registry::LaunchRegistry;
use crate::text::{
    chars_of, concat2, ends_with, has_suffix, strip_suffixes, texts, trim, trimmed,
    without_suffixes, Text,
};
use vstd::prelude::*;
use vstd::string::*;

verus! {

/// An immediate child of a scan directory.
#[derive(Clone, Debug, PartialEq, Eq)]
pub struct DirChild {
    /// The child's full path.
    pub path: String,
    /// The child's own name, the last component of its path.
    pub name: String,
    /// Whether the child is a directory.
    pub is_dir: bool,
}

/// What a directory child holds.
pub struct ChildView {
    pub path: Text,
    pub name: Text,
    pub is_dir: bool,
}

impl View for DirChild {
    type V = ChildView;

    open spec fn view(&self) -> ChildView {
        ChildView { path: self.path@, name: self.name@, is_dir: self.is_dir }
    }
}

/// The views of a list of children, in order.
pub open spec fn children_view(children: Seq<DirChild>) -> Seq<ChildView> {
    Seq::new(children.len(), |i: int| children[i]@)
}

/// The fields of a bundle manifest that discovery reads; a field is absent
/// where the manifest has no string under its key.
#[derive(Clone, Debug, PartialEq, Eq)]
pub struct BundleManifest {
    /// `CFBundleName`
    pub name: Option<String>,
    /// `NSHumanReadableDescription`
    pub description: Option<String>,
    /// `CFBundleIconFile`
    pub icon_file: Option<String>,
}

/// What a manifest holds.
pub struct ManifestView {
    pub name: Option<Text>,
    pub description: Option<Text>,
    pub icon_file: Option<Text>,
}

impl View for BundleManifest {
    type V = ManifestView;

    open spec fn view(&self) -> ManifestView {
        ManifestView {
            name: optional_text(self.name),
            description: optional_text(self.description),
            icon_file: optional_text(self.icon_file),
        }
    }
}

/// The view of an optional manifest.
pub open spec fn optional_manifest(manifest: Option<BundleManifest>) -> Option<ManifestView> {
    match manifest {
        Some(m) => Some(m@),
        None => None,
    }
}

/// The views of a list of optional strings, one for one.
pub open spec fn optional_texts(items: Seq<Option<String>>) -> Seq<Option<Text>> {
    Seq::new(items.len(), |i: int| optional_text(items[i]))
}

/// Declares `plist::Dictionary`, the map from keys to values that a property
/// list holds at its root. Nothing inside it is visible here; it is read
/// through `string_entry` alone.
#[verifier::external_type_specification]
#[verifier::external_body]
pub struct ExDictionary(plist::Dictionary);

/// The string entries of a property-list dictionary: each key under which the
/// dictionary holds a string, with that string.
pub uninterp spec fn dictionary_strings(dictionary: plist::Dictionary) -> Map<Seq<char>, Seq<char>>;

/// The string entries of the dictionary that `plist::from_bytes` reads from
/// the bytes of a document, or `None` where the document cannot be parsed as
/// a property list or its root is no dictionary.
pub uninterp spec fn manifest_strings(document: Seq<char>) -> Option<Map<Seq<char>, Seq<char>>>;

/// The string entries of an optional dictionary.
pub open spec fn optional_strings(dictionary: Option<plist::Dictionary>) -> Option<
    Map<Text, Text>,
> {
    match dictionary {
        Some(d) => Some(dictionary_strings(d)),
        None => None,
    }
}

/// What a map holds under a key, if anything.
pub open spec fn entry_of(entries: Map<Text, Text>, key: Text) -> Option<Text> {
    if entries.contains_key(key) {
        Some(entries[key])
    } else {
        None
    }
}

/// Whether `c` is one of the digits `0` to `9`.
pub open spec fn is_digit(c: char) -> bool {
    0x30 <= c as u32 <= 0x39
}

/// The number that the four digits from `at` on write.
pub open spec fn year_at(document: Text, at: int) -> int {
    (document[at] as u32 - 0x30) * 1000 + (document[at + 1] as u32 - 0x30) * 100 + (document[at
        + 2] as u32 - 0x30) * 10 + (document[at + 3] as u32 - 0x30)
}

/// Whether a date element may start at `at`: the characters `date` stand
/// there, right behind `<` or `:`. Every start tag of a date element, with or
/// without a prefix before its name, has this shape; so may other text.
pub open spec fn names_date_at(document: Text, at: int) -> bool {
    &&& 1 <= at
    &&& at + 4 <= document.len()
    &&& document[at - 1] == '<' || document[at - 1] == ':'
    &&& document[at] == 'd'
    &&& document[at + 1] == 'a'
    &&& document[at + 2] == 't'
    &&& document[at + 3] == 'e'
}

/// Whether the date that may start at `at` is in range: its tag closes right
/// behind the name, and four digits follow that write a year from 1971 to
/// 9998.
pub open spec fn date_in_range_at(document: Text, at: int) -> bool {
    &&& at + 9 <= document.len()
    &&& document[at + 4] == '>'
    &&& is_digit(document[at + 5])
    &&& is_digit(document[at + 6])
    &&& is_digit(document[at + 7])
    &&& is_digit(document[at + 8])
    &&& 1971 <= year_at(document, at + 5) <= 9998
}

/// Whether every date that the document may hold is in range. Only such a
/// document is handed to the parser: the date of another one may lie, once
/// its offset is applied, outside the years that the parser's date type and
/// the platform's clock can hold.
pub open spec fn dates_in_range(document: Text) -> bool {
    forall|at: int| #[trigger] names_date_at(document, at) ==> date_in_range_at(document, at)
}

/// Calls `plist::from_bytes` for a `plist::Value` on the bytes of `document`
/// and takes the root with `Value::into_dictionary`. The contract only names
/// the result: whether a dictionary comes back, and its string entries, are a
/// function of the document alone.
///
/// The parser converts the text of each date element to a point in time and
/// unwinds where that point, moved to UTC, is outside the years 0 to 9999 or
/// before what the platform's clock can hold. The text's first four
/// characters are its year and its offset is less than a day, so `requires`
/// leaves out every document with a date that does not start with a year from
/// 1971 to 9998. A binary document holds a date as a number of seconds since
/// 2001; in a document that is valid UTF-8 that number is not negative, or so
/// large in size that the parser refuses it.
#[verifier::external_body]
fn parse_dictionary(document: &str) -> (r: Option<plist::Dictionary>)
    requires
        dates_in_range(document@),
    ensures
        optional_strings(r) == manifest_strings(document@),
{
    match plist::from_bytes::<plist::Value>(document.as_bytes()) {
        Ok(value) => value.into_dictionary(),
        Err(_) => None,
    }
}

/// Calls `Dictionary::get` and reads the value found with `Value::as_string`:
/// the string under `key`, or `None` where the key is absent or its value is
/// no string.
#[verifier::external_body]
fn string_entry(dictionary: &plist::Dictionary, key: &str) -> (r: Option<String>)
    ensures
        optional_text(r) == entry_of(dictionary_strings(*dictionary), key@),
{
    match dictionary.get(key) {
        Some(value) => value.as_string().map(str::to_owned),
        None => None,
    }
}

/// The manifest fields among the string entries of a dictionary.
pub open spec fn manifest_fields(entries: Map<Text, Text>) -> ManifestView {
    ManifestView {
        name: entry_of(entries, "CFBundleName"@),
        description: entry_of(entries, "NSHumanReadableDescription"@),
        icon_file: entry_of(entries, "CFBundleIconFile"@),
    }
}

/// The manifest that a document holds, or `None` where a date of the
/// document is not in range, or the document cannot be parsed or is no
/// dictionary.
pub open spec fn manifest_of(document: Text) -> Option<ManifestView> {
    if dates_in_range(document) {
        match manifest_strings(document) {
            Some(entries) => Some(manifest_fields(entries)),
            None => None,
        }
    } else {
        None
    }
}

/// The directories to scan, in order: the three system-wide locations, the
/// user's own applications where the home directory is known, then the
/// additional paths as they are.
pub open spec fn scan_dirs(home: Option<Text>, additional: Seq<Text>) -> Seq<Text> {
    let fixed = seq![
        "/Applications"@,
        "/System/Applications"@,
        "/System/Applications/Utilities"@,
    ];
    match home {
        Some(h) => fixed.push(trimmed(h) + "/Applications"@) + additional,
        None => fixed + additional,
    }
}

/// Whether a child is an application bundle: a directory whose name ends in
/// `.app`.
pub open spec fn is_bundle_child(child: ChildView) -> bool {
    child.is_dir && has_suffix(child.name, ".app"@)
}

/// The children that are application bundles, in order.
pub open spec fn bundles_among(children: Seq<ChildView>) -> Seq<ChildView>
    decreases children.len(),
{
    if children.len() == 0 {
        Seq::<ChildView>::empty()
    } else {
        let before = bundles_among(children.drop_last());
        if is_bundle_child(children.last()) {
            before.push(children.last())
        } else {
            before
        }
    }
}

/// Where a bundle keeps its manifest.
pub open spec fn manifest_path_of(bundle: Text) -> Text {
    bundle + "/Contents/Info.plist"@
}

/// The manifest paths of a list of bundles, one for one.
pub open spec fn manifest_paths_of(bundles: Seq<ChildView>) -> Seq<Text> {
    Seq::new(bundles.len(), |i: int| manifest_path_of(bundles[i].path))
}

/// The display name of a bundle: the manifest's name where it has one that is
/// not empty, else the folder's name without its `.app` suffixes.
pub open spec fn bundle_name_of(manifest_name: Option<Text>, folder: Text) -> Text {
    match manifest_name {
        Some(name) => if name.len() > 0 {
            name
        } else {
            without_suffixes(folder, ".app"@)
        },
        None => without_suffixes(folder, ".app"@),
    }
}

/// The icon's file name: the manifest's, `AppIcon` where it gives none, with
/// `.icns` appended unless it ends so already.
pub open spec fn icon_file_of(icon_file: Option<Text>) -> Text {
    let base = value_or(icon_file, "AppIcon"@);
    if has_suffix(base, ".icns"@) {
        base
    } else {
        base + ".icns"@
    }
}

/// The icon's path inside the bundle. Whether a file is there is not looked
/// at.
pub open spec fn icon_path_of(bundle: Text, icon_file: Option<Text>) -> Text {
    bundle + "/Contents/Resources/"@ + icon_file_of(icon_file)
}

/// What becomes of one bundle: skipped where its manifest could not be read
/// or parsed or its name does not pass the filter, else kept, to be opened by
/// its path.
pub open spec fn macos_outcome(
    bundle: ChildView,
    manifest: Option<ManifestView>,
    filter: Seq<Text>,
) -> Option<Found> {
    match manifest {
        Some(m) => {
            let name = bundle_name_of(m.name, bundle.name);
            if passes_filter(filter, name) {
                Some(
                    Found {
                        entry: EntryView {
                            name,
                            description: value_or(m.description, Seq::<char>::empty()),
                            icon: icon_path_of(bundle.path, m.icon_file),
                        },
                        launch: LaunchView { command: "open"@, args: seq![bundle.path] },
                    },
                )
            } else {
                None
            }
        },
        None => None,
    }
}

/// The manifest of an optional document.
pub open spec fn manifest_of_optional(document: Option<Text>) -> Option<ManifestView> {
    match document {
        Some(d) => manifest_of(d),
        None => None,
    }
}

/// A bundle whose manifest could not be read, or is no manifest, is skipped,
/// whatever becomes of the other bundles of the directory.
pub proof fn lemma_unreadable_manifest_skips_bundle(
    bundles: Seq<ChildView>,
    documents: Seq<Option<Text>>,
    filter: Seq<Text>,
    at: int,
)
    requires
        0 <= at < bundles.len(),
        at >= documents.len() || manifest_of_optional(documents[at]) is None,
    ensures
        macos_outcomes(bundles, documents, filter).len() == bundles.len(),
        macos_outcomes(bundles, documents, filter)[at] is None,
{
}

/// The outcomes of the bundles of one directory, one for one; `documents`
/// holds the text of each bundle's manifest, `None` where it could not be
/// read. A bundle without a document counts as unreadable.
pub open spec fn macos_outcomes(
    bundles: Seq<ChildView>,
    documents: Seq<Option<Text>>,
    filter: Seq<Text>,
) -> Seq<Option<Found>> {
    Seq::new(
        bundles.len(),
        |i: int|
            if i < documents.len() {
                macos_outcome(bundles[i], manifest_of_optional(documents[i]), filter)
            } else {
                None
            },
    )
}

/// The directories to scan; `home` is the output of the home-directory
/// lookup, `None` where the lookup failed.
pub fn macos_scan_dirs(home: &Option<String>, additional: &Vec<String>) -> (dirs: Vec<String>)
    ensures
        texts(dirs@) == scan_dirs(optional_text(*home), texts(additional@)),
{
    let mut dirs: Vec<String> = Vec::new();
    dirs.push(String::from_str("/Applications"));
    dirs.push(String::from_str("/System/Applications"));
    dirs.push(String::from_str("/System/Applications/Utilities"));
    match home {
        Some(h) => {
            let root = trim(h.as_str());
            dirs.push(concat2(root.as_str(), "/Applications"));
        },
        None => {},
    }
    let ghost head = texts(dirs@);
    let n: usize = additional.len();
    let mut i: usize = 0;
    proof {
        assert(texts(additional@).take(0) =~= Seq::<Text>::empty());
        assert(head + Seq::<Text>::empty() =~= head);
    }
    while i < n
        invariant
            n == additional.len(),
            i <= n,
            texts(dirs@) == head + texts(additional@).take(i as int),
        decreases n - i,
    {
        let dir = additional[i].clone();
        proof {
            assert(texts(dirs@.push(dir)) =~= texts(dirs@).push(dir@));
            assert(texts(additional@).take(i + 1) =~= texts(additional@).take(i as int).push(
                dir@,
            ));
            assert((head + texts(additional@).take(i as int)).push(dir@) =~= head + texts(
                additional@,
            ).take(i + 1));
        }
        dirs.push(dir);
        i += 1;
    }
    proof {
        assert(texts(additional@).take(n as int) =~= texts(additional@));
        match home {
            Some(h) => {
                assert(head =~= seq![
                    "/Applications"@,
                    "/System/Applications"@,
                    "/System/Applications/Utilities"@,
                ].push(trimmed(h@) + "/Applications"@));
            },
            None => {
                assert(head =~= seq![
                    "/Applications"@,
                    "/System/Applications"@,
                    "/System/Applications/Utilities"@,
                ]);
            },
        }
    }
    dirs
}

/// The lookup of the user's home directory.
pub fn home_request() -> (r: LaunchSpec)
    ensures
        r.command@ == "printenv"@,
        texts(r.args@) == seq!["HOME"@],
{
    let mut args: Vec<String> = Vec::new();
    args.push(String::from_str("HOME"));
    assert(texts(args@) =~= seq!["HOME"@]);
    LaunchSpec { command: String::from_str("printenv"), args }
}

/// Whether a child is an application bundle.
pub fn is_bundle(child: &DirChild) -> (r: bool)
    ensures
        r == is_bundle_child(child@),
{
    child.is_dir && ends_with(child.name.as_str(), ".app")
}

fn clone_child(child: &DirChild) -> (r: DirChild)
    ensures
        r@ == child@,
{
    DirChild { path: child.path.clone(), name: child.name.clone(), is_dir: child.is_dir }
}

/// The children that are application bundles, in order.
pub fn select_bundles(children: &Vec<DirChild>) -> (bundles: Vec<DirChild>)
    ensures
        children_view(bundles@) == bundles_among(children_view(children@)),
{
    let mut bundles: Vec<DirChild> = Vec::new();
    let n: usize = children.len();
    let mut i: usize = 0;
    proof {
        assert(children_view(children@).take(0) =~= Seq::<ChildView>::empty());
        assert(children_view(bundles@) =~= Seq::<ChildView>::empty());
    }
    while i < n
        invariant
            n == children.len(),
            i <= n,
            children_view(bundles@) == bundles_among(children_view(children@).take(i as int)),
        decreases n - i,
    {
        proof {
            let upto = children_view(children@).take(i + 1);
            assert(upto.drop_last() =~= children_view(children@).take(i as int));
            assert(upto.last() == children@[i as int]@);
        }
        if is_bundle(&children[i]) {
            let bundle = clone_child(&children[i]);
            proof {
                assert(children_view(bundles@.push(bundle)) =~= children_view(bundles@).push(
                    bundle@,
                ));
            }
            bundles.push(bundle);
        }
        i += 1;
    }
    proof {
        assert(children_view(children@).take(n as int) =~= children_view(children@));
    }
    bundles
}

/// Where a bundle keeps its manifest.
pub fn manifest_path(bundle: &str) -> (r: String)
    ensures
        r@ == manifest_path_of(bundle@),
{
    concat2(bundle, "/Contents/Info.plist")
}

/// The manifest paths of a list of bundles, one for one.
pub fn manifest_paths(bundles: &Vec<DirChild>) -> (paths: Vec<String>)
    ensures
        texts(paths@) == manifest_paths_of(children_view(bundles@)),
{
    let mut paths: Vec<String> = Vec::new();
    let n: usize = bundles.len();
    let mut i: usize = 0;
    while i < n
        invariant
            n == bundles.len(),
            i <= n,
            paths@.len() == i,
            forall|j: int| 0 <= j < i ==> (#[trigger] paths@[j])@ == manifest_path_of(bundles@[j].path@),
        decreases n - i,
    {
        paths.push(manifest_path(bundles[i].path.as_str()));
        i += 1;
    }
    proof {
        assert(texts(paths@) =~= manifest_paths_of(children_view(bundles@)));
    }
    paths
}

fn manifest_from(dictionary: &plist::Dictionary) -> (r: BundleManifest)
    ensures
        r@ == manifest_fields(dictionary_strings(*dictionary)),
{
    BundleManifest {
        name: string_entry(dictionary, "CFBundleName"),
        description: string_entry(dictionary, "NSHumanReadableDescription"),
        icon_file: string_entry(dictionary, "CFBundleIconFile"),
    }
}

/// The value of `c` where it is a digit.
fn digit(c: char) -> (r: Option<u32>)
    ensures
        r is Some == is_digit(c),
        r matches Some(value) ==> value == c as u32 - 0x30,
{
    let n: u32 = c as u32;
    if 0x30 <= n && n <= 0x39 {
        Some(n - 0x30)
    } else {
        None
    }
}

/// Whether the date that may start at `at` is in range.
fn date_in_range(document: &Vec<char>, at: usize) -> (r: bool)
    requires
        names_date_at(document@, at as int),
    ensures
        r == date_in_range_at(document@, at as int),
{
    let n: usize = document.len();
    if n - at < 9 || document[at + 4] != '>' {
        return false;
    }
    match (
        digit(document[at + 5]),
        digit(document[at + 6]),
        digit(document[at + 7]),
        digit(document[at + 8]),
    ) {
        (Some(thousands), Some(hundreds), Some(tens), Some(ones)) => {
            let year: u32 = thousands * 1000 + hundreds * 100 + tens * 10 + ones;
            1971 <= year && year <= 9998
        },
        _ => false,
    }
}

/// Whether every date that the document may hold is in range.
pub fn dates_are_in_range(document: &str) -> (r: bool)
    ensures
        r == dates_in_range(document@),
{
    let chars = chars_of(document);
    let n: usize = chars.len();
    let mut at: usize = 1;
    while at < n && n - at >= 4
        invariant
            n == chars.len(),
            chars@ == document@,
            1 <= at,
            forall|k: int|
                k < at && #[trigger] names_date_at(chars@, k) ==> date_in_range_at(chars@, k),
        decreases n - at,
    {
        let before = chars[at - 1];
        if (before == '<' || before == ':') && chars[at] == 'd' && chars[at + 1] == 'a' && chars[at
            + 2] == 't' && chars[at + 3] == 'e' {
            if !date_in_range(&chars, at) {
                assert(names_date_at(chars@, at as int));
                return false;
            }
        }
        at += 1;
    }
    true
}

/// Parses the text of a manifest; `None` where a date of the document is not
/// in range, or the document is no property list or its root is no
/// dictionary.
pub fn read_manifest(document: &str) -> (r: Option<BundleManifest>)
    ensures
        optional_manifest(r) == manifest_of(document@),
{
    if !dates_are_in_range(document) {
        return None;
    }
    match parse_dictionary(document) {
        Some(dictionary) => Some(manifest_from(&dictionary)),
        None => None,
    }
}

/// The display name of a bundle.
pub fn bundle_name(manifest: &BundleManifest, folder: &str) -> (r: String)
    ensures
        r@ == bundle_name_of(manifest@.name, folder@),
{
    match &manifest.name {
        Some(name) => {
            if name.as_str().unicode_len() > 0 {
                name.clone()
            } else {
                strip_suffixes(folder, ".app")
            }
        },
        None => strip_suffixes(folder, ".app"),
    }
}

/// The icon's path inside the bundle.
pub fn icon_path(bundle: &str, manifest: &BundleManifest) -> (r: String)
    ensures
        r@ == icon_path_of(bundle@, manifest@.icon_file),
{
    let mut path = concat2(bundle, "/Contents/Resources/");
    let base: &str = match &manifest.icon_file {
        Some(file) => file.as_str(),
        None => "AppIcon",
    };
    path.append(base);
    if !ends_with(base, ".icns") {
        path.append(".icns");
    }
    proof {
        let f = icon_file_of(manifest@.icon_file);
        assert(path@ =~= bundle@ + "/Contents/Resources/"@ + f);
    }
    path
}

/// What becomes of one bundle with its manifest under a name filter.
pub fn macos_application(
    bundle: &DirChild,
    manifest: &BundleManifest,
    filter: &Vec<String>,
) -> (r: Option<Application>)
    ensures
        outcome_view(r) == macos_outcome(bundle@, Some(manifest@), texts(filter@)),
{
    let name = bundle_name(manifest, bundle.name.as_str());
    if !name_allowed(filter, name.as_str()) {
        return None;
    }
    let description = match &manifest.description {
        Some(text) => text.clone(),
        None => String::new(),
    };
    let icon = icon_path(bundle.path.as_str(), manifest);
    let mut args: Vec<String> = Vec::new();
    args.push(bundle.path.clone());
    proof {
        assert(texts(args@) =~= seq![bundle.path@]);
    }
    Some(
        Application {
            entry: CatalogEntry { name, description, icon },
            launch: LaunchSpec { command: String::from_str("open"), args },
        },
    )
}

/// Processes the bundles of one directory in order, each with the text of
/// its manifest: every kept application is registered and appended to the
/// catalog.
pub fn macos_pass(
    bundles: &Vec<DirChild>,
    documents: &Vec<Option<String>>,
    filter: &Vec<String>,
    catalog: &mut Vec<CatalogEntry>,
    registry: &mut LaunchRegistry,
)
    ensures
        catalog_view(final(catalog)@) == catalog_after(
            catalog_view(old(catalog)@),
            macos_outcomes(children_view(bundles@), optional_texts(documents@), texts(filter@)),
        ),
        final(registry)@ == registry_after(
            old(registry)@,
            macos_outcomes(children_view(bundles@), optional_texts(documents@), texts(filter@)),
        ),
{
    let ghost outcomes = macos_outcomes(
        children_view(bundles@),
        optional_texts(documents@),
        texts(filter@),
    );
    let ghost catalog0 = catalog_view(catalog@);
    let ghost registry0 = registry@;
    let n: usize = bundles.len();
    let m: usize = documents.len();
    let mut i: usize = 0;
    proof {
        assert(outcomes.take(0) =~= Seq::<Option<Found>>::empty());
    }
    while i < n
        invariant
            n == bundles.len(),
            m == documents.len(),
            i <= n,
            outcomes == macos_outcomes(
                children_view(bundles@),
                optional_texts(documents@),
                texts(filter@),
            ),
            catalog_view(catalog@) == catalog_after(catalog0, outcomes.take(i as int)),
            registry@ == registry_after(registry0, outcomes.take(i as int)),
        decreases n - i,
    {
        let mut outcome: Option<Application> = None;
        if i < m {
            match &documents[i] {
                Some(document) => {
                    match read_manifest(document.as_str()) {
                        Some(manifest) => {
                            outcome = macos_application(&bundles[i], &manifest, filter);
                        },
                        None => {},
                    }
                },
                None => {},
            }
        }
        proof {
            assert(outcome_view(outcome) == outcomes[i as int]);
            lemma_outcomes_append(
                catalog0,
                registry0,
                outcomes.take(i as int),
                seq![outcome_view(outcome)],
            );
            assert(outcomes.take(i as int) + seq![outcome_view(outcome)] =~= outcomes.take(i + 1));
        }
        record(outcome, catalog, registry);
        i += 1;
    }
    proof {
        assert(outcomes.take(n as int) =~= outcomes);
    }
}

} // verus!
