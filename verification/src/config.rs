//! Configuration: the four options, their defaults, list-valued options and
//! the name filter.

use crate::text::{
    eq_ignore_case, same_ignoring_case, same_text, split, split_on, texts, trim, trimmed, Text,
};
use vstd::prelude::*;

verus! {

/// The operating systems that have a discovery adapter.
#[derive(Clone, Copy, Debug, PartialEq, Eq, Structural)]
pub enum Platform {
    MacOs,
    Linux,
    Windows,
    Unknown,
}

/// The resolved options of one call. List-valued options are kept as the
/// comma-separated text that was configured.
#[derive(Clone, Debug, PartialEq, Eq)]
pub struct Config {
    pub platform: String,
    pub additional_paths: String,
    pub application_filter: String,
    pub data_dir: String,
}

/// What a configuration holds.
pub struct ConfigView {
    pub platform: Text,
    pub additional_paths: Text,
    pub application_filter: Text,
    pub data_dir: Text,
}

impl View for Config {
    type V = ConfigView;

    open spec fn view(&self) -> ConfigView {
        ConfigView {
            platform: self.platform@,
            additional_paths: self.additional_paths@,
            application_filter: self.application_filter@,
            data_dir: self.data_dir@,
        }
    }
}

/// The value of an option: what the source gave, else the default.
pub open spec fn value_or(value: Option<Text>, default: Text) -> Text {
    match value {
        Some(v) => v,
        None => default,
    }
}

/// The view of an optional string.
pub open spec fn optional_text(value: Option<String>) -> Option<Text> {
    match value {
        Some(v) => Some(v@),
        None => None,
    }
}

/// The trimmed pieces that are not empty, in order.
pub open spec fn trimmed_nonempty(pieces: Seq<Text>) -> Seq<Text>
    decreases pieces.len(),
{
    if pieces.len() == 0 {
        Seq::<Text>::empty()
    } else {
        let before = trimmed_nonempty(pieces.drop_last());
        let item = trimmed(pieces.last());
        if item.len() == 0 {
            before
        } else {
            before.push(item)
        }
    }
}

/// The items of a comma-separated option: split at `,`, each piece trimmed,
/// empty pieces dropped.
pub open spec fn list_items(raw: Text) -> Seq<Text> {
    trimmed_nonempty(split_on(raw, ','))
}

/// Whether `name` passes the allow-list `filter`: an empty list lets every
/// name pass, another one only the names that equal one of its terms when
/// case is ignored.
pub open spec fn passes_filter(filter: Seq<Text>, name: Text) -> bool {
    filter.len() == 0 || exists|i: int|
        0 <= i < filter.len() && same_ignoring_case(#[trigger] filter[i], name)
}

/// The platform that a configured name stands for.
pub open spec fn platform_named(name: Text) -> Platform {
    if name == "macos"@ {
        Platform::MacOs
    } else if name == "linux"@ {
        Platform::Linux
    } else if name == "windows"@ {
        Platform::Windows
    } else {
        Platform::Unknown
    }
}

/// The key of the platform option.
pub fn platform_key() -> (r: &'static str)
    ensures
        r@ == "platform"@,
{
    "platform"
}

/// The key of the additional scan paths.
pub fn additional_paths_key() -> (r: &'static str)
    ensures
        r@ == "additional paths"@,
{
    "additional paths"
}

/// The key of the name filter.
pub fn application_filter_key() -> (r: &'static str)
    ensures
        r@ == "application filter"@,
{
    "application filter"
}

/// The key of the data directory.
pub fn data_dir_key() -> (r: &'static str)
    ensures
        r@ == "data_dir_path"@,
{
    "data_dir_path"
}

fn or_default(value: Option<String>, default: &str) -> (r: String)
    ensures
        r@ == value_or(optional_text(value), default@),
{
    match value {
        Some(v) => v,
        None => String::from_str(default),
    }
}

impl Config {
    /// Resolves the options from what the configuration source returned for
    /// each key; an absent value becomes the default, which is empty but for
    /// the data directory, where it is `data`.
    pub fn resolve(
        platform: Option<String>,
        additional_paths: Option<String>,
        application_filter: Option<String>,
        data_dir: Option<String>,
    ) -> (r: Config)
        ensures
            r.platform@ == value_or(optional_text(platform), Seq::<char>::empty()),
            r.additional_paths@ == value_or(optional_text(additional_paths), Seq::<char>::empty()),
            r.application_filter@ == value_or(
                optional_text(application_filter),
                Seq::<char>::empty(),
            ),
            r.data_dir@ == value_or(optional_text(data_dir), "data"@),
    {
        proof {
            reveal_strlit("");
            assert(""@ =~= Seq::<char>::empty());
        }
        Config {
            platform: or_default(platform, ""),
            additional_paths: or_default(additional_paths, ""),
            application_filter: or_default(application_filter, ""),
            data_dir: or_default(data_dir, "data"),
        }
    }

    /// The platform that the configuration names.
    pub fn platform(&self) -> (r: Platform)
        ensures
            r == platform_named(self.platform@),
    {
        platform_of(self.platform.as_str())
    }

    /// The additional scan paths, as a list.
    pub fn additional_path_list(&self) -> (r: Vec<String>)
        ensures
            texts(r@) == list_items(self.additional_paths@),
    {
        parse_list(self.additional_paths.as_str())
    }

    /// The terms of the name filter.
    pub fn filter_terms(&self) -> (r: Vec<String>)
        ensures
            texts(r@) == list_items(self.application_filter@),
    {
        parse_list(self.application_filter.as_str())
    }
}

/// The platform that `name` stands for; any name but `macos`, `linux` and
/// `windows` is unknown.
pub fn platform_of(name: &str) -> (r: Platform)
    ensures
        r == platform_named(name@),
{
    if same_text(name, "macos") {
        Platform::MacOs
    } else if same_text(name, "linux") {
        Platform::Linux
    } else if same_text(name, "windows") {
        Platform::Windows
    } else {
        Platform::Unknown
    }
}

/// The items of a comma-separated option.
pub fn parse_list(raw: &str) -> (items: Vec<String>)
    ensures
        texts(items@) == list_items(raw@),
{
    let pieces = split(raw, ',');
    let n: usize = pieces.len();
    let mut items: Vec<String> = Vec::new();
    let mut i: usize = 0;
    assert(texts(pieces@).take(0) =~= Seq::<Text>::empty());
    assert(texts(items@) =~= Seq::<Text>::empty());
    while i < n
        invariant
            n == pieces.len(),
            i <= n,
            texts(items@) == trimmed_nonempty(texts(pieces@).take(i as int)),
        decreases n - i,
    {
        let item = trim(pieces[i].as_str());
        proof {
            let upto = texts(pieces@).take(i + 1);
            assert(upto.drop_last() =~= texts(pieces@).take(i as int));
            assert(upto.last() == pieces@[i as int]@);
        }
        if item.as_str().unicode_len() > 0 {
            proof {
                assert(texts(items@.push(item)) =~= texts(items@).push(item@));
            }
            items.push(item);
        }
        i += 1;
    }
    proof {
        assert(texts(pieces@).take(n as int) =~= texts(pieces@));
    }
    items
}

/// Whether `name` passes the allow-list `filter`.
pub fn name_allowed(filter: &Vec<String>, name: &str) -> (r: bool)
    ensures
        r == passes_filter(texts(filter@), name@),
{
    let n: usize = filter.len();
    if n == 0 {
        return true;
    }
    let mut i: usize = 0;
    while i < n
        invariant
            n == filter.len(),
            i <= n,
            forall|j: int|
                0 <= j < i ==> !same_ignoring_case(#[trigger] texts(filter@)[j], name@),
        decreases n - i,
    {
        if eq_ignore_case(filter[i].as_str(), name) {
            assert(same_ignoring_case(texts(filter@)[i as int], name@));
            return true;
        }
        i += 1;
    }
    false
}

/// With an empty filter every name passes.
pub proof fn lemma_empty_filter_passes_all(name: Text)
    ensures
        passes_filter(Seq::<Text>::empty(), name),
{
}

} // verus!
