//! `wfadm self-update`: which release asset fits this machine, what the
//! release listing holds, and whether an update is due.

use vstd::prelude::*;

use crate::json_text::{JsonLayout, JsonLayoutModel, json_get, json_get_of, json_layout, json_layout_of};
use crate::wfg_ast::views;

verus! {

broadcast use vstd::string::group_string_axioms;

/// The asset suffix for a machine (`std::env::consts::ARCH` and `OS`):
/// `aarch64-macos` on Apple silicon, `x86_64-linux` otherwise.
pub open spec fn target_for(arch: Seq<char>, os: Seq<char>) -> Seq<char> {
    if arch == "x86_64"@ && os == "linux"@ {
        "x86_64-linux"@
    } else if arch == "aarch64"@ && os == "macos"@ {
        "aarch64-macos"@
    } else {
        "x86_64-linux"@
    }
}

/// The asset suffix for a machine.
pub fn detect_target(arch: &str, os: &str) -> (r: &'static str)
    ensures
        r@ == target_for(arch@, os@),
{
    if crate::text::str_is(arch, "x86_64") && crate::text::str_is(os, "linux") {
        "x86_64-linux"
    } else if crate::text::str_is(arch, "aarch64") && crate::text::str_is(os, "macos") {
        "aarch64-macos"
    } else {
        "x86_64-linux"
    }
}

/// A downloadable file of a release.
#[derive(Debug, Clone, PartialEq)]
pub struct Asset {
    pub name: String,
    pub size: u64,
    pub browser_download_url: String,
}

pub struct AssetModel {
    pub name: Seq<char>,
    pub size: u64,
    pub url: Seq<char>,
}

impl View for Asset {
    type V = AssetModel;

    open spec fn view(&self) -> AssetModel {
        AssetModel { name: self.name@, size: self.size, url: self.browser_download_url@ }
    }
}

/// The latest release.
#[derive(Debug, Clone, PartialEq)]
pub struct Release {
    pub tag_name: String,
    pub assets: Vec<Asset>,
}

/// A string field of a JSON object text, `""` when absent or not a string.
pub open spec fn str_field(obj: Seq<char>, key: Seq<char>) -> Seq<char> {
    match json_get(obj, key) {
        Some(v) => match json_layout_of(v) {
            JsonLayoutModel::Str(s) => s,
            _ => Seq::empty(),
        },
        None => Seq::empty(),
    }
}

/// An unsigned field of a JSON object text, 0 when absent or not a `u64`.
pub open spec fn u64_field(obj: Seq<char>, key: Seq<char>) -> u64 {
    match json_get(obj, key) {
        Some(v) => match json_layout_of(v) {
            JsonLayoutModel::Number(Some(n)) => n,
            _ => 0,
        },
        None => 0,
    }
}

pub open spec fn asset_of(a: Seq<char>) -> AssetModel {
    AssetModel { name: str_field(a, "name"@), size: u64_field(a, "size"@), url: str_field(a, "browser_download_url"@) }
}

/// What a release listing (the API's JSON answer) gives: the tag and the assets.
pub open spec fn release_spec(body: Seq<char>) -> Result<(Seq<char>, Seq<AssetModel>), Seq<char>> {
    match json_layout_of(body) {
        JsonLayoutModel::Invalid(e) => Err("parse JSON: "@ + e),
        _ => match json_get(body, "tag_name"@) {
            Some(t) => match json_layout_of(t) {
                JsonLayoutModel::Str(tag) => match json_get(body, "assets"@) {
                    Some(a) => match json_layout_of(a) {
                        JsonLayoutModel::Array(items) => Ok((tag, items.map_values(|x: Seq<char>| asset_of(x)))),
                        _ => Err("missing assets array in release JSON"@),
                    },
                    None => Err("missing assets array in release JSON"@),
                },
                _ => Err("missing tag_name in release JSON"@),
            },
            None => Err("missing tag_name in release JSON"@),
        },
    }
}

fn str_field_of(obj: &str, key: &str) -> (r: String)
    ensures
        r@ == str_field(obj@, key@),
{
    match json_get_of(obj, key) {
        Some(v) => match json_layout(v.as_str()) {
            JsonLayout::Str(s) => s,
            _ => String::new(),
        },
        None => String::new(),
    }
}

fn u64_field_of(obj: &str, key: &str) -> (r: u64)
    ensures
        r == u64_field(obj@, key@),
{
    match json_get_of(obj, key) {
        Some(v) => match json_layout(v.as_str()) {
            JsonLayout::Number(Some(n)) => n,
            _ => 0,
        },
        None => 0,
    }
}

fn missing_field(t: &str) -> (r: Result<Release, String>)
    ensures
        r matches Err(e) && e@ == t@,
{
    Err(String::from_str(t))
}

/// Reads the release listing the GitHub API answered with.
pub fn release_from_json(body: &str) -> (r: Result<Release, String>)
    ensures
        match r {
            Ok(rel) => release_spec(body@) == Ok::<(Seq<char>, Seq<AssetModel>), Seq<char>>((rel.tag_name@, views(rel.assets@))),
            Err(e) => release_spec(body@) == Err::<(Seq<char>, Seq<AssetModel>), Seq<char>>(e@),
        },
{
    match json_layout(body) {
        JsonLayout::Invalid(e) => {
            let mut m = String::from_str("parse JSON: ");
            m.append(e.as_str());
            return Err(m);
        },
        _ => {},
    }
    let tag = match json_get_of(body, "tag_name") {
        Some(t) => match json_layout(t.as_str()) {
            JsonLayout::Str(s) => s,
            _ => return missing_field("missing tag_name in release JSON"),
        },
        None => return missing_field("missing tag_name in release JSON"),
    };
    let items = match json_get_of(body, "assets") {
        Some(a) => match json_layout(a.as_str()) {
            JsonLayout::Array(items) => items,
            _ => return missing_field("missing assets array in release JSON"),
        },
        None => return missing_field("missing assets array in release JSON"),
    };
    let mut assets: Vec<Asset> = Vec::new();
    let mut i: usize = 0;
    while i < items.len()
        invariant
            i <= items.len(),
            views(assets@) == views(items@).take(i as int).map_values(|x: Seq<char>| asset_of(x)),
        decreases items.len() - i,
    {
        let it = items[i].as_str();
        let a = Asset {
            name: str_field_of(it, "name"),
            size: u64_field_of(it, "size"),
            browser_download_url: str_field_of(it, "browser_download_url"),
        };
        proof {
            assert(views(items@)[i as int] == it@);
            assert(views(assets@.push(a)) =~= views(assets@).push(a@));
            assert(views(items@).take(i as int + 1).map_values(|x: Seq<char>| asset_of(x))
                =~= views(items@).take(i as int).map_values(|x: Seq<char>| asset_of(x)).push(asset_of(it@)));
        }
        assets.push(a);
        i = i + 1;
    }
    assert(views(items@).take(i as int) =~= views(items@));
    Ok(Release { tag_name: tag, assets })
}

/// `s` without leading `v`s (`trim_start_matches('v')`).
pub open spec fn without_leading_v(s: Seq<char>) -> Seq<char>
    decreases s.len(),
{
    if s.len() > 0 && s[0] == 'v' {
        without_leading_v(s.drop_first())
    } else {
        s
    }
}

/// What self-update does next.
#[derive(Debug, Clone, Copy, PartialEq, Eq, Structural)]
pub enum UpdateStep {
    /// The running version is the latest.
    UpToDate,
    /// Download the asset at this index.
    Download(usize),
}

/// The asset name for a target: `wfusion-<target>.tar.gz`.
pub open spec fn asset_name_for(target: Seq<char>) -> Seq<char> {
    "wfusion-"@ + target + ".tar.gz"@
}

/// Decides whether to update and which asset to fetch: nothing when the tag
/// (without leading `v`s) is the current version, else the first asset named
/// `wfusion-<target>.tar.gz`, or an error when there is none.
pub fn update_step(tag_name: &str, current_version: &str, target: &str, assets: &Vec<Asset>) -> (r: Result<UpdateStep, String>)
    ensures
        match r {
            Ok(UpdateStep::UpToDate) => without_leading_v(tag_name@) == current_version@,
            Ok(UpdateStep::Download(i)) => without_leading_v(tag_name@) != current_version@ && i < assets.len()
                && assets@[i as int].name@ == asset_name_for(target@) && forall|j: int|
                0 <= j < i ==> assets@[j].name@ != asset_name_for(target@),
            Err(e) => without_leading_v(tag_name@) != current_version@ && (forall|j: int|
                0 <= j < assets.len() ==> assets@[j].name@ != asset_name_for(target@)) && e@
                == "no asset found for target '"@ + target@ + "' (expected: "@ + asset_name_for(target@) + ")"@,
        },
{
    let n = tag_name.unicode_len();
    let mut a: usize = 0;
    assert(tag_name@.subrange(0, n as int) =~= tag_name@);
    while a < n && tag_name.get_char(a) == 'v'
        invariant
            n == tag_name@.len(),
            a <= n,
            without_leading_v(tag_name@) == without_leading_v(tag_name@.subrange(a as int, n as int)),
        decreases n - a,
    {
        assert(tag_name@.subrange(a as int, n as int).drop_first() =~= tag_name@.subrange(a as int + 1, n as int));
        a = a + 1;
    }
    assert(without_leading_v(tag_name@) == tag_name@.subrange(a as int, n as int)) by {
        if a < n {
            assert(tag_name@.subrange(a as int, n as int)[0] == tag_name@[a as int]);
        }
    }
    if crate::text::str_is(tag_name.substring_char(a, n), current_version) {
        return Ok(UpdateStep::UpToDate);
    }
    let mut name = String::from_str("wfusion-");
    name.append(target);
    name.append(".tar.gz");
    let mut i: usize = 0;
    while i < assets.len()
        invariant
            i <= assets.len(),
            name@ == asset_name_for(target@),
            without_leading_v(tag_name@) != current_version@,
            forall|j: int| 0 <= j < i ==> assets@[j].name@ != asset_name_for(target@),
        decreases assets.len() - i,
    {
        if crate::text::str_is(assets[i].name.as_str(), name.as_str()) {
            return Ok(UpdateStep::Download(i));
        }
        i = i + 1;
    }
    let mut m = String::from_str("no asset found for target '");
    m.append(target);
    m.append("' (expected: ");
    m.append(name.as_str());
    m.append(")");
    Err(m)
}

} // verus!
