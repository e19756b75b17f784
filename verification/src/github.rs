//! Releases of the program, and which of them is newer than the one that runs.
use vstd::prelude::*;
use vstd::string::*;

use crate::json::{elements, field, text_of, Json};
use crate::text::{decimal, group_views, ov, same, trim_start_char, trim_start_of, views};

verus! {

broadcast use group_views;

/// A file of a release.
#[derive(Debug, PartialEq)]
pub struct Asset {
    pub name: String,
    pub download_url: String,
}

pub struct AssetView {
    pub name: Seq<char>,
    pub download_url: Seq<char>,
}

impl View for Asset {
    type V = AssetView;

    open spec fn view(&self) -> AssetView {
        AssetView { name: self.name@, download_url: self.download_url@ }
    }
}

/// A release, by its tag.
#[derive(Debug, PartialEq)]
pub struct Release {
    pub tag: String,
    pub assets: Vec<Asset>,
}

pub struct ReleaseView {
    pub tag: Seq<char>,
    pub assets: Seq<AssetView>,
}

impl View for Release {
    type V = ReleaseView;

    open spec fn view(&self) -> ReleaseView {
        ReleaseView { tag: self.tag@, assets: views(self.assets@) }
    }
}

/// Where releases are looked up and fetched from.
pub trait GithubReleases {
    /// Whether looking a repository up may come to a result.
    open spec fn may_find(&self, repo: Seq<char>, result: Result<Release, String>) -> bool {
        arbitrary()
    }

    /// Whether fetching a file to a path may come to a result.
    open spec fn may_fetch(
        &self,
        url: Seq<char>,
        dest: Seq<char>,
        result: Result<(), String>,
    ) -> bool {
        arbitrary()
    }

    /// The latest release of a repository.
    fn latest_release(&self, repo: &str) -> (r: Result<Release, String>)
        ensures
            self.may_find(repo@, r),
    ;

    /// Fetches a file to a path.
    fn download(&self, url: &str, dest: &str) -> (r: Result<(), String>)
        ensures
            self.may_fetch(url@, dest@, r),
    ;
}

/// The name of the asset for a platform.
pub open spec fn asset_name(arch: Seq<char>, os: Seq<char>) -> Seq<char> {
    "soulrust-"@ + arch + "-"@ + os
}

/// The release asset expected for a platform, such as `soulrust-x86_64-linux`.
pub fn expected_asset_name(arch: &str, os: &str) -> (r: String)
    ensures
        r@ == asset_name(arch@, os@),
{
    let mut out = "soulrust-".to_owned();
    out.append(arch);
    out.append("-");
    out.append(os);
    out
}

/// The first asset of a name.
pub open spec fn asset_named(assets: Seq<AssetView>, name: Seq<char>) -> Option<AssetView>
    decreases assets.len(),
{
    if assets.len() == 0 {
        None
    } else if assets[0].name == name {
        Some(assets[0])
    } else {
        asset_named(assets.skip(1), name)
    }
}

/// The asset of exactly the expected name.
pub fn pick_asset<'a>(release: &'a Release, expected: &str) -> (r: Option<&'a Asset>)
    ensures
        match r {
            Some(asset) => asset_named(release@.assets, expected@) == Some(asset@),
            None => asset_named(release@.assets, expected@) is None,
        },
{
    let ghost all = release@.assets;
    let mut i: usize = 0;
    assert(all.skip(0) =~= all);
    while i < release.assets.len()
        invariant
            i <= release.assets@.len(),
            all == views(release.assets@),
            asset_named(all, expected@) == asset_named(all.skip(i as int), expected@),
        decreases release.assets@.len() - i,
    {
        assert(all.skip(i as int).skip(1) =~= all.skip(i as int + 1));
        assert(all.skip(i as int)[0] == all[i as int]);
        if same(release.assets[i].name.as_str(), expected) {
            return Some(&release.assets[i]);
        }
        i += 1;
    }
    None
}

/// A version of three numbers and nothing more.
pub open spec fn plain_version(v: (u64, u64, u64)) -> Seq<char> {
    decimal(v.0 as nat) + "."@ + decimal(v.1 as nat) + "."@ + decimal(v.2 as nat)
}

/// Whether the numbers of one version stand behind those of another.
pub open spec fn numbers_greater(a: (u64, u64, u64), b: (u64, u64, u64)) -> bool {
    a.0 > b.0 || (a.0 == b.0 && (a.1 > b.1 || (a.1 == b.1 && a.2 > b.2)))
}

/// Whether a version is a pre-release of a version of three numbers.
pub open spec fn prerelease_of(text: Seq<char>, v: (u64, u64, u64)) -> bool {
    (plain_version(v) + "-"@).is_prefix_of(text)
}

/// Why a text is no semantic version; nothing where it is one.
pub uninterp spec fn semver_error(text: Seq<char>) -> Option<Seq<char>>;

/// Why `text` cannot be read by `semver::Version::parse`, in the words of its error, and nothing
/// where it can be. Both are functions of the text. Three numbers with dots between them can be
/// read.
#[verifier::external_body]
fn parse_error(text: &str) -> (r: Option<String>)
    ensures
        ov(r) == semver_error(text@),
        (exists|v: (u64, u64, u64)| text@ == #[trigger] plain_version(v)) ==> r is None,
{
    match semver::Version::parse(text) {
        Ok(_) => None,
        Err(err) => Some(err.to_string()),
    }
}

/// Whether one semantic version is greater than another.
pub uninterp spec fn semver_greater(a: Seq<char>, b: Seq<char>) -> bool;

/// Whether the version that `a` writes is greater (`>` on `semver::Version`) than the one that `b`
/// writes. The order is strict: no version is greater than itself, and of two versions one at most
/// is greater than the other. Versions of three numbers are ordered by these, the first before the
/// second and the third, and a pre-release stands below the version that it precedes.
#[verifier::external_body]
fn version_greater(a: &str, b: &str) -> (r: bool)
    requires
        semver_error(a@) is None,
        semver_error(b@) is None,
    ensures
        r == semver_greater(a@, b@),
        r ==> a@ != b@,
        r ==> !semver_greater(b@, a@),
        forall|v: (u64, u64, u64), w: (u64, u64, u64)|
            a@ == #[trigger] plain_version(v) && b@ == #[trigger] plain_version(w) ==> r
                == numbers_greater(v, w),
        forall|v: (u64, u64, u64)|
            a@ == #[trigger] plain_version(v) && prerelease_of(b@, v) ==> r,
        forall|v: (u64, u64, u64)|
            b@ == #[trigger] plain_version(v) && prerelease_of(a@, v) ==> !r,
{
    match (semver::Version::parse(a), semver::Version::parse(b)) {
        (Ok(a), Ok(b)) => a > b,
        _ => false,
    }
}

/// A text in quotes, with what does not print written as escapes.
pub uninterp spec fn quoted(s: Seq<char>) -> Seq<char>;

/// Whether a character prints as it is between quotes: ASCII letters, digits, and the dot, hyphen
/// and plus sign of versions.
pub open spec fn prints_plainly(c: char) -> bool {
    ||| 'a' <= c <= 'z'
    ||| 'A' <= c <= 'Z'
    ||| '0' <= c <= '9'
    ||| c == '.'
    ||| c == '-'
    ||| c == '+'
}

/// `s` as `{:?}` formats a `str`: in double quotes, with escapes for what does not print. Letters,
/// digits, dots, hyphens and plus signs of ASCII stand as they are.
#[verifier::external_body]
fn debug_text(s: &str) -> (r: String)
    ensures
        r@ == quoted(s@),
        (forall|i: int| 0 <= i < s@.len() ==> prints_plainly(#[trigger] s@[i])) ==> r@ == seq!['"']
            + s@ + seq!['"'],
{
    format!("{:?}", s)
}

/// A version that a release tag names: the tag without the `v`s before it.
pub open spec fn tag_version(tag: Seq<char>) -> Seq<char> {
    trim_start_of(tag, 'v')
}

/// Whether a release is newer than the running version, or why that cannot be said.
pub open spec fn newer(tag: Seq<char>, current: Seq<char>) -> Result<bool, Seq<char>> {
    match semver_error(tag_version(tag)) {
        Some(err) => Err("release tag "@ + quoted(tag) + " is not semver: "@ + err),
        None => match semver_error(current) {
            Some(err) => Err("current version "@ + quoted(current) + " is not semver: "@ + err),
            None => Ok(semver_greater(tag_version(tag), current)),
        },
    }
}

/// A result by what its error says.
pub open spec fn result_view<T>(r: Result<T, String>) -> Result<T, Seq<char>> {
    match r {
        Ok(v) => Ok(v),
        Err(e) => Err(e@),
    }
}

/// Compares a release tag (with or without a leading `v`) to the running version, both as
/// semantic versions.
pub fn is_newer(tag: &str, current: &str) -> (r: Result<bool, String>)
    ensures
        result_view(r) == newer(tag@, current@),
        tag_version(tag@) == current@ ==> r != Ok::<bool, String>(true),
        forall|v: (u64, u64, u64), w: (u64, u64, u64)|
            tag_version(tag@) == #[trigger] plain_version(v) && current@
                == #[trigger] plain_version(w) ==> r == Ok::<bool, String>(numbers_greater(v, w)),
        forall|v: (u64, u64, u64)|
            current@ == #[trigger] plain_version(v) && prerelease_of(tag_version(tag@), v) ==> r
                != Ok::<bool, String>(true),
        forall|v: (u64, u64, u64)|
            tag_version(tag@) == #[trigger] plain_version(v) && prerelease_of(current@, v) ==> r
                != Ok::<bool, String>(false),
{
    let version = trim_start_char(tag, 'v');
    match parse_error(version) {
        Some(err) => {
            let mut out = "release tag ".to_owned();
            out.append(debug_text(tag).as_str());
            out.append(" is not semver: ");
            out.append(err.as_str());
            Err(out)
        },
        None => match parse_error(current) {
            Some(err) => {
                let mut out = "current version ".to_owned();
                out.append(debug_text(current).as_str());
                out.append(" is not semver: ");
                out.append(err.as_str());
                Err(out)
            },
            None => Ok(version_greater(version, current)),
        },
    }
}

/// The assets in a response: those with a name and an address.
pub open spec fn assets_in(items: Seq<Json>) -> Seq<AssetView>
    decreases items.len(),
{
    if items.len() == 0 {
        Seq::empty()
    } else {
        let before = assets_in(items.drop_last());
        match (
            text_of(field(items.last(), "name"@)),
            text_of(field(items.last(), "browser_download_url"@)),
        ) {
            (Some(name), Some(download_url)) => before.push(AssetView { name, download_url }),
            _ => before,
        }
    }
}

/// Reads the response to a question for the latest release.
pub fn release_from_json(response: &Json) -> (r: Result<Release, String>)
    ensures
        match text_of(field(*response, "tag_name"@)) {
            Some(tag) => r matches Ok(release) && release@ == (ReleaseView {
                tag,
                assets: assets_in(elements(field(*response, "assets"@))),
            }),
            None => r matches Err(e) && e@ == "release response missing tag_name"@,
        },
{
    let tag = match response.member_text("tag_name") {
        Some(tag) => tag.to_owned(),
        None => {
            return Err("release response missing tag_name".to_owned());
        },
    };
    let mut assets: Vec<Asset> = Vec::new();
    assert(views(assets@) =~= assets_in(Seq::empty()));
    if let Some(items) = response.member_elements("assets") {
        let mut i: usize = 0;
        assert(items@.take(0) =~= Seq::empty());
        while i < items.len()
            invariant
                i <= items@.len(),
                views(assets@) == assets_in(items@.take(i as int)),
            decreases items@.len() - i,
        {
            let ghost before = views(assets@);
            proof {
                assert(items@.take(i + 1).drop_last() =~= items@.take(i as int));
                assert(items@.take(i + 1).last() == items@[i as int]);
            }
            let name = items[i].member_text("name");
            let url = items[i].member_text("browser_download_url");
            if let (Some(name), Some(url)) = (name, url) {
                let asset = Asset { name: name.to_owned(), download_url: url.to_owned() };
                let ghost a = asset@;
                assets.push(asset);
                assert(views(assets@) =~= before.push(a));
            }
            i += 1;
        }
        assert(items@.take(i as int) =~= items@);
    }
    Ok(Release { tag, assets })
}

/// An asset is found by its exact name, the first of several; where none has it, none is found.
pub proof fn law_an_asset_is_found_by_name(assets: Seq<AssetView>, name: Seq<char>, k: int)
    ensures
        0 <= k < assets.len() && assets[k].name == name && (forall|i: int|
            0 <= i < k ==> (#[trigger] assets[i]).name != name) ==> asset_named(assets, name)
            == Some(assets[k]),
        (forall|i: int| 0 <= i < assets.len() ==> (#[trigger] assets[i]).name != name)
            ==> asset_named(assets, name) is None,
    decreases assets.len(),
{
    if assets.len() > 0 {
        let rest = assets.skip(1);
        law_an_asset_is_found_by_name(rest, name, k - 1);
        if 0 < k < assets.len() && assets[k].name == name && (forall|i: int|
            0 <= i < k ==> (#[trigger] assets[i]).name != name) {
            assert(assets[0].name != name);
            assert forall|i: int| 0 <= i < k - 1 implies (#[trigger] rest[i]).name != name by {
                assert(rest[i] == assets[i + 1]);
            }
            assert(rest[k - 1] == assets[k]);
        }
        if forall|i: int| 0 <= i < assets.len() ==> (#[trigger] assets[i]).name != name {
            assert(assets[0].name != name);
            assert forall|i: int| 0 <= i < rest.len() implies (#[trigger] rest[i]).name != name by {
                assert(rest[i] == assets[i + 1]);
            }
        }
    }
}

/// Every asset of a release that has a name and an address is read, in the order of the release,
/// with its own name and address.
pub proof fn law_every_asset_is_read(items: Seq<Json>)
    ensures
        ({
            let whole = items.filter(
                |item: Json|
                    text_of(field(item, "name"@)) is Some && text_of(
                        field(item, "browser_download_url"@),
                    ) is Some,
            );
            let assets = assets_in(items);
            &&& assets.len() == whole.len()
            &&& forall|i: int|
                0 <= i < assets.len() ==> Some((#[trigger] assets[i]).name) == text_of(
                    field(whole[i], "name"@),
                ) && Some(assets[i].download_url) == text_of(
                    field(whole[i], "browser_download_url"@),
                )
        }),
    decreases items.len(),
{
    reveal(Seq::filter);
    if items.len() > 0 {
        law_every_asset_is_read(items.drop_last());
    }
}

/// A tag names its version behind any number of `v`s.
pub proof fn law_a_tag_names_its_version(version: Seq<char>)
    requires
        version.len() > 0,
        version[0] != 'v',
    ensures
        tag_version(version) == version,
        tag_version(seq!['v'] + version) == version,
{
    let tag = seq!['v'] + version;
    assert(tag.skip(1) =~= version);
    reveal_with_fuel(trim_start_of, 3);
}

/// Versions are ordered by their numbers, the first counting most: of two that differ exactly one is
/// greater, and a greater one stays greater whatever follows.
pub proof fn law_versions_are_ordered(a: (u64, u64, u64), b: (u64, u64, u64), c: (u64, u64, u64))
    ensures
        !numbers_greater(a, a),
        a != b ==> numbers_greater(a, b) != numbers_greater(b, a),
        numbers_greater(a, b) && numbers_greater(b, c) ==> numbers_greater(a, c),
        a.0 > b.0 ==> numbers_greater(a, b),
        a.0 == b.0 && a.1 > b.1 ==> numbers_greater(a, b),
        a.0 == b.0 && a.1 == b.1 && a.2 > b.2 ==> numbers_greater(a, b),
{
}

} // verus!
