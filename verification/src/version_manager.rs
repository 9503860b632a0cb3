//! Versions of the application: reading a release tag, and telling whether a
//! release is newer than what runs.

use crate::text::{
    chars_of, lowered, lowered_chars, same_chars, split, split_chars, string_of, texts,
};
use vstd::prelude::*;
use vstd::string::StringExecFns;

verus! {

/// The version of the application.
pub const CURRENT_VERSION: &'static str = "0.1.3-beta";

/// The newest release, and whether it should replace what runs.
#[derive(Debug)]
pub struct VersionInfo {
    pub version: String,
    pub branch: String,
    pub should_update: bool,
}

/// A version and the branch it belongs to.
#[derive(Debug)]
pub struct SimpleVersionInfo {
    pub version: String,
    pub branch: String,
}

/// A release as the release feed lists it.
#[derive(Debug, Clone)]
pub struct GitHubRelease {
    pub tag_name: String,
    pub published_at: String,
}

/// The branch that a label after the version number stands for, whatever the
/// case of the label.
pub open spec fn branch_name(label: Seq<char>) -> Seq<char> {
    let l = lowered(label);
    if l == "beta"@ {
        "Beta"@
    } else if l == "release"@ {
        "Release"@
    } else if l == "hotfix"@ {
        "Hot Fix"@
    } else {
        "Unknown"@
    }
}

/// The branch of a version whose parts between hyphens are `parts`: that of
/// the second part, or `Stable` where there is none.
pub open spec fn branch_of(parts: Seq<Seq<char>>) -> Seq<char> {
    if parts.len() > 1 {
        branch_name(parts[1])
    } else {
        "Stable"@
    }
}

/// The version number and the branch that `text` writes.
pub open spec fn version_and_branch(text: Seq<char>) -> (Seq<char>, Seq<char>) {
    (split(text, '-')[0], branch_of(split(text, '-')))
}

/// A release tag without the `v` in front of it.
pub open spec fn untagged(tag: Seq<char>) -> Seq<char> {
    if tag.len() > 0 && tag[0] == 'v' {
        tag.skip(1)
    } else {
        tag
    }
}

/// The page of a release.
pub open spec fn release_page(tag: Seq<char>) -> Seq<char> {
    "https://github.com/MegalithOfficial/Showcase-Studio/releases/tag/"@ + tag
}

/// The version number and the branch that `chars` write.
fn read_version(chars: &Vec<char>) -> (r: (String, String))
    ensures
        (r.0@, r.1@) == version_and_branch(chars@),
{
    let parts = split_chars(chars, '-');
    assert(texts(parts@)[0] == parts@[0]@);
    let version = string_of(&parts[0]);
    let branch = if parts.len() > 1 {
        assert(texts(parts@)[1] == parts@[1]@);
        let label = lowered_chars(&parts[1]);
        if same_chars(&label, &chars_of("beta")) {
            "Beta"
        } else if same_chars(&label, &chars_of("release")) {
            "Release"
        } else if same_chars(&label, &chars_of("hotfix")) {
            "Hot Fix"
        } else {
            "Unknown"
        }
    } else {
        "Stable"
    };
    (version, String::from_str(branch))
}

/// Reads a release tag: the version number without a leading `v`, and the
/// branch.
pub fn parse_version_info(tag_name: &str) -> (r: (String, String))
    ensures
        (r.0@, r.1@) == version_and_branch(untagged(tag_name@)),
{
    let chars = chars_of(tag_name);
    if chars.len() > 0 && chars[0] == 'v' {
        let mut rest: Vec<char> = Vec::new();
        let mut i: usize = 1;
        while i < chars.len()
            invariant
                1 <= i <= chars.len(),
                rest@ == chars@.subrange(1, i as int),
            decreases chars.len() - i,
        {
            rest.push(chars[i]);
            i += 1;
        }
        assert(rest@ == chars@.skip(1));
        read_version(&rest)
    } else {
        read_version(&chars)
    }
}

/// The version number and the branch of a version of the application.
pub fn get_version_info(current_version: String) -> (r: SimpleVersionInfo)
    ensures
        (r.version@, r.branch@) == version_and_branch(current_version@),
{
    let (version, branch) = read_version(&chars_of(current_version.as_str()));
    SimpleVersionInfo { version, branch }
}

/// The version number and the branch of the application that runs.
pub fn get_current_version() -> (r: SimpleVersionInfo)
    ensures
        (r.version@, r.branch@) == version_and_branch(CURRENT_VERSION@),
{
    get_version_info(String::from_str(CURRENT_VERSION))
}

/// Whether `latest` is a later version than `current` as `semver` orders
/// versions; nothing where one of the two is no version.
pub uninterp spec fn later_version(latest: Seq<char>, current: Seq<char>) -> Option<bool>;

/// `semver::Version::parse` on both texts, and `>` on the two versions.
#[verifier::external_body]
fn is_later_version(latest: &str, current: &str) -> (r: Option<bool>)
    ensures
        r == later_version(latest@, current@),
{
    match (semver::Version::parse(latest), semver::Version::parse(current)) {
        (Ok(l), Ok(c)) => Some(l > c),
        _ => None,
    }
}

/// Whether an update is due, given how the two versions compare: only
/// where both are versions and the latest is the later one.
pub fn update_due(compared: Option<bool>) -> (r: bool)
    ensures
        r == (compared == Some(true)),
{
    match compared {
        Some(later) => later,
        None => false,
    }
}

/// Whether the latest release should replace the current version.
pub fn should_update(current_version: &str, latest_version: &str) -> (r: bool)
    ensures
        r == (later_version(latest_version@, current_version@) == Some(true)),
{
    update_due(is_later_version(latest_version, current_version))
}

/// What to tell about the newest release, whose tag is `latest_tag`, to an
/// application of version `current_version`.
pub fn update_info(current_version: &str, latest_tag: &str) -> (r: VersionInfo)
    ensures
        (r.version@, r.branch@) == version_and_branch(untagged(latest_tag@)),
        r.should_update == (later_version(r.version@, current_version@) == Some(true)),
{
    let (version, branch) = parse_version_info(latest_tag);
    let due = should_update(current_version, version.as_str());
    VersionInfo { version, branch, should_update: due }
}

/// The page of the release with this tag.
pub fn release_link(tag_name: &str) -> (r: String)
    ensures
        r@ == release_page(tag_name@),
{
    let mut link = String::from_str(
        "https://github.com/MegalithOfficial/Showcase-Studio/releases/tag/",
    );
    link.append(tag_name);
    link
}

/// The instant that `text` writes as an RFC 3339 date and time: seconds
/// since the epoch and the nanoseconds within the second; nothing where
/// `text` is no such date.
pub uninterp spec fn rfc3339_instant(text: Seq<char>) -> Option<(i64, u32)>;

/// `chrono::DateTime::parse_from_rfc3339`, read with `DateTime::timestamp`
/// and `DateTime::timestamp_subsec_nanos`.
#[verifier::external_body]
fn parse_instant(text: &str) -> (r: Option<(i64, u32)>)
    ensures
        r == rfc3339_instant(text@),
{
    match chrono::DateTime::parse_from_rfc3339(text) {
        Ok(at) => Some((at.timestamp(), at.timestamp_subsec_nanos())),
        Err(_) => None,
    }
}

/// When a release counts as published: at the instant its date writes, or
/// at the epoch where the date cannot be read.
pub open spec fn published(date: Seq<char>) -> (i64, u32) {
    match rfc3339_instant(date) {
        Some(at) => at,
        None => (0i64, 0u32),
    }
}

/// Whether instant `a` is not after instant `b`.
pub open spec fn not_after(a: (i64, u32), b: (i64, u32)) -> bool {
    a.0 < b.0 || (a.0 == b.0 && a.1 <= b.1)
}

/// Whether `at` is the place of the latest of `instants`: none is later, and
/// none behind it is the same.
pub open spec fn is_latest(instants: Seq<(i64, u32)>, at: int) -> bool {
    &&& 0 <= at < instants.len()
    &&& forall|i: int| 0 <= i < instants.len() ==> not_after(instants[i], instants[at])
    &&& forall|i: int| at < i < instants.len() ==> instants[i] != instants[at]
}

/// When each of `releases` counts as published.
pub open spec fn instants_of(releases: Seq<GitHubRelease>) -> Seq<(i64, u32)> {
    Seq::new(releases.len(), |i: int| published(releases[i].published_at@))
}

/// When a release counts as published, given what its date was read as: at
/// that instant, or at the epoch where the date could not be read.
pub open spec fn instant_or_epoch(read: Option<(i64, u32)>) -> (i64, u32) {
    match read {
        Some(at) => at,
        None => (0i64, 0u32),
    }
}

/// When a release counts as published, given what its date was read as.
pub fn published_from(read: Option<(i64, u32)>) -> (at: (i64, u32))
    ensures
        at == instant_or_epoch(read),
{
    match read {
        Some(at) => at,
        None => (0, 0),
    }
}

/// When a release counts as published.
pub fn published_at(date: &str) -> (at: (i64, u32))
    ensures
        at == published(date@),
{
    published_from(parse_instant(date))
}

/// The place of the latest of `instants`; of several that are the same, the
/// last. There is none only where there are no instants.
pub fn latest_instant(instants: &Vec<(i64, u32)>) -> (r: Option<usize>)
    ensures
        r is None <==> instants.len() == 0,
        r matches Some(at) ==> is_latest(instants@, at as int),
{
    if instants.len() == 0 {
        return None;
    }
    let mut best: usize = 0;
    let mut i: usize = 1;
    while i < instants.len()
        invariant
            1 <= i <= instants.len(),
            best < i,
            forall|k: int| 0 <= k < i ==> not_after(instants[k], instants[best as int]),
            forall|k: int| best < k < i ==> instants[k] != instants[best as int],
        decreases instants.len() - i,
    {
        let at = instants[i];
        let top = instants[best];
        if top.0 < at.0 || (top.0 == at.0 && top.1 <= at.1) {
            best = i;
        }
        i += 1;
    }
    Some(best)
}

/// The release published last; of several published at the same instant, the
/// one listed last. There is none only where no release is listed.
pub fn find_latest_release(releases: &Vec<GitHubRelease>) -> (r: Option<usize>)
    ensures
        r is None <==> releases.len() == 0,
        r matches Some(at) ==> is_latest(instants_of(releases@), at as int),
{
    let mut instants: Vec<(i64, u32)> = Vec::new();
    let mut i: usize = 0;
    while i < releases.len()
        invariant
            i <= releases.len(),
            instants@ == instants_of(releases@).take(i as int),
        decreases releases.len() - i,
    {
        instants.push(published_at(releases[i].published_at.as_str()));
        i += 1;
    }
    assert(instants_of(releases@).take(releases.len() as int) == instants_of(releases@));
    latest_instant(&instants)
}

} // verus!
