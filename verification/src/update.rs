//! Updates: versions, the release to take and the checks on what was
//! downloaded.

use std::cmp::Ordering;
use vstd::prelude::*;
use vstd::slice::slice_subrange;
use vstd::string::*;
use vstd::utf8::*;

use crate::codec::hex_encode;
use crate::crypto;
use crate::crypto::sha256;
use crate::text;
use crate::text::{
    chars_of, lines_of, lowercase_of, parse_u32, push_decimal, same, same_text,
    split_at_char, string_of, words_of,
};
use crate::ui;
use crate::ui::confirm;

verus! {

/// Where releases are.
pub const REPO: &'static str = "hapwi/pastebridge";

// ---- versions ----

/// A version: major, minor and patch number.
#[derive(Debug, Clone, Copy, PartialEq, Eq, Structural)]
pub struct Version(pub u32, pub u32, pub u32);

/// Whether a version is older than another.
pub open spec fn older(a: Version, b: Version) -> bool {
    a.0 < b.0 || (a.0 == b.0 && (a.1 < b.1 || (a.1 == b.1 && a.2 < b.2)))
}

impl PartialOrd for Version {
    fn partial_cmp(&self, other: &Self) -> (r: Option<Ordering>) {
        if self.0 < other.0 || (self.0 == other.0 && (self.1 < other.1 || (self.1 == other.1
            && self.2 < other.2))) {
            Some(Ordering::Less)
        } else if self.0 == other.0 && self.1 == other.1 && self.2 == other.2 {
            Some(Ordering::Equal)
        } else {
            Some(Ordering::Greater)
        }
    }
}

impl vstd::std_specs::cmp::PartialOrdSpecImpl for Version {
    open spec fn obeys_partial_cmp_spec() -> bool {
        true
    }

    open spec fn partial_cmp_spec(&self, other: &Self) -> Option<Ordering> {
        if older(*self, *other) {
            Some(Ordering::Less)
        } else if *self == *other {
            Some(Ordering::Equal)
        } else {
            Some(Ordering::Greater)
        }
    }
}

/// Whether a version is older than another.
pub fn is_older(a: Version, b: Version) -> (r: bool)
    ensures
        r == older(a, b),
{
    a < b
}

/// Of two versions exactly one is older, or they are the same. Whatever is
/// older than an older version is older.
pub proof fn versions_are_ordered(a: Version, b: Version, c: Version)
    ensures
        older(a, b) || older(b, a) || a == b,
        !(older(a, b) && older(b, a)),
        !older(a, a),
        older(a, b) && older(b, c) ==> older(a, c),
{
}

/// The numbers of a version text.
pub open spec fn version_in(s: Seq<char>) -> Option<(nat, nat, nat)> {
    let bare = if s.len() > 0 && s[0] == 'v' {
        s.skip(1)
    } else {
        s
    };
    let parts = text::split(bare, '.');
    let max = u32::MAX as nat;
    if parts.len() != 3 {
        None
    } else {
        match (
            text::parse_number(parts[0], max),
            text::parse_number(parts[1], max),
            text::parse_number(parts[2], max),
        ) {
            (Some(a), Some(b), Some(c)) => Some((a, b, c)),
            _ => None,
        }
    }
}

/// What a version is read as.
pub open spec fn numbers(v: Version) -> (nat, nat, nat) {
    (v.0 as nat, v.1 as nat, v.2 as nat)
}

/// Reads a version.
pub fn parse_version(s: &str) -> (r: Option<Version>)
    ensures
        r is Some <==> version_in(s@) is Some,
        r matches Some(v) ==> version_in(s@) == Some(numbers(v)),
{
    let chars = chars_of(s);
    let mut bare: &[char] = chars.as_slice();
    if chars.len() > 0 && chars[0] == 'v' {
        bare = slice_subrange(chars.as_slice(), 1, chars.len());
        assert(bare@ == s@.skip(1));
    }
    let parts = split_at_char(bare, '.');
    assert(text::texts(parts@).len() == parts@.len());
    if parts.len() != 3 {
        return None;
    }
    assert(text::texts(parts@)[0] == parts@[0]@);
    assert(text::texts(parts@)[1] == parts@[1]@);
    assert(text::texts(parts@)[2] == parts@[2]@);
    match (
        parse_u32(parts[0].as_slice()),
        parse_u32(parts[1].as_slice()),
        parse_u32(parts[2].as_slice()),
    ) {
        (Some(a), Some(b), Some(c)) => Some(Version(a, b, c)),
        _ => None,
    }
}

/// The text of a version.
pub open spec fn version_text(v: Version) -> Seq<char> {
    text::decimal(v.0 as nat) + "."@ + text::decimal(v.1 as nat) + "."@ + text::decimal(v.2 as nat)
}

impl Version {
    /// The text of the version.
    pub fn text(&self) -> (r: String)
        ensures
            r@ == version_text(*self),
    {
        let mut out = String::new();
        push_decimal(&mut out, self.0.into());
        assert(out@ =~= text::decimal(self.0 as nat));
        out.append(".");
        push_decimal(&mut out, self.1.into());
        out.append(".");
        push_decimal(&mut out, self.2.into());
        out
    }
}

// ---- releases ----

/// A file of a release.
#[derive(Debug)]
pub struct Asset {
    pub name: String,
    pub browser_download_url: String,
}

/// A release.
#[derive(Debug)]
pub struct Release {
    pub tag_name: String,
    pub draft: bool,
    pub prerelease: bool,
    pub assets: Vec<Asset>,
}

/// Whether a release is one to take: it is out, and it has a version.
pub open spec fn is_candidate(r: Release) -> bool {
    !r.draft && !r.prerelease && version_in(r.tag_name@) is Some
}

/// Whether numbers are those of an older version.
pub open spec fn older_numbers(a: (nat, nat, nat), b: (nat, nat, nat)) -> bool {
    a.0 < b.0 || (a.0 == b.0 && (a.1 < b.1 || (a.1 == b.1 && a.2 < b.2)))
}

/// Whether the release at a place is the latest of the first `n`: no release to
/// take is newer, and it is the last of those with its version.
pub open spec fn is_latest_of(releases: Seq<Release>, n: int, at: int) -> bool {
    &&& 0 <= at < n
    &&& is_candidate(releases[at])
    &&& forall|i: int|
        0 <= i < n && is_candidate(#[trigger] releases[i]) ==> older_numbers(
            version_in(releases[i].tag_name@)->0,
            version_in(releases[at].tag_name@)->0,
        ) || (version_in(releases[i].tag_name@) == version_in(releases[at].tag_name@) && i <= at)
}

/// Whether the release at a place is the latest.
pub open spec fn is_latest(releases: Seq<Release>, at: int) -> bool {
    is_latest_of(releases, releases.len() as int, at)
}

/// The latest release and its version.
pub fn latest_release(releases: &Vec<Release>) -> (r: Option<(Version, usize)>)
    ensures
        r is Some <==> exists|i: int|
            0 <= i < releases@.len() && is_candidate(#[trigger] releases@[i]),
        r matches Some(found) ==> is_latest(releases@, found.1 as int) && version_in(
            releases@[found.1 as int].tag_name@,
        ) == Some(numbers(found.0)),
{
    let mut best: Option<(Version, usize)> = None;
    let mut i: usize = 0;
    while i < releases.len()
        invariant
            i <= releases@.len(),
            best is None ==> (forall|j: int|
                0 <= j < i ==> !is_candidate(#[trigger] releases@[j])),
            best matches Some(found) ==> is_latest_of(releases@, i as int, found.1 as int)
                && version_in(releases@[found.1 as int].tag_name@) == Some(numbers(found.0)),
        decreases releases@.len() - i,
    {
        let version = if releases[i].draft || releases[i].prerelease {
            None
        } else {
            parse_version(releases[i].tag_name.as_str())
        };
        assert(version is Some <==> is_candidate(releases@[i as int]));
        if let Some(v) = version {
            let newer = match best {
                None => true,
                Some(found) => !is_older(v, found.0),
            };
            if newer {
                best = Some((v, i));
            }
        }
        i += 1;
    }
    assert(best is Some ==> is_candidate(releases@[(best->0).1 as int]));
    best
}

/// The place of the first file with a name, or the number of files.
pub open spec fn asset_place(assets: Seq<Asset>, name: Seq<char>) -> nat
    decreases assets.len(),
{
    if assets.len() == 0 || assets[0].name@ == name {
        0
    } else {
        1 + asset_place(assets.skip(1), name)
    }
}

/// The first file of a release with a name.
pub fn find_asset<'a>(release: &'a Release, name: &str) -> (r: Option<&'a Asset>)
    ensures
        r is Some <==> asset_place(release.assets@, name@) < release.assets@.len(),
        r matches Some(asset) ==> *asset == release.assets@[asset_place(
            release.assets@,
            name@,
        ) as int],
{
    let assets = &release.assets;
    let mut i: usize = 0;
    assert(assets@.skip(0) =~= assets@);
    while i < assets.len()
        invariant
            i <= assets@.len(),
            assets == release.assets,
            asset_place(assets@, name@) == i + asset_place(assets@.skip(i as int), name@),
        decreases assets@.len() - i,
    {
        assert(assets@.skip(i as int)[0] == assets@[i as int]);
        if same_text(assets[i].name.as_str(), name) {
            return Some(&assets[i]);
        }
        assert(assets@.skip(i as int).skip(1) =~= assets@.skip(i as int + 1));
        i += 1;
    }
    None
}

/// Why there is no update.
#[derive(Debug, Clone, Copy, PartialEq, Eq, Structural)]
pub enum UpdateProblem {
    /// No release has a version.
    NoRelease,
    /// The version of this program is not a version.
    CurrentVersion,
}

/// Whether there is a newer release: its version and its place, or nothing
/// where this program is up to date.
pub fn newer_release(current: &str, releases: &Vec<Release>) -> (r: Result<
    Option<(Version, usize)>,
    UpdateProblem,
>)
    ensures
        match r {
            Ok(newer) => exists|at: int| #[trigger]
                is_latest(releases@, at) && version_in(current@) is Some && (match newer {
                    Some(found) => found.1 == at && version_in(releases@[at].tag_name@) == Some(
                        numbers(found.0),
                    ) && older_numbers(version_in(current@)->0, numbers(found.0)),
                    None => !older_numbers(
                        version_in(current@)->0,
                        version_in(releases@[at].tag_name@)->0,
                    ),
                }),
            Err(UpdateProblem::NoRelease) => forall|i: int|
                0 <= i < releases@.len() ==> !is_candidate(#[trigger] releases@[i]),
            Err(UpdateProblem::CurrentVersion) => version_in(current@) is None && exists|i: int|
                0 <= i < releases@.len() && is_candidate(#[trigger] releases@[i]),
        },
{
    let latest = match latest_release(releases) {
        Some(found) => found,
        None => {
            return Err(UpdateProblem::NoRelease);
        },
    };
    let here = match parse_version(current) {
        Some(v) => v,
        None => {
            assert(is_candidate(releases@[latest.1 as int]));
            return Err(UpdateProblem::CurrentVersion);
        },
    };
    assert(is_latest(releases@, latest.1 as int));
    if is_older(here, latest.0) {
        Ok(Some(latest))
    } else {
        Ok(None)
    }
}

// ---- what to download ----

/// Where the list of releases is.
pub open spec fn releases_text() -> Seq<char> {
    "https://api.github.com/repos/"@ + REPO@ + "/releases?per_page=20"@
}

/// Where the list of releases is.
pub fn releases_url() -> (r: String)
    ensures
        r@ == releases_text(),
{
    let mut out = "https://api.github.com/repos/".to_string();
    out.append(REPO);
    out.append("/releases?per_page=20");
    out
}

/// How this program names itself to servers.
pub fn user_agent(version: &str) -> (r: String)
    ensures
        r@ == "pastebridge/"@ + version@,
{
    let mut out = "pastebridge/".to_string();
    out.append(version);
    out
}

/// The name under which a new program is written beside the old one, before it
/// takes its place.
pub fn staging_name(file_name: Option<&str>) -> (r: String)
    ensures
        r@ == "."@ + (match file_name {
            Some(name) => name@,
            None => "pastebridge"@,
        }) + ".new"@,
{
    let mut out = ".".to_string();
    match file_name {
        Some(name) => out.append(name),
        None => out.append("pastebridge"),
    }
    out.append(".new");
    out
}

/// The name of the build for a system and a processor.
pub open spec fn target_for(os: Seq<char>, arch: Seq<char>) -> Option<Seq<char>> {
    if os == "linux"@ && arch == "x86_64"@ {
        Some("x86_64-unknown-linux-gnu"@)
    } else if os == "linux"@ && arch == "aarch64"@ {
        Some("aarch64-unknown-linux-gnu"@)
    } else if os == "macos"@ && arch == "aarch64"@ {
        Some("aarch64-apple-darwin"@)
    } else if os == "macos"@ && arch == "x86_64"@ {
        Some("x86_64-apple-darwin"@)
    } else {
        None
    }
}

/// The name of the build for a system and a processor, if there is one.
pub fn rustc_target(os: &str, arch: &str) -> (r: Option<&'static str>)
    ensures
        r is Some <==> target_for(os@, arch@) is Some,
        r matches Some(target) ==> target_for(os@, arch@) == Some(target@),
{
    let intel = same_text(arch, "x86_64");
    let arm = same_text(arch, "aarch64");
    if same_text(os, "linux") && intel {
        Some("x86_64-unknown-linux-gnu")
    } else if same_text(os, "linux") && arm {
        Some("aarch64-unknown-linux-gnu")
    } else if same_text(os, "macos") && arm {
        Some("aarch64-apple-darwin")
    } else if same_text(os, "macos") && intel {
        Some("x86_64-apple-darwin")
    } else {
        None
    }
}

/// The name of the archive with a build.
pub open spec fn archive_text(target: Seq<char>) -> Seq<char> {
    "pastebridge-"@ + target + ".tar.gz"@
}

/// The name of the archive with a build.
pub fn archive_name(target: &str) -> (r: String)
    ensures
        r@ == archive_text(target@),
{
    let mut out = "pastebridge-".to_string();
    out.append(target);
    out.append(".tar.gz");
    out
}

/// Whether to go on with an update.
#[derive(Debug, Clone, Copy, PartialEq, Eq, Structural)]
pub enum Consent {
    Given,
    Refused,
    /// There is nobody to ask.
    NotTerminal,
}

/// Whether to go on with an update: the command line says so, or a person at a
/// terminal does.
pub open spec fn consent_to(yes: bool, terminal: bool, answer: Seq<char>) -> Consent {
    if yes {
        Consent::Given
    } else if !terminal {
        Consent::NotTerminal
    } else if ui::says_yes(answer) {
        Consent::Given
    } else {
        Consent::Refused
    }
}

/// Decides whether to go on with an update, by the command line or by a typed
/// answer.
pub fn should_update(yes: bool, terminal: bool, answer: &str) -> (r: Consent)
    ensures
        r == consent_to(yes, terminal, answer@),
{
    if yes {
        Consent::Given
    } else if !terminal {
        Consent::NotTerminal
    } else if confirm(answer) {
        Consent::Given
    } else {
        Consent::Refused
    }
}

// ---- what was downloaded ----

/// A text without its leading stars.
pub open spec fn without_stars(s: Seq<char>) -> Seq<char>
    decreases s.len(),
{
    if s.len() > 0 && s[0] == '*' {
        without_stars(s.skip(1))
    } else {
        s
    }
}

/// The checksum that lines give for a file: the first word, in lower case, of
/// the first line whose second word names it. A line of fewer words ends the
/// search.
pub open spec fn checksum_in(lines: Seq<Seq<char>>, name: Seq<char>) -> Option<Seq<char>>
    decreases lines.len(),
{
    if lines.len() == 0 {
        None
    } else {
        let words = text::words(lines[0]);
        if words.len() < 2 {
            None
        } else if without_stars(words[1]) == name {
            Some(text::lowercase(words[0]))
        } else {
            checksum_in(lines.skip(1), name)
        }
    }
}

fn drop_stars(s: &[char]) -> (r: &[char])
    ensures
        r@ == without_stars(s@),
{
    let mut i: usize = 0;
    assert(s@.skip(0) =~= s@);
    while i < s.len() && s[i] == '*'
        invariant
            i <= s@.len(),
            without_stars(s@) == without_stars(s@.skip(i as int)),
        decreases s@.len() - i,
    {
        assert(s@.skip(i as int)[0] == s@[i as int]);
        assert(s@.skip(i as int).skip(1) =~= s@.skip(i as int + 1));
        i += 1;
    }
    assert(i < s@.len() ==> s@.skip(i as int)[0] == s@[i as int]);
    let r = slice_subrange(s, i, s.len());
    assert(r@ =~= s@.skip(i as int));
    r
}

/// The checksum that a list of checksums gives for a file.
pub fn checksum_for(sums: &str, name: &str) -> (r: Option<String>)
    ensures
        r is Some <==> checksum_in(text::lines(sums@), name@) is Some,
        r matches Some(sum) ==> checksum_in(text::lines(sums@), name@) == Some(sum@),
{
    let chars = chars_of(sums);
    let wanted = chars_of(name);
    let lines = lines_of(chars.as_slice());
    let ghost all = text::lines(sums@);
    assert(all.skip(0) =~= all);
    assert(text::texts(lines@).len() == lines@.len());
    let mut i: usize = 0;
    while i < lines.len()
        invariant
            i <= lines@.len(),
            text::texts(lines@) == all,
            all.len() == lines@.len(),
            wanted@ == name@,
            all == text::lines(sums@),
            checksum_in(all, name@) == checksum_in(all.skip(i as int), name@),
        decreases lines@.len() - i,
    {
        let words = words_of(lines[i].as_slice());
        assert(text::texts(lines@)[i as int] == lines@[i as int]@);
        assert(all.skip(i as int)[0] == lines@[i as int]@);
        assert(text::texts(words@).len() == words@.len());
        assert(all.skip(i as int).skip(1) =~= all.skip(i as int + 1));
        if words.len() < 2 {
            return None;
        }
        assert(text::texts(words@)[0] == words@[0]@);
        assert(text::texts(words@)[1] == words@[1]@);
        if same(drop_stars(words[1].as_slice()), wanted.as_slice()) {
            let sum = lowercase_of(words[0].as_slice());
            return Some(string_of(sum.as_slice()));
        }
        i += 1;
    }
    assert(all.skip(i as int).len() == 0);
    None
}

/// The hexadecimal checksum of a file.
pub open spec fn sha256_text(content: Seq<u8>) -> Seq<char> {
    crate::codec::hex_text(crypto::sha256_digest(content))
}

/// The hexadecimal checksum of a file.
pub fn sha256_file(content: &[u8]) -> (r: String)
    ensures
        r@ == sha256_text(content@),
{
    let digest = sha256(content);
    hex_encode(&digest)
}

/// The text of a downloaded list; one that is not text counts as empty.
pub open spec fn list_text(bytes: Seq<u8>) -> Seq<char> {
    if valid_utf8(bytes) {
        decode_utf8(bytes)
    } else {
        seq![]
    }
}

/// Reads a downloaded list.
pub fn list_of(bytes: Vec<u8>) -> (r: String)
    ensures
        r@ == list_text(bytes@),
{
    match String::from_utf8(bytes) {
        Ok(list) => list,
        Err(_) => {
            let none = String::new();
            assert(none@ =~= list_text(bytes@));
            none
        },
    }
}

/// Whether an archive may be installed: where the release has a list of
/// checksums that names it, it has to have the checksum.
pub open spec fn may_be_installed(
    sums: Option<Seq<u8>>,
    name: Seq<char>,
    archive: Seq<u8>,
) -> bool {
    checksum_allowed(sums, name, sha256_text(archive))
}

/// Whether a checksum is the listed one, where one is listed.
pub open spec fn checksum_allowed(
    sums: Option<Seq<u8>>,
    name: Seq<char>,
    actual: Seq<char>,
) -> bool {
    match sums {
        Some(bytes) => match checksum_in(text::lines(list_text(bytes)), name) {
            Some(expected) => actual == expected,
            None => true,
        },
        None => true,
    }
}

/// Checks a downloaded archive against the downloaded list of checksums.
pub fn archive_is_sound(sums: Option<Vec<u8>>, name: &str, archive: &[u8]) -> (r: bool)
    ensures
        r == may_be_installed(
            match sums {
                Some(bytes) => Some(bytes@),
                None => None,
            },
            name@,
            archive@,
        ),
{
    let actual = sha256_file(archive);
    checksum_is_listed(sums, name, actual.as_str())
}

/// Checks the checksum of a file against a downloaded list of checksums, where
/// that names the file.
pub fn checksum_is_listed(sums: Option<Vec<u8>>, name: &str, actual: &str) -> (r: bool)
    ensures
        r == checksum_allowed(
            match sums {
                Some(bytes) => Some(bytes@),
                None => None,
            },
            name@,
            actual@,
        ),
{
    match sums {
        Some(bytes) => {
            let list = list_of(bytes);
            match checksum_for(list.as_str(), name) {
                Some(expected) => same_text(actual, expected.as_str()),
                None => true,
            }
        },
        None => true,
    }
}

// ---- laws ----

proof fn lemma_digits_hold_no_dot(s: Seq<char>)
    requires
        text::all_digits(s),
    ensures
        text::find(s, '.') == s.len(),
{
    text::lemma_find(s, '.');
    if text::find(s, '.') < s.len() {
        assert(text::is_digit(s[text::find(s, '.') as int]));
    }
}

proof fn lemma_find_after_digits(s: Seq<char>, rest: Seq<char>)
    requires
        text::all_digits(s),
    ensures
        text::find(s + seq!['.'] + rest, '.') == s.len(),
{
    let whole = s + seq!['.'] + rest;
    text::lemma_find(whole, '.');
    let f = text::find(whole, '.') as int;
    if f < s.len() {
        assert(whole[f] == s[f]);
        assert(text::is_digit(s[f]));
    }
    if f > s.len() {
        assert(whole[s.len() as int] == '.');
    }
}

proof fn lemma_decimals_lack_dots(n: nat)
    ensures
        text::lacks(text::decimal(n), '.'),
        text::decimal(n).len() > 0,
        text::decimal(n)[0] != 'v',
        n <= u32::MAX ==> text::parse_number(text::decimal(n), u32::MAX as nat) == Some(n),
{
    text::decimal_is_read_back(n, n);
    if n <= u32::MAX {
        text::decimal_is_read_back(n, u32::MAX as nat);
    }
    let d = text::decimal(n);
    assert(text::is_digit(d[0]));
    lemma_digits_hold_no_dot(d);
    text::lemma_find(d, '.');
}

/// A version that was written is read back, with and without the letter `v`
/// before it. It is written as its three numbers with dots between them, and its
/// first number ends at the first dot.
pub proof fn written_version_is_read_back(v: Version)
    ensures
        text::find(version_text(v), '.') == text::decimal(v.0 as nat).len(),
        version_text(v) == text::decimal(v.0 as nat) + seq!['.'] + (text::decimal(v.1 as nat)
            + seq!['.'] + text::decimal(v.2 as nat)),
        version_in(version_text(v)) == Some(numbers(v)),
        version_in(seq!['v'] + version_text(v)) == Some(numbers(v)),
{
    reveal_strlit(".");
    let a = text::decimal(v.0 as nat);
    let b = text::decimal(v.1 as nat);
    let c = text::decimal(v.2 as nat);
    lemma_decimals_lack_dots(v.0 as nat);
    lemma_decimals_lack_dots(v.1 as nat);
    lemma_decimals_lack_dots(v.2 as nat);
    let dot = seq!['.'];
    assert("."@ =~= dot);
    assert(version_text(v) =~= a + dot + (b + dot + c));
    text::decimal_is_read_back(v.0 as nat, v.0 as nat);
    lemma_find_after_digits(a, b + dot + c);
    versions_are_three_numbers(a, b, c);
}

/// There is at most one latest release.
pub proof fn latest_release_is_unique(releases: Seq<Release>, i: int, j: int)
    requires
        is_latest(releases, i),
        is_latest(releases, j),
    ensures
        i == j,
{
    assert(is_candidate(releases[i]) && is_candidate(releases[j]));
}

/// There is a build for two systems with two processors each. Its name starts
/// with the processor, and says which of the systems it is for.
pub proof fn targets_name_system_and_processor(os: Seq<char>, arch: Seq<char>)
    ensures
        target_for(os, arch) is Some <==> (os == "linux"@ || os == "macos"@) && (arch == "x86_64"@
            || arch == "aarch64"@),
        target_for(os, arch) matches Some(target) ==> {
            &&& exists|rest: Seq<char>| target == #[trigger] (arch + "-"@ + rest)
            &&& text::contains(target, "linux"@) <==> os == "linux"@
            &&& text::contains(target, "apple-darwin"@) <==> os == "macos"@
        },
{
    reveal_strlit("linux");
    reveal_strlit("macos");
    reveal_strlit("x86_64");
    reveal_strlit("aarch64");
    reveal_strlit("-");
    reveal_strlit("x86_64-unknown-linux-gnu");
    reveal_strlit("aarch64-unknown-linux-gnu");
    reveal_strlit("x86_64-apple-darwin");
    reveal_strlit("aarch64-apple-darwin");
    reveal_strlit("unknown-linux-gnu");
    reveal_strlit("apple-darwin");
    assert("linux"@[0] == 'l' && "macos"@[0] == 'm');
    assert("x86_64"@[0] == 'x' && "aarch64"@[0] == 'a');
    if let Some(target) = target_for(os, arch) {
        let rest = if os == "linux"@ {
            "unknown-linux-gnu"@
        } else {
            "apple-darwin"@
        };
        assert(target =~= arch + "-"@ + rest);
        if os == "linux"@ {
            let at = arch.len() + 9;
            assert(target.skip(at as int).take(5) =~= "linux"@);
            assert forall|i: int| 0 <= i < target.len() implies #[trigger] target[i] != 'd' by {}
            if text::contains(target, "apple-darwin"@) {
                text::parts_are_found(target, seq![], "apple-darwin"@, seq![]);
                let (a, b) = choose|a: Seq<char>, b: Seq<char>|
                    target == #[trigger] (a + "apple-darwin"@ + b);
                assert(target[a.len() as int + 6] == 'd');
            }
        } else {
            let at = arch.len() + 1;
            assert(target.skip(at as int).take(12) =~= "apple-darwin"@);
            assert forall|i: int| 0 <= i < target.len() implies #[trigger] target[i] != 'u' by {}
            if text::contains(target, "linux"@) {
                text::parts_are_found(target, seq![], "linux"@, seq![]);
                let (a, b) = choose|a: Seq<char>, b: Seq<char>|
                    target == #[trigger] (a + "linux"@ + b);
                assert(target[a.len() as int + 3] == 'u');
            }
        }
    }
}

/// Different systems or processors never get the same build, nor an archive of
/// the same name.
pub proof fn builds_are_told_apart(
    os: Seq<char>,
    arch: Seq<char>,
    other_os: Seq<char>,
    other_arch: Seq<char>,
)
    requires
        target_for(os, arch) is Some,
        target_for(os, arch) == target_for(other_os, other_arch),
    ensures
        os == other_os,
        arch == other_arch,
{
    targets_name_system_and_processor(os, arch);
    targets_name_system_and_processor(other_os, other_arch);
    reveal_strlit("x86_64");
    reveal_strlit("aarch64");
    let target = target_for(os, arch)->0;
    let rest = choose|rest: Seq<char>| target == #[trigger] (arch + "-"@ + rest);
    let other_rest = choose|rest: Seq<char>| target == #[trigger] (other_arch + "-"@ + rest);
    assert(target[0] == arch[0]);
    assert(target[0] == other_arch[0]);
}

/// The name of an archive holds the name of its build, and tells it.
pub proof fn archives_are_told_apart(target: Seq<char>, other: Seq<char>)
    ensures
        text::starts_with(archive_text(target), "pastebridge-"@ + target),
        archive_text(target) == archive_text(other) ==> target == other,
{
    let head = "pastebridge-"@;
    let tail = ".tar.gz"@;
    text::beginnings_are_found(archive_text(target), head + target, tail);
    if archive_text(target) == archive_text(other) {
        let n = archive_text(target).len() - tail.len();
        assert(archive_text(target).subrange(head.len() as int, n) =~= target);
        assert(archive_text(other).subrange(head.len() as int, n) =~= other);
    }
}

/// A version is older by its first number that differs.
pub proof fn first_number_that_differs_decides(a: (nat, nat, nat), b: (nat, nat, nat))
    ensures
        a.0 != b.0 ==> older_numbers(a, b) == (a.0 < b.0),
        a.0 == b.0 && a.1 != b.1 ==> older_numbers(a, b) == (a.1 < b.1),
        a.0 == b.0 && a.1 == b.1 ==> older_numbers(a, b) == (a.2 < b.2),
{
}

/// Versions are compared as their numbers are.
pub proof fn versions_are_compared_by_their_numbers(a: Version, b: Version)
    ensures
        older(a, b) == older_numbers(numbers(a), numbers(b)),
        numbers(a) == numbers(b) ==> a == b,
{
}

/// A text is a version where it is three numbers with dots between them, and
/// then it is these. A letter `v` before it does not matter.
pub proof fn versions_are_three_numbers(a: Seq<char>, b: Seq<char>, c: Seq<char>)
    requires
        text::lacks(a, '.'),
        text::lacks(b, '.'),
        text::lacks(c, '.'),
        a.len() > 0 ==> a[0] != 'v',
    ensures
        ({
            let whole = a + seq!['.'] + (b + seq!['.'] + c);
            let max = u32::MAX as nat;
            let parts = (
                text::parse_number(a, max),
                text::parse_number(b, max),
                text::parse_number(c, max),
            );
            &&& version_in(whole) is Some <==> parts.0 is Some && parts.1 is Some && parts.2 is Some
            &&& version_in(whole) matches Some(v) ==> v == (parts.0->0, parts.1->0, parts.2->0)
            &&& version_in(seq!['v'] + whole) == version_in(whole)
        }),
        version_in(a + seq!['.'] + b) is None,
        version_in(a) is None,
{
    let end = b + seq!['.'] + c;
    let whole = a + seq!['.'] + end;
    text::fields_end_at_separators(a, '.', end);
    text::fields_end_at_separators(b, '.', c);
    text::fields_end_at_separators(c, '.', c);
    text::fields_end_at_separators(a, '.', b);
    assert(text::split(whole, '.') =~= seq![a, b, c]);
    assert(text::split(a + seq!['.'] + b, '.') =~= seq![a, b]);
    if a.len() > 0 {
        assert(whole[0] == a[0]);
        assert((a + seq!['.'] + b)[0] == a[0]);
    }
    assert((seq!['v'] + whole).skip(1) =~= whole);
}

/// The release that is newer than every other one that is out is the latest,
/// wherever it stands in the list. Drafts and previews do not count.
pub proof fn newest_release_is_the_latest(releases: Seq<Release>, at: int)
    requires
        0 <= at < releases.len(),
        !releases[at].draft,
        !releases[at].prerelease,
        version_in(releases[at].tag_name@) is Some,
        forall|i: int|
            0 <= i < releases.len() && i != at && !(#[trigger] releases[i]).draft
                && !releases[i].prerelease && version_in(releases[i].tag_name@) is Some
                ==> older_numbers(
                version_in(releases[i].tag_name@)->0,
                version_in(releases[at].tag_name@)->0,
            ),
    ensures
        is_latest(releases, at),
{
}

/// The latest release is out and has a version, and no other one that is out is
/// newer. Of several with its version it is the last in the list.
pub proof fn nothing_is_newer_than_the_latest(releases: Seq<Release>, at: int, i: int)
    requires
        is_latest(releases, at),
        0 <= i < releases.len(),
        !releases[i].draft,
        !releases[i].prerelease,
        version_in(releases[i].tag_name@) is Some,
    ensures
        0 <= at < releases.len(),
        !releases[at].draft,
        !releases[at].prerelease,
        version_in(releases[at].tag_name@) is Some,
        !older_numbers(
            version_in(releases[at].tag_name@)->0,
            version_in(releases[i].tag_name@)->0,
        ),
        version_in(releases[i].tag_name@) == version_in(releases[at].tag_name@) ==> i <= at,
{
    assert(is_candidate(releases[i]));
}

/// The file that is found by a name has it, is the first that does, and is
/// found where there is one.
pub proof fn first_file_of_a_name_is_found(assets: Seq<Asset>, name: Seq<char>, i: int)
    requires
        0 <= i < assets.len(),
    ensures
        asset_place(assets, name) <= assets.len(),
        assets[i].name@ == name ==> asset_place(assets, name) <= i,
        asset_place(assets, name) < assets.len() ==> assets[asset_place(
            assets,
            name,
        ) as int].name@ == name,
    decreases assets.len(),
{
    if assets[0].name@ != name {
        if assets.len() > 1 {
            if i > 0 {
                first_file_of_a_name_is_found(assets.skip(1), name, i - 1);
                assert(assets.skip(1)[i - 1] == assets[i]);
            } else {
                first_file_of_a_name_is_found(assets.skip(1), name, 0);
            }
            let place = asset_place(assets.skip(1), name) as int;
            if place < assets.skip(1).len() {
                assert(assets.skip(1)[place] == assets[place + 1]);
            }
        } else {
            assert(asset_place(assets.skip(1), name) == 0);
        }
    }
}

/// An update goes on exactly where the command line says so, or where a person
/// at a terminal answers yes. Without a terminal nobody is asked.
pub proof fn consent_is_given_by_somebody(yes: bool, terminal: bool, answer: Seq<char>)
    ensures
        consent_to(yes, terminal, answer) == Consent::Given <==> yes || (terminal && ui::says_yes(
            answer,
        )),
        consent_to(yes, terminal, answer) == Consent::NotTerminal <==> !yes && !terminal,
{
}

proof fn lemma_stars_are_dropped(stars: Seq<char>, name: Seq<char>)
    requires
        forall|i: int| 0 <= i < stars.len() ==> #[trigger] stars[i] == '*',
        name.len() == 0 || name[0] != '*',
    ensures
        without_stars(stars + name) == name,
    decreases stars.len(),
{
    if stars.len() == 0 {
        assert(stars + name =~= name);
    } else {
        assert((stars + name)[0] == stars[0]);
        assert((stars + name).skip(1) =~= stars.skip(1) + name);
        lemma_stars_are_dropped(stars.skip(1), name);
    }
}

/// In a list of checksums, a line with a checksum, two spaces and a name, with
/// or without stars before it, gives that checksum to the name, in lower case,
/// and leaves every other name to the lines that follow.
pub proof fn listed_checksums_are_found(
    sum: Seq<char>,
    stars: Seq<char>,
    name: Seq<char>,
    rest: Seq<char>,
    other: Seq<char>,
)
    requires
        text::is_one_word(sum),
        text::is_one_word(name),
        name[0] != '*',
        forall|i: int| 0 <= i < stars.len() ==> #[trigger] stars[i] == '*',
        other != name,
    ensures
        ({
            let list = sum + seq![' ', ' '] + (stars + name) + seq!['\n'] + rest;
            &&& checksum_in(text::lines(list), name) == Some(text::lowercase(sum))
            &&& checksum_in(text::lines(list), other) == checksum_in(text::lines(rest), other)
        }),
{
    let named = stars + name;
    let line = sum + seq![' ', ' '] + named;
    assert forall|i: int| 0 <= i < named.len() implies !text::is_space(#[trigger] named[i]) by {
        if i >= stars.len() {
            assert(named[i] == name[i - stars.len()]);
        } else {
            assert(named[i] == stars[i]);
        }
    }
    assert forall|i: int| 0 <= i < line.len() implies #[trigger] line[i] != '\n' by {
        if i < sum.len() {
            assert(line[i] == sum[i]);
        } else if i >= sum.len() + 2 {
            assert(line[i] == named[i - sum.len() - 2]);
        }
    }
    assert(line.last() == named.last());
    text::lines_end_with_line_feeds(line, rest);
    let all = text::lines(line + seq!['\n'] + rest);
    assert(all[0] == line);
    assert(all.skip(1) =~= text::lines(rest));
    text::words_end_at_white_space(sum, ' ', seq![' '] + named);
    text::words_end_at_white_space(named, ' ', named);
    assert(sum + seq![' '] + (seq![' '] + named) =~= line);
    assert(text::words(line) =~= seq![sum, named]);
    lemma_stars_are_dropped(stars, name);
}

/// Where a list of checksums gives one for an archive, the archive is installed
/// only with that checksum. Where there is no list, or it does not name the
/// archive, nothing is checked.
pub proof fn listed_checksum_decides(
    list: Seq<char>,
    name: Seq<char>,
    expected: Seq<char>,
    actual: Seq<char>,
)
    ensures
        list_text(encode_utf8(list)) == list,
        checksum_in(text::lines(list), name) == Some(expected) ==> (checksum_allowed(
            Some(encode_utf8(list)),
            name,
            actual,
        ) <==> actual == expected),
        checksum_in(text::lines(list), name) is None ==> checksum_allowed(
            Some(encode_utf8(list)),
            name,
            actual,
        ),
        checksum_allowed(None, name, actual),
        checksum_in(Seq::<Seq<char>>::empty(), name) is None,
{
    encode_utf8_valid_utf8(list);
    encode_utf8_decode_utf8(list);
}

/// A text with more than three parts is no version.
pub proof fn versions_have_no_fourth_number(
    a: Seq<char>,
    b: Seq<char>,
    c: Seq<char>,
    rest: Seq<char>,
)
    requires
        text::lacks(a, '.'),
        text::lacks(b, '.'),
        text::lacks(c, '.'),
    ensures
        version_in(a + seq!['.'] + (b + seq!['.'] + (c + seq!['.'] + rest))) is None,
{
    let end = c + seq!['.'] + rest;
    let middle = b + seq!['.'] + end;
    let whole = a + seq!['.'] + middle;
    let bare = if whole[0] == 'v' {
        whole.skip(1)
    } else {
        whole
    };
    let first = if whole[0] == 'v' && a.len() > 0 {
        a.skip(1)
    } else {
        a
    };
    if a.len() == 0 {
        assert(whole[0] == '.');
    } else {
        assert(whole[0] == a[0]);
    }
    assert(bare =~= first + seq!['.'] + middle);
    assert forall|i: int| 0 <= i < first.len() implies #[trigger] first[i] != '.' by {
        if first.len() < a.len() {
            assert(first[i] == a[i + 1]);
        } else {
            assert(first[i] == a[i]);
        }
    }
    text::fields_end_at_separators(first, '.', middle);
    text::fields_end_at_separators(b, '.', end);
    text::fields_end_at_separators(c, '.', rest);
    let parts = text::split(bare, '.');
    assert(parts =~= seq![first] + (seq![b] + (seq![c] + text::split(rest, '.'))));
    assert(text::split(rest, '.').len() > 0);
}

/// A line of fewer than two words ends the search for a checksum.
pub proof fn short_lines_end_the_search(line: Seq<char>, rest: Seq<Seq<char>>, name: Seq<char>)
    requires
        text::words(line).len() < 2,
    ensures
        checksum_in(seq![line] + rest, name) is None,
{
    assert((seq![line] + rest)[0] == line);
}

/// A list of checksums that is not text names nothing, so nothing is checked by
/// it.
pub proof fn lists_that_are_no_text_name_nothing(bytes: Seq<u8>, name: Seq<char>, actual: Seq<char>)
    requires
        !valid_utf8(bytes),
    ensures
        list_text(bytes).len() == 0,
        checksum_allowed(Some(bytes), name, actual),
{
    text::lines_end_with_line_feeds(Seq::<char>::empty(), Seq::<char>::empty());
    assert(list_text(bytes) =~= Seq::<char>::empty());
}

} // verus!
