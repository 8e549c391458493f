//! Self-update and uninstall decisions: the release build for this platform,
//! what a GitHub release answer means, and reading the confirmation.
//! Downloading, installing and removing files happen outside the library.

use vstd::prelude::*;

use crate::json::{array_of, as_array, as_str, at, get, text_of, Json};
use crate::text::{chars_of, has_substring, str_contains, str_eq, string_from_chars};

verus! {

/// The release build for an operating system and architecture.
pub open spec fn target_for(os: Seq<char>, arch: Seq<char>) -> Option<Seq<char>> {
    if os == "macos"@ && arch == "aarch64"@ {
        Some("aarch64-apple-darwin"@)
    } else if os == "macos"@ && arch == "x86_64"@ {
        Some("x86_64-apple-darwin"@)
    } else if os == "linux"@ && arch == "x86_64"@ {
        Some("x86_64-unknown-linux-gnu"@)
    } else if os == "windows"@ && arch == "x86_64"@ {
        Some("x86_64-pc-windows-msvc"@)
    } else {
        None
    }
}

/// The release build for this platform; `None` when there is none.
pub fn current_target(os: &str, arch: &str) -> (r: Option<&'static str>)
    ensures
        match r {
            Some(t) => target_for(os@, arch@) == Some(t@),
            None => target_for(os@, arch@) is None,
        },
{
    if str_eq(os, "macos") && str_eq(arch, "aarch64") {
        Some("aarch64-apple-darwin")
    } else if str_eq(os, "macos") && str_eq(arch, "x86_64") {
        Some("x86_64-apple-darwin")
    } else if str_eq(os, "linux") && str_eq(arch, "x86_64") {
        Some("x86_64-unknown-linux-gnu")
    } else if str_eq(os, "windows") && str_eq(arch, "x86_64") {
        Some("x86_64-pc-windows-msvc")
    } else {
        None
    }
}

/// The version of a release tag: the tag without a leading 'v'.
pub open spec fn tag_version(tag: Seq<char>) -> Seq<char> {
    if tag.len() > 0 && tag[0] == 'v' {
        tag.skip(1)
    } else {
        tag
    }
}

/// What the latest release means for this installation.
pub enum ReleaseCheck {
    UpToDate,
    NoAssets,
    NoAssetFor,
    MissingUrl,
    Download { version: String, url: String },
}

/// The version that a release answer announces ("unknown" without a tag).
pub open spec fn release_version(release: Json) -> Seq<char> {
    match text_of(at(Some(release), "tag_name"@)) {
        Some(t) => tag_version(t),
        None => "unknown"@,
    }
}

/// The first asset whose name contains `target`.
pub open spec fn asset_for(assets: Seq<Json>, target: Seq<char>) -> Option<Json>
    decreases assets.len(),
{
    if assets.len() == 0 {
        None
    } else if text_of(at(Some(assets[0]), "name"@)) matches Some(n) && has_substring(n, target) {
        Some(assets[0])
    } else {
        asset_for(assets.skip(1), target)
    }
}

fn version_of(release: &Json) -> (r: String)
    ensures
        r@ == release_version(*release),
{
    match as_str(get(Some(release), "tag_name")) {
        Some(t) => {
            let c = chars_of(t.as_str());
            if c.len() > 0 && c[0] == 'v' {
                let mut rest: Vec<char> = Vec::new();
                let n = c.len();
                for i in 1..n
                    invariant
                        n == c.len(),
                        1 <= n,
                        rest@ == c@.subrange(1, i as int),
                {
                    rest.push(c[i]);
                    assert(c@.subrange(1, i + 1) == c@.subrange(1, i as int).push(c@[i as int]));
                }
                assert(rest@ =~= c@.skip(1));
                string_from_chars(&rest)
            } else {
                t.clone()
            }
        },
        None => String::from_str("unknown"),
    }
}

/// Reads a GitHub "latest release" answer for the build `target`, given
/// the version now installed.
pub fn check_release(release: &Json, target: &str, current: &str) -> (r: ReleaseCheck)
    ensures
        release_version(*release) == current@ <==> r is UpToDate,
        release_version(*release) != current@ ==> match array_of(at(Some(*release), "assets"@)) {
            None => r is NoAssets,
            Some(assets) => match asset_for(assets, target@) {
                None => r is NoAssetFor,
                Some(a) => match text_of(at(Some(a), "browser_download_url"@)) {
                    None => r is MissingUrl,
                    Some(u) => r matches ReleaseCheck::Download { version, url } && version@
                        == release_version(*release) && url@ == u,
                },
            },
        },
{
    let version = version_of(release);
    if str_eq(version.as_str(), current) {
        return ReleaseCheck::UpToDate;
    }
    let assets = match as_array(get(Some(release), "assets")) {
        Some(a) => a,
        None => {
            return ReleaseCheck::NoAssets;
        },
    };
    let n = assets.len();
    let mut i: usize = 0;
    assert(assets@.skip(0) =~= assets@);
    while i < n
        invariant
            n == assets.len(),
            i <= n,
            asset_for(assets@, target@) == asset_for(assets@.skip(i as int), target@),
            version@ == release_version(*release),
            version@ != current@,
            array_of(at(Some(*release), "assets"@)) == Some(assets@),
        decreases n - i,
    {
        assert(assets@.skip(i as int)[0] == assets@[i as int]);
        let matches = match as_str(get(Some(&assets[i]), "name")) {
            Some(name) => str_contains(name.as_str(), target),
            None => false,
        };
        if matches {
            return match as_str(get(Some(&assets[i]), "browser_download_url")) {
                Some(u) => ReleaseCheck::Download { version, url: u.clone() },
                None => ReleaseCheck::MissingUrl,
            };
        }
        assert(assets@.skip(i as int).skip(1) =~= assets@.skip(i + 1));
        i = i + 1;
    }
    ReleaseCheck::NoAssetFor
}

/// The answer confirms: it is `y` or `Y` with only white space (in the
/// sense of `str::trim`) around it.
pub open spec fn confirms(input: Seq<char>) -> bool {
    exists|k: int|
        0 <= k < input.len() && (input[k] == 'y' || input[k] == 'Y') && forall|j: int|
            0 <= j < input.len() && j != k ==> crate::ui::is_space(#[trigger] input[j])
}

/// Whether an answer to "Proceed? [y/N]" confirms.
pub fn is_confirmation(input: &str) -> (r: bool)
    ensures
        r == confirms(input@),
{
    let v = chars_of(input);
    let n = v.len();
    let mut count: usize = 0;
    let mut at: usize = 0;
    for i in 0..n
        invariant
            n == v.len(),
            count <= i,
            count == 0 ==> forall|j: int| 0 <= j < i ==> crate::ui::is_space(#[trigger] v@[j]),
            count == 1 ==> at < i && !crate::ui::is_space(v@[at as int]) && forall|j: int|
                0 <= j < i && j != at ==> crate::ui::is_space(#[trigger] v@[j]),
            count >= 2 ==> exists|a: int, b: int|
                0 <= a < b < i && !crate::ui::is_space(#[trigger] v@[a]) && !crate::ui::is_space(
                    #[trigger] v@[b],
                ),
    {
        if !crate::ui::is_space_exec(v[i]) {
            if count == 1 {
                assert(!crate::ui::is_space(v@[at as int]) && !crate::ui::is_space(v@[i as int]));
            }
            if count < 2 {
                count = count + 1;
            }
            at = i;
        }
    }
    proof {
        reveal_strlit("y");
        assert(!crate::ui::is_space('y') && !crate::ui::is_space('Y')) by {
            assert(('y' as u32) == 121 && ('Y' as u32) == 89);
        }
    }
    if count == 1 && (v[at] == 'y' || v[at] == 'Y') {
        assert(v@[at as int] == input@[at as int]);
        true
    } else {
        if count >= 2 {
            assert(!confirms(input@)) by {
                let (a, b) = choose|a: int, b: int|
                    0 <= a < b < n && !crate::ui::is_space(#[trigger] v@[a]) && !crate::ui::is_space(
                        #[trigger] v@[b],
                    );
                if confirms(input@) {
                    let k = choose|k: int|
                        0 <= k < input@.len() && (input@[k] == 'y' || input@[k] == 'Y') && forall|j: int|
                            0 <= j < input@.len() && j != k ==> crate::ui::is_space(#[trigger] input@[j]);
                    if a != k {
                        assert(crate::ui::is_space(input@[a]));
                    } else {
                        assert(crate::ui::is_space(input@[b]));
                    }
                }
            }
        } else if count == 0 {
            assert(!confirms(input@)) by {
                if confirms(input@) {
                    let k = choose|k: int|
                        0 <= k < input@.len() && (input@[k] == 'y' || input@[k] == 'Y') && forall|j: int|
                            0 <= j < input@.len() && j != k ==> crate::ui::is_space(#[trigger] input@[j]);
                    assert(crate::ui::is_space(v@[k]));
                }
            }
        } else {
            assert(!confirms(input@)) by {
                if confirms(input@) {
                    let k = choose|k: int|
                        0 <= k < input@.len() && (input@[k] == 'y' || input@[k] == 'Y') && forall|j: int|
                            0 <= j < input@.len() && j != k ==> crate::ui::is_space(#[trigger] input@[j]);
                    if k != at {
                        assert(crate::ui::is_space(v@[at as int]));
                    }
                }
            }
        }
        false
    }
}

} // verus!
