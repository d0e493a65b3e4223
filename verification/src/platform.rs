//! Names that depend on the platform: release assets, executables, the release
//! address of a version, and whether SDL2 is installed.

use vstd::prelude::*;
use crate::text::{chars_of, contains_chars, contains_spec, str_equal};
use crate::version::{display_spec, lemma_parse_display, parse_spec, Version, VersionParseError};

verus! {

/// The operating system the launcher was built for.
#[derive(Debug, Clone, Copy, PartialEq, Eq, Structural)]
pub enum TargetOs {
    Windows,
    Linux,
    MacOs,
    Other,
}

/// The processor architecture the launcher was built for.
#[derive(Debug, Clone, Copy, PartialEq, Eq, Structural)]
pub enum TargetArch {
    X86_64,
    Aarch64,
    Other,
}

/// The platform's name in asset names.
pub open spec fn os_name(os: TargetOs) -> Seq<char> {
    match os {
        TargetOs::Windows => "windows"@,
        TargetOs::Linux => "linux"@,
        TargetOs::MacOs => "macos"@,
        TargetOs::Other => "unknown"@,
    }
}

/// The architecture's name in asset names.
pub open spec fn arch_name(arch: TargetArch) -> Seq<char> {
    match arch {
        TargetArch::X86_64 => "x86_64"@,
        TargetArch::Aarch64 => "aarch64"@,
        TargetArch::Other => "unknown"@,
    }
}

/// What ends the name of an executable: `.exe` on Windows, `.app` on macOS.
pub open spec fn executable_suffix(os: TargetOs) -> Seq<char> {
    match os {
        TargetOs::Windows => ".exe"@,
        TargetOs::MacOs => ".app"@,
        _ => ""@,
    }
}

/// The name of the release asset for a platform: `mineplace3d-<os>-<arch><suffix>`.
pub open spec fn asset_name_spec(os: TargetOs, arch: TargetArch) -> Seq<char> {
    "mineplace3d-"@ + os_name(os) + "-"@ + arch_name(arch) + executable_suffix(os)
}

/// The file name of an installed version: its text, then the executable suffix.
pub open spec fn executable_name_spec(v: Version, os: TargetOs) -> Seq<char> {
    display_spec(v) + executable_suffix(os)
}

/// Where the release of a version is described.
pub open spec fn release_url_spec(v: Version) -> Seq<char> {
    "https://api.github.com/repos/Muhtasim-Rasheed/mineplace3d/releases/tags/v"@ + display_spec(v)
}

fn os_name_str(os: TargetOs) -> (r: &'static str)
    ensures
        r@ == os_name(os),
{
    match os {
        TargetOs::Windows => "windows",
        TargetOs::Linux => "linux",
        TargetOs::MacOs => "macos",
        TargetOs::Other => "unknown",
    }
}

fn arch_name_str(arch: TargetArch) -> (r: &'static str)
    ensures
        r@ == arch_name(arch),
{
    match arch {
        TargetArch::X86_64 => "x86_64",
        TargetArch::Aarch64 => "aarch64",
        TargetArch::Other => "unknown",
    }
}

fn executable_suffix_str(os: TargetOs) -> (r: &'static str)
    ensures
        r@ == executable_suffix(os),
{
    match os {
        TargetOs::Windows => ".exe",
        TargetOs::MacOs => ".app",
        _ => "",
    }
}

/// The name of the release asset for a platform.
pub fn asset_name(os: TargetOs, arch: TargetArch) -> (r: String)
    ensures
        r@ == asset_name_spec(os, arch),
{
    let mut r = "mineplace3d-".to_string();
    r.append(os_name_str(os));
    r.append("-");
    r.append(arch_name_str(arch));
    r.append(executable_suffix_str(os));
    r
}

/// The file name of an installed version on a platform.
pub fn executable_name(version: Version, os: TargetOs) -> (r: String)
    ensures
        r@ == executable_name_spec(version, os),
{
    let mut r = version.to_string();
    r.append(executable_suffix_str(os));
    r
}

/// Where the release of a version is described.
pub fn release_url(version: Version) -> (r: String)
    ensures
        r@ == release_url_spec(version),
{
    let mut r = "https://api.github.com/repos/Muhtasim-Rasheed/mineplace3d/releases/tags/v".to_string();
    let text = version.to_string();
    r.append(text.as_str());
    r
}

// ---------------------------------------------------------------------------
// Choosing the asset of a release
// ---------------------------------------------------------------------------

/// An asset of a release as its description lists it: its name and download
/// address, where they are strings.
pub struct ReleaseAsset {
    pub name: Option<String>,
    pub browser_download_url: Option<String>,
}

/// Whether an asset has the name `wanted`.
pub open spec fn asset_named(a: ReleaseAsset, wanted: Seq<char>) -> bool {
    a.name matches Some(n) && n@ == wanted
}

/// The first asset with the name `wanted`.
pub open spec fn first_named(assets: Seq<ReleaseAsset>, wanted: Seq<char>) -> Option<ReleaseAsset>
    decreases assets.len(),
{
    if assets.len() == 0 {
        None
    } else if asset_named(assets[0], wanted) {
        Some(assets[0])
    } else {
        first_named(assets.drop_first(), wanted)
    }
}

pub open spec fn no_asset_message(v: Version) -> Seq<char> {
    "No suitable asset found for version v"@ + display_spec(v)
}

pub open spec fn invalid_url_message(v: Version) -> Seq<char> {
    "Invalid asset download URL for version v"@ + display_spec(v)
}

/// The download address of the asset named `wanted` among the assets of a
/// release (`None` where the description lists none): that of the first asset
/// with that name; an error where there is no such asset, or where its address
/// is not a string.
/// An asset with the wanted name is always found: the one found is named
/// `wanted`, lies in the list, and no asset before it has that name; and none is
/// found exactly when no asset of the list has that name.
pub proof fn lemma_first_named_found(assets: Seq<ReleaseAsset>, wanted: Seq<char>)
    ensures
        first_named(assets, wanted) is None <==> forall|i: int|
            0 <= i < assets.len() ==> !asset_named(#[trigger] assets[i], wanted),
        first_named(assets, wanted) matches Some(a) ==> exists|i: int|
            0 <= i < assets.len() && assets[i] == a && asset_named(a, wanted) && forall|j: int|
                0 <= j < i ==> !asset_named(#[trigger] assets[j], wanted),
    decreases assets.len(),
{
    if assets.len() > 0 {
        let rest = assets.drop_first();
        lemma_first_named_found(rest, wanted);
        if !asset_named(assets[0], wanted) {
            assert forall|i: int| 1 <= i < assets.len() implies assets[i] == rest[i - 1] by {}
            if first_named(rest, wanted) is None {
                assert forall|i: int| 0 <= i < assets.len() implies !asset_named(
                    #[trigger] assets[i],
                    wanted,
                ) by {
                    if i > 0 {
                        assert(assets[i] == rest[i - 1]);
                    }
                }
            } else {
                let a = first_named(rest, wanted)->0;
                let k = choose|k: int|
                    0 <= k < rest.len() && rest[k] == a && asset_named(a, wanted) && forall|j: int|
                        0 <= j < k ==> !asset_named(#[trigger] rest[j], wanted);
                assert(assets[k + 1] == a);
                assert forall|j: int| 0 <= j < k + 1 implies !asset_named(#[trigger] assets[j], wanted) by {
                    if j > 0 {
                        assert(assets[j] == rest[j - 1]);
                    }
                }
                assert(!(forall|i: int| 0 <= i < assets.len() ==> !asset_named(#[trigger] assets[i], wanted)))
                    by {
                    assert(asset_named(assets[k + 1], wanted));
                }
            }
        } else {
            assert(!(forall|i: int| 0 <= i < assets.len() ==> !asset_named(#[trigger] assets[i], wanted)))
                by {
                assert(asset_named(assets[0], wanted));
            }
        }
    }
}

/// The release address of every version is the fixed address of the tags,
/// then `v`, then a text that reads back as that version.
pub proof fn lemma_release_url_tag(v: Version)
    ensures
        release_url_spec(v).len() > 72,
        release_url_spec(v).subrange(0, 72)
            == "https://api.github.com/repos/Muhtasim-Rasheed/mineplace3d/releases/tags/"@,
        release_url_spec(v)[72] == 'v',
        parse_spec(release_url_spec(v).skip(73)) == Ok::<Version, VersionParseError>(v),
{
    reveal_strlit("https://api.github.com/repos/Muhtasim-Rasheed/mineplace3d/releases/tags/");
    reveal_strlit("https://api.github.com/repos/Muhtasim-Rasheed/mineplace3d/releases/tags/v");
    let u = release_url_spec(v);
    let p = "https://api.github.com/repos/Muhtasim-Rasheed/mineplace3d/releases/tags/v"@;
    assert(p.len() == 73);
    assert(u.skip(73) == display_spec(v));
    assert(u.subrange(0, 72) == p.subrange(0, 72));
    assert(p.subrange(0, 72) == "https://api.github.com/repos/Muhtasim-Rasheed/mineplace3d/releases/tags/"@);
    lemma_parse_display(v);
}

/// The file name of a version reads back as that version: the whole name on
/// Linux, and the name without its four-character `.exe` or `.app` on Windows
/// and macOS.
pub proof fn lemma_executable_name_reads_back(v: Version)
    ensures
        parse_spec(executable_name_spec(v, TargetOs::Linux)) == Ok::<Version, VersionParseError>(v),
        executable_name_spec(v, TargetOs::Windows).len() == display_spec(v).len() + 4,
        parse_spec(
            executable_name_spec(v, TargetOs::Windows).take(display_spec(v).len() as int),
        ) == Ok::<Version, VersionParseError>(v),
        executable_name_spec(v, TargetOs::Windows).skip(display_spec(v).len() as int) == seq![
            '.',
            'e',
            'x',
            'e',
        ],
        executable_name_spec(v, TargetOs::MacOs).len() == display_spec(v).len() + 4,
        parse_spec(
            executable_name_spec(v, TargetOs::MacOs).take(display_spec(v).len() as int),
        ) == Ok::<Version, VersionParseError>(v),
        executable_name_spec(v, TargetOs::MacOs).skip(display_spec(v).len() as int) == seq![
            '.',
            'a',
            'p',
            'p',
        ],
{
    reveal_strlit("");
    reveal_strlit(".exe");
    reveal_strlit(".app");
    let d = display_spec(v);
    assert(executable_name_spec(v, TargetOs::Linux) == d);
    assert(executable_name_spec(v, TargetOs::Windows).take(d.len() as int) == d);
    assert(executable_name_spec(v, TargetOs::MacOs).take(d.len() as int) == d);
    lemma_parse_display(v);
}

/// The position of the first asset named `wanted`.
fn first_named_index(list: &Vec<ReleaseAsset>, wanted: &str) -> (r: Option<usize>)
    ensures
        match r {
            Some(i) => i < list@.len() && first_named(list@, wanted@) == Some(list@[i as int]),
            None => first_named(list@, wanted@) is None,
        },
{
    let n = list.len();
    let mut i: usize = 0;
    assert(list@.skip(0) == list@);
    while i < n
        invariant
            n == list@.len(),
            i <= n,
            first_named(list@, wanted@) == first_named(list@.skip(i as int), wanted@),
        decreases n - i,
    {
        let named = match &list[i].name {
            Some(name) => str_equal(name.as_str(), wanted),
            None => false,
        };
        assert(list@.skip(i as int)[0] == list@[i as int]);
        if named {
            return Some(i);
        }
        assert(list@.skip(i as int).drop_first() == list@.skip(i + 1));
        i = i + 1;
    }
    None
}

fn no_asset_error(version: Version) -> (r: String)
    ensures
        r@ == no_asset_message(version),
{
    let mut e = "No suitable asset found for version v".to_string();
    let text = version.to_string();
    e.append(text.as_str());
    e
}

/// The download address of the asset named `wanted` among the assets of a
/// release (`None` where the description lists none): that of the first asset
/// with that name; an error where there is no such asset, or where its address
/// is not a string.
pub fn find_asset_download_url(assets: &Option<Vec<ReleaseAsset>>, wanted: &str, version: Version) -> (r:
    Result<String, String>)
    ensures
        match assets {
            None => r matches Err(e) && e@ == no_asset_message(version),
            Some(list) => match first_named(list@, wanted@) {
                None => r matches Err(e) && e@ == no_asset_message(version),
                Some(a) => match a.browser_download_url {
                    Some(u) => r matches Ok(x) && x@ == u@,
                    None => r matches Err(e) && e@ == invalid_url_message(version),
                },
            },
        },
{
    match assets {
        None => Err(no_asset_error(version)),
        Some(list) => match first_named_index(list, wanted) {
            None => Err(no_asset_error(version)),
            Some(i) => match &list[i].browser_download_url {
                Some(u) => Ok(u.clone()),
                None => {
                    let mut e = "Invalid asset download URL for version v".to_string();
                    let text = version.to_string();
                    e.append(text.as_str());
                    Err(e)
                },
            },
        },
    }
}

// ---------------------------------------------------------------------------
// SDL2
// ---------------------------------------------------------------------------

/// Whether the library listing of `ldconfig -p` shows SDL2: the listing was
/// produced and mentions `libSDL2`.
pub fn sdl2_listed(ldconfig_succeeded: bool, ldconfig_output: &str) -> (r: bool)
    ensures
        r == (ldconfig_succeeded && contains_spec(ldconfig_output@, "libSDL2"@)),
{
    if !ldconfig_succeeded {
        return false;
    }
    let hay = chars_of(ldconfig_output);
    let needle = chars_of("libSDL2");
    contains_chars(&hay, &needle)
}

} // verus!
