//! Coordinates of a gallery version: extension identity, version name and target platform, which
//! of them may stand in a path, and the identities the shared policies key on.

use vstd::prelude::*;

use crate::error::GalleryError;
use crate::text::{chars_of, is_control, is_empty, same_text, to_ascii_lowercase, trim};

verus! {

/// The platform of a build for every platform.
pub open spec fn default_platform() -> Seq<char> {
    "universal"@
}

/// The platform that a client or an upstream means: white space around it and letter case do not
/// count, and no platform is the one for all.
pub open spec fn platform_of(platform: Option<Seq<char>>) -> Seq<char> {
    match platform {
        Some(text) => if crate::text::trimmed(text).len() > 0 {
            crate::text::lowered(crate::text::trimmed(text))
        } else {
            default_platform()
        },
        None => default_platform(),
    }
}

/// The view of an optional borrowed text.
pub open spec fn str_opt(text: Option<&str>) -> Option<Seq<char>> {
    match text {
        Some(text) => Some(text@),
        None => None,
    }
}

/// The platform that a client or an upstream means.
pub fn normal_target_platform(platform: Option<&str>) -> (normal: String)
    ensures
        normal@ == platform_of(str_opt(platform)),
{
    match platform {
        Some(text) => {
            let inner = trim(text);
            if is_empty(inner.as_str()) {
                "universal".to_string()
            } else {
                to_ascii_lowercase(inner.as_str())
            }
        },
        None => "universal".to_string(),
    }
}

/// The identity that policies know an extension by: letter case does not count.
pub open spec fn package_of(publisher: Seq<char>, name: Seq<char>) -> Seq<char> {
    crate::text::lowered(publisher + "."@ + name)
}

/// The identity that policies know an extension by.
pub fn vscode_age_gate_package(publisher: &str, name: &str) -> (package: String)
    ensures
        package@ == package_of(publisher@, name@),
{
    let mut id = publisher.to_string();
    id.append(".");
    id.append(name);
    to_ascii_lowercase(id.as_str())
}

/// The identity that policies know a version by: a build for each platform is its own.
pub open spec fn coordinate_of(version: Seq<char>, platform: Option<Seq<char>>) -> Seq<char> {
    version + "@"@ + platform_of(platform)
}

/// The identity that policies know a version by.
pub fn vscode_age_gate_version(version: &str, target_platform: Option<&str>) -> (coordinate: String)
    ensures
        coordinate@ == coordinate_of(version@, str_opt(target_platform)),
{
    let mut coordinate = version.to_string();
    coordinate.append("@");
    coordinate.append(normal_target_platform(target_platform).as_str());
    coordinate
}

/// The characters that no path segment may hold.
pub open spec fn segment_breaker(c: char) -> bool {
    c == '/' || c == '\\' || c == '?' || c == '#' || crate::text::control(c)
}

/// What may stand as one segment of a URL path or a cache path: neither empty nor a step within
/// the path, at most 255 bytes, and nothing in it that breaks the path.
pub open spec fn safe_segment(value: Seq<char>) -> bool {
    &&& value.len() > 0
    &&& vstd::utf8::encode_utf8(value).len() <= 255
    &&& value != "."@
    &&& value != ".."@
    &&& forall|i: int| 0 <= i < value.len() ==> !segment_breaker(#[trigger] value[i])
}

/// Whether the text may stand as one segment of a URL path or a cache path.
pub fn is_safe_gallery_segment(value: &str) -> (safe: bool)
    ensures
        safe == safe_segment(value@),
{
    let size: usize = value.as_bytes().len();
    proof {
        crate::text::lemma_no_bytes(value@);
    }
    if size == 0 || size > 255 || same_text(value, ".") || same_text(value, "..") {
        return false;
    }
    let chars = chars_of(value);
    let mut i: usize = 0;
    while i < chars.len()
        invariant
            i <= chars@.len(),
            chars@ == value@,
            forall|j: int| 0 <= j < i ==> !segment_breaker(#[trigger] value@[j]),
        decreases chars@.len() - i,
    {
        let c: char = chars[i];
        if c == '/' || c == '\\' || c == '?' || c == '#' || is_control(c) {
            assert(segment_breaker(value@[i as int]));
            return false;
        }
        i += 1;
    }
    true
}

/// The characters of a target platform.
pub open spec fn platform_char(c: char) -> bool {
    'a' <= c <= 'z' || '0' <= c <= '9' || c == '.' || c == '-'
}

/// What may stand as a target platform: up to 64 small letters, digits, dots and hyphens, the
/// first a letter or a digit.
pub open spec fn safe_platform(value: Seq<char>) -> bool {
    &&& 0 < value.len() <= 64
    &&& value[0] != '.' && value[0] != '-'
    &&& forall|i: int| 0 <= i < value.len() ==> platform_char(#[trigger] value[i])
}

/// Whether the text may stand as a target platform.
pub fn is_safe_target_platform(value: &str) -> (safe: bool)
    ensures
        safe == safe_platform(value@),
{
    let chars = chars_of(value);
    let n: usize = chars.len();
    if n == 0 || n > 64 || chars[0] == '.' || chars[0] == '-' {
        return false;
    }
    let mut i: usize = 0;
    while i < n
        invariant
            i <= n == chars@.len(),
            chars@ == value@,
            forall|j: int| 0 <= j < i ==> platform_char(#[trigger] value@[j]),
        decreases n - i,
    {
        let c: char = chars[i];
        if !(('a' <= c && c <= 'z') || ('0' <= c && c <= '9') || c == '.' || c == '-') {
            assert(!platform_char(value@[i as int]));
            return false;
        }
        i += 1;
    }
    true
}

/// Refuses a segment of a request path that may not stand as one.
pub fn validate_gallery_request_segment(value: &str) -> (checked: Result<(), GalleryError>)
    ensures
        checked == (if safe_segment(value@) {
            Ok::<(), GalleryError>(())
        } else {
            Err(GalleryError::InvalidPath)
        }),
{
    if is_safe_gallery_segment(value) {
        Ok(())
    } else {
        Err(GalleryError::InvalidPath)
    }
}

/// Refuses a segment in an upstream's answer that may not stand as one.
pub fn validate_gallery_response_segment(value: &str) -> (checked: Result<(), GalleryError>)
    ensures
        checked == (if safe_segment(value@) {
            Ok::<(), GalleryError>(())
        } else {
            Err(GalleryError::InvalidResponse)
        }),
{
    if is_safe_gallery_segment(value) {
        Ok(())
    } else {
        Err(invalid_gallery_response())
    }
}

/// What is wrong with a platform that may not stand as one.
pub open spec fn platform_error(upstream_response: bool) -> GalleryError {
    if upstream_response {
        GalleryError::InvalidResponse
    } else {
        GalleryError::InvalidTargetPlatform
    }
}

/// Refuses what may not stand as a target platform, in a request or in an upstream's answer.
pub fn validate_target_platform(value: &str, upstream_response: bool) -> (checked: Result<
    (),
    GalleryError,
>)
    ensures
        checked == (if safe_platform(value@) {
            Ok::<(), GalleryError>(())
        } else {
            Err(platform_error(upstream_response))
        }),
{
    if is_safe_target_platform(value) {
        Ok(())
    } else if upstream_response {
        Err(invalid_gallery_response())
    } else {
        Err(GalleryError::InvalidTargetPlatform)
    }
}

/// The error for an upstream's answer without the gallery's shape.
pub fn invalid_gallery_response() -> (error: GalleryError)
    ensures
        error == GalleryError::InvalidResponse,
{
    GalleryError::InvalidResponse
}

/// A platform that was made normal is normal already.
pub proof fn normalizing_a_platform_is_idempotent(platform: Option<Seq<char>>)
    ensures
        platform_of(Some(platform_of(platform))) == platform_of(platform),
{
    reveal_strlit("universal");
    let normal = platform_of(platform);
    match platform {
        Some(text) => {
            crate::text::trimming_is_idempotent(text);
            crate::text::lowering_is_idempotent(crate::text::trimmed(text));
        },
        None => {},
    }
    assert(crate::text::lowered("universal"@) =~= "universal"@);
    assert(crate::text::tight(normal));
    assert(crate::text::trimmed(normal) == normal);
    assert(crate::text::lowered(normal) == normal);
}

/// A platform that may stand in a path is normal.
pub proof fn safe_platforms_are_normal(platform: Seq<char>)
    requires
        safe_platform(platform),
    ensures
        platform_of(Some(platform)) == platform,
{
    assert(platform_char(platform[0]));
    assert(platform_char(platform[platform.len() - 1]));
    assert(crate::text::trimmed(platform) == platform);
    assert(crate::text::lowered(platform) =~= platform);
}

/// Builds whose platforms may stand in a path share a coordinate only where version name and
/// platform are the same: a decision on one never covers another.
pub proof fn coordinates_tell_builds_apart(
    version: Seq<char>,
    platform: Option<Seq<char>>,
    other_version: Seq<char>,
    other_platform: Option<Seq<char>>,
)
    requires
        safe_platform(platform_of(platform)),
        safe_platform(platform_of(other_platform)),
        coordinate_of(version, platform) == coordinate_of(other_version, other_platform),
    ensures
        version == other_version,
        platform_of(platform) == platform_of(other_platform),
{
    reveal_strlit("@");
    assert("@"@ =~= seq!['@']);
    lemma_no_at(platform_of(platform));
    lemma_no_at(platform_of(other_platform));
    crate::text::lemma_cut_at_last(
        version,
        platform_of(platform),
        other_version,
        platform_of(other_platform),
        '@',
    );
}

proof fn lemma_no_at(platform: Seq<char>)
    requires
        safe_platform(platform),
    ensures
        !platform.contains('@'),
{
    if platform.contains('@') {
        let i = choose|i: int| 0 <= i < platform.len() && platform[i] == '@';
        assert(platform_char(platform[i]));
    }
}

/// Letter case does not tell extensions apart.
pub proof fn packages_ignore_letter_case(publisher: Seq<char>, name: Seq<char>)
    ensures
        package_of(crate::text::lowered(publisher), crate::text::lowered(name)) == package_of(
            publisher,
            name,
        ),
{
    reveal_strlit(".");
    let small = crate::text::lowered(publisher) + "."@ + crate::text::lowered(name);
    let whole = publisher + "."@ + name;
    assert(crate::text::lowered(small) =~= crate::text::lowered(whole));
}

} // verus!
