//! Laws on addresses: the segments of every URL, path and key that is made here, and what of a
//! request or a repository is refused one.

use vstd::prelude::*;

use crate::error::GalleryError;
use crate::repository::RepoInfo;

verus! {

/// The parts, each behind a slash.
pub open spec fn slashed(parts: Seq<Seq<char>>) -> Seq<char>
    decreases parts.len(),
{
    if parts.len() == 0 {
        Seq::empty()
    } else {
        slashed(parts.drop_last()) + seq!['/'] + parts.last()
    }
}

proof fn lemma_slashed(parts: Seq<Seq<char>>, part: Seq<char>)
    ensures
        slashed(parts.push(part)) == slashed(parts) + seq!['/'] + part,
{
    assert(parts.push(part).drop_last() =~= parts);
}

/// The segments of a build: publisher, name, version and platform, each percent-encoded.
pub open spec fn build_segments(
    publisher: Seq<char>,
    name: Seq<char>,
    version: Seq<char>,
    platform: Seq<char>,
) -> Seq<Seq<char>> {
    seq![
        crate::percent::encoded(publisher),
        crate::percent::encoded(name),
        crate::percent::encoded(version),
        crate::percent::encoded(platform),
    ]
}

proof fn lemma_build_segments(
    publisher: Seq<char>,
    name: Seq<char>,
    version: Seq<char>,
    platform: Seq<char>,
)
    ensures
        slashed(build_segments(publisher, name, version, platform)) == seq!['/']
            + crate::urls::coordinate_path(publisher, name, version, platform),
{
    reveal_strlit("/");
    assert("/"@ =~= seq!['/']);
    let parts = build_segments(publisher, name, version, platform);
    lemma_four(parts[0], parts[1], parts[2], parts[3]);
    assert(slashed(parts) =~= seq!['/'] + crate::urls::coordinate_path(
        publisher,
        name,
        version,
        platform,
    ));
}

proof fn lemma_two(a: Seq<char>, b: Seq<char>)
    ensures
        slashed(seq![a, b]) == seq!['/'] + a + seq!['/'] + b,
{
    let none = Seq::<Seq<char>>::empty();
    lemma_slashed(none, a);
    lemma_slashed(none.push(a), b);
    assert(seq![a, b] =~= none.push(a).push(b));
    assert(slashed(none) + seq!['/'] + a =~= seq!['/'] + a);
}

proof fn lemma_four(a: Seq<char>, b: Seq<char>, c: Seq<char>, d: Seq<char>)
    ensures
        slashed(seq![a, b, c, d]) == seq!['/'] + a + seq!['/'] + b + seq!['/'] + c + seq!['/'] + d,
{
    lemma_two(a, b);
    lemma_slashed(seq![a, b], c);
    lemma_slashed(seq![a, b].push(c), d);
    assert(seq![a, b, c, d] =~= seq![a, b].push(c).push(d));
}

proof fn lemma_joined(front: Seq<Seq<char>>, back: Seq<Seq<char>>)
    ensures
        slashed(front + back) == slashed(front) + slashed(back),
    decreases back.len(),
{
    if back.len() == 0 {
        assert(front + back =~= front);
        assert(slashed(front) + slashed(back) =~= slashed(front));
    } else {
        lemma_joined(front, back.drop_last());
        assert((front + back).drop_last() =~= front + back.drop_last());
        assert((front + back).last() == back.last());
        assert(slashed(front + back) =~= slashed(front) + slashed(back));
    }
}

/// Where the assets of a build are served: under the server, the repository and the build.
pub open spec fn build_root(
    base_url: Seq<char>,
    repo_key: Seq<char>,
    publisher: Seq<char>,
    name: Seq<char>,
    version: Seq<char>,
    platform: Seq<char>,
) -> Seq<char> {
    crate::text::without_trailing(base_url, '/') + slashed(
        seq!["vscode"@, crate::percent::encoded(repo_key), "asset"@] + build_segments(
            publisher,
            name,
            version,
            platform,
        ),
    )
}

/// The assets of a build are served under the server, the repository and the build, each part of
/// it one segment. A build that an upstream reports has an address exactly where its version and
/// its platform may stand in one.
pub proof fn assets_are_served_under_their_build(
    base_url: Seq<char>,
    repo_key: Seq<char>,
    publisher: Seq<char>,
    name: Seq<char>,
    version: Seq<char>,
    platform: Seq<char>,
)
    ensures
        crate::urls::asset_root(base_url, repo_key, publisher, name, version, platform)
            == build_root(base_url, repo_key, publisher, name, version, platform),
        match crate::urls::version_asset_root(
            base_url,
            repo_key,
            publisher,
            name,
            version,
            platform,
        ) {
            Ok(root) => {
                &&& root == build_root(base_url, repo_key, publisher, name, version, platform)
                &&& crate::coordinate::safe_segment(version)
                &&& crate::coordinate::safe_platform(platform)
            },
            Err(error) => {
                &&& error == GalleryError::InvalidResponse
                &&& !(crate::coordinate::safe_segment(version) && crate::coordinate::safe_platform(
                    platform,
                ))
            },
        },
{
    reveal_strlit("/vscode/");
    reveal_strlit("vscode");
    reveal_strlit("/asset/");
    reveal_strlit("asset");
    let repo = crate::percent::encoded(repo_key);
    let front = seq!["vscode"@, repo, "asset"@];
    let back = build_segments(publisher, name, version, platform);
    lemma_two("vscode"@, repo);
    lemma_slashed(seq!["vscode"@, repo], "asset"@);
    assert(front =~= seq!["vscode"@, repo].push("asset"@));
    lemma_joined(front, back);
    lemma_build_segments(publisher, name, version, platform);
    assert("/vscode/"@ =~= seq!['/'] + "vscode"@ + seq!['/']);
    assert("/asset/"@ =~= seq!['/'] + "asset"@ + seq!['/']);
    assert(crate::urls::asset_root(base_url, repo_key, publisher, name, version, platform)
        =~= build_root(base_url, repo_key, publisher, name, version, platform));
}

/// The gallery of a repository stands under the server and the repository, and its page under the
/// repositories; a hosted package is downloaded under the server's own path.
pub proof fn repositories_have_their_addresses(
    base_url: Seq<char>,
    repo_key: Seq<char>,
    publisher: Seq<char>,
    name: Seq<char>,
    version: Seq<char>,
)
    ensures
        crate::urls::gallery_root(base_url, repo_key) == crate::text::without_trailing(
            base_url,
            '/',
        ) + slashed(seq!["vscode"@, crate::percent::encoded(repo_key), "gallery"@]),
        crate::urls::item_page(repo_key) == slashed(
            seq!["repositories"@, crate::percent::encoded(repo_key)],
        ),
        crate::urls::download_url(repo_key, publisher, name, version) == slashed(
            seq!["vscode"@, repo_key, "extensions"@, publisher] + seq![name, version, "download"@],
        ),
{
    reveal_strlit("/vscode/");
    reveal_strlit("vscode");
    reveal_strlit("/gallery");
    reveal_strlit("gallery");
    reveal_strlit("/repositories/");
    reveal_strlit("repositories");
    reveal_strlit("/extensions/");
    reveal_strlit("extensions");
    reveal_strlit("/download");
    reveal_strlit("download");
    reveal_strlit("/");
    assert("/"@ =~= seq!['/']);
    let repo = crate::percent::encoded(repo_key);
    lemma_two("vscode"@, repo);
    lemma_slashed(seq!["vscode"@, repo], "gallery"@);
    assert(seq!["vscode"@, repo, "gallery"@] =~= seq!["vscode"@, repo].push("gallery"@));
    assert("/vscode/"@ =~= seq!['/'] + "vscode"@ + seq!['/']);
    assert("/gallery"@ =~= seq!['/'] + "gallery"@);
    assert(crate::urls::gallery_root(base_url, repo_key) =~= crate::text::without_trailing(
        base_url,
        '/',
    ) + slashed(seq!["vscode"@, repo, "gallery"@]));
    lemma_two("repositories"@, repo);
    assert("/repositories/"@ =~= seq!['/'] + "repositories"@ + seq!['/']);
    assert(crate::urls::item_page(repo_key) =~= slashed(seq!["repositories"@, repo]));
    let front = seq!["vscode"@, repo_key, "extensions"@, publisher];
    let back = seq![name, version, "download"@];
    lemma_four("vscode"@, repo_key, "extensions"@, publisher);
    lemma_two(name, version);
    lemma_slashed(seq![name, version], "download"@);
    assert(back =~= seq![name, version].push("download"@));
    lemma_joined(front, back);
    assert("/extensions/"@ =~= seq!['/'] + "extensions"@ + seq!['/']);
    assert("/download"@ =~= seq!['/'] + "download"@);
    assert(crate::urls::download_url(repo_key, publisher, name, version) =~= slashed(
        front + back,
    ));
}

/// A stored package is known by publisher, dot and name; its file adds the version; and it is kept
/// under its publisher and its name.
pub proof fn packages_are_kept_under_their_names(
    publisher: Seq<char>,
    name: Seq<char>,
    version: Seq<char>,
)
    ensures
        crate::urls::extension_id(publisher, name) == publisher + seq!['.'] + name,
        crate::urls::vsix_filename(publisher, name, version) == publisher + seq!['.'] + name
            + seq!['-'] + version + ".vsix"@,
        crate::urls::artifact_path(publisher, name, version) == publisher + slashed(
            seq![name, publisher + seq!['.'] + name + seq!['-'] + version + ".vsix"@],
        ),
{
    reveal_strlit(".");
    reveal_strlit("-");
    reveal_strlit("/");
    assert("."@ =~= seq!['.']);
    assert("-"@ =~= seq!['-']);
    assert("/"@ =~= seq!['/']);
    let file = publisher + seq!['.'] + name + seq!['-'] + version + ".vsix"@;
    lemma_two(name, file);
    assert(crate::urls::artifact_path(publisher, name, version) =~= publisher + slashed(
        seq![name, file],
    ));
}

/// An upstream without platforms serves a package under publisher, name and version, exactly where
/// each of them may stand in a path.
pub proof fn legacy_packages_have_one_path(
    publisher: Seq<char>,
    name: Seq<char>,
    version: Seq<char>,
)
    ensures
        match crate::urls::legacy_path(publisher, name, version) {
            Ok(path) => {
                &&& crate::coordinate::safe_segment(publisher)
                &&& crate::coordinate::safe_segment(name)
                &&& crate::coordinate::safe_segment(version)
                &&& path == "extensions"@ + slashed(
                    seq![
                        crate::percent::encoded(publisher),
                        crate::percent::encoded(name),
                        crate::percent::encoded(version),
                        "download"@,
                    ],
                )
            },
            Err(error) => {
                &&& error == GalleryError::InvalidPath
                &&& !(crate::coordinate::safe_segment(publisher) && crate::coordinate::safe_segment(
                    name,
                ) && crate::coordinate::safe_segment(version))
            },
        },
{
    reveal_strlit("extensions/");
    reveal_strlit("extensions");
    reveal_strlit("/download");
    reveal_strlit("download");
    reveal_strlit("/");
    assert("/"@ =~= seq!['/']);
    assert("extensions/"@ =~= "extensions"@ + seq!['/']);
    assert("/download"@ =~= seq!['/'] + "download"@);
    lemma_four(
        crate::percent::encoded(publisher),
        crate::percent::encoded(name),
        crate::percent::encoded(version),
        "download"@,
    );
    if let Ok(path) = crate::urls::legacy_path(publisher, name, version) {
        assert(path =~= "extensions"@ + slashed(
            seq![
                crate::percent::encoded(publisher),
                crate::percent::encoded(name),
                crate::percent::encoded(version),
                "download"@,
            ],
        ));
    }
}

/// A package and each of its assets are kept under the gallery and their build, the package under
/// one name and an asset under the digest of its type.
pub proof fn builds_are_kept_apart_by_segment(
    publisher: Seq<char>,
    name: Seq<char>,
    version: Seq<char>,
    platform: Seq<char>,
    asset_type: Seq<char>,
)
    ensures
        crate::urls::package_cache_path(publisher, name, version, platform) == "gallery"@ + slashed(
            build_segments(publisher, name, version, platform).push("vspackage"@),
        ),
        crate::urls::asset_cache_path(publisher, name, version, platform, asset_type) == "gallery"@
            + slashed(
            build_segments(publisher, name, version, platform).push(
                "asset-"@ + crate::urls::sha256_text(vstd::utf8::encode_utf8(asset_type)),
            ),
        ),
{
    reveal_strlit("gallery/");
    reveal_strlit("gallery");
    reveal_strlit("/vspackage");
    reveal_strlit("vspackage");
    reveal_strlit("/asset-");
    reveal_strlit("asset-");
    assert("gallery/"@ =~= "gallery"@ + seq!['/']);
    assert("/vspackage"@ =~= seq!['/'] + "vspackage"@);
    assert("/asset-"@ =~= seq!['/'] + "asset-"@);
    let parts = build_segments(publisher, name, version, platform);
    let digest = "asset-"@ + crate::urls::sha256_text(vstd::utf8::encode_utf8(asset_type));
    lemma_build_segments(publisher, name, version, platform);
    lemma_slashed(parts, "vspackage"@);
    lemma_slashed(parts, digest);
    assert(crate::urls::package_cache_path(publisher, name, version, platform) =~= "gallery"@
        + slashed(parts.push("vspackage"@)));
    assert(crate::urls::asset_cache_path(publisher, name, version, platform, asset_type)
        =~= "gallery"@ + slashed(parts.push(digest)));
}

/// An upstream serves a whole package under its gallery root, and is asked for the platform.
pub proof fn packages_are_fetched_for_their_platform(
    gallery_url: Seq<char>,
    publisher: Seq<char>,
    name: Seq<char>,
    version: Seq<char>,
    platform: Seq<char>,
)
    ensures
        crate::urls::upstream_package(gallery_url, publisher, name, version, platform)
            == crate::text::without_trailing(gallery_url, '/') + slashed(
            seq![
                "publishers"@,
                crate::percent::encoded(publisher),
                "vsextensions"@,
                crate::percent::encoded(name),
            ] + seq![crate::percent::encoded(version), "vspackage"@],
        ) + "?targetPlatform="@ + crate::percent::encoded(platform),
{
    reveal_strlit("/publishers/");
    reveal_strlit("publishers");
    reveal_strlit("/vsextensions/");
    reveal_strlit("vsextensions");
    reveal_strlit("/vspackage?targetPlatform=");
    reveal_strlit("vspackage");
    reveal_strlit("?targetPlatform=");
    reveal_strlit("/");
    assert("/"@ =~= seq!['/']);
    let p = crate::percent::encoded(publisher);
    let n = crate::percent::encoded(name);
    let v = crate::percent::encoded(version);
    assert("/publishers/"@ =~= seq!['/'] + "publishers"@ + seq!['/']);
    assert("/vsextensions/"@ =~= seq!['/'] + "vsextensions"@ + seq!['/']);
    assert("/vspackage?targetPlatform="@ =~= seq!['/'] + "vspackage"@ + "?targetPlatform="@);
    let front = seq!["publishers"@, p, "vsextensions"@, n];
    let back = seq![v, "vspackage"@];
    lemma_four("publishers"@, p, "vsextensions"@, n);
    lemma_two(v, "vspackage"@);
    lemma_joined(front, back);
    assert(crate::urls::upstream_package(gallery_url, publisher, name, version, platform)
        =~= crate::text::without_trailing(gallery_url, '/') + slashed(front + back)
        + "?targetPlatform="@ + crate::percent::encoded(platform));
}

/// An upstream serves an asset beside its gallery root: under `root`, where its URL is `root` and
/// the segment `gallery`. One without that segment serves none.
pub proof fn assets_are_fetched_beside_the_gallery(
    gallery_url: Seq<char>,
    root: Seq<char>,
    publisher: Seq<char>,
    name: Seq<char>,
    version: Seq<char>,
    asset_type: Seq<char>,
    platform: Seq<char>,
)
    ensures
        ({
            let url = crate::urls::upstream_asset(
                gallery_url,
                publisher,
                name,
                version,
                asset_type,
                platform,
            );
            let whole = crate::text::without_trailing(gallery_url, '/');
            &&& whole == root + slashed(seq!["gallery"@]) ==> url == Ok::<Seq<char>, GalleryError>(
                root + slashed(
                    seq!["asset"@].push(crate::percent::encoded(publisher)).push(
                        crate::percent::encoded(name),
                    ).push(crate::percent::encoded(version)).push(
                        crate::percent::encoded(asset_type),
                    ),
                ) + "?targetPlatform="@ + crate::percent::encoded(platform),
            )
            &&& !slashed(seq!["gallery"@]).is_suffix_of(whole) ==> url == Err::<
                Seq<char>,
                GalleryError,
            >(GalleryError::NoAssetEndpoint)
        }),
{
    reveal_strlit("/gallery");
    reveal_strlit("gallery");
    reveal_strlit("/asset/");
    reveal_strlit("asset");
    reveal_strlit("/");
    assert("/"@ =~= seq!['/']);
    let none = Seq::<Seq<char>>::empty();
    lemma_slashed(none, "gallery"@);
    lemma_slashed(none, "asset"@);
    assert(seq!["gallery"@] =~= none.push("gallery"@));
    assert(seq!["asset"@] =~= none.push("asset"@));
    assert(slashed(seq!["gallery"@]) =~= "/gallery"@);
    assert("/asset/"@ =~= slashed(seq!["asset"@]) + seq!['/']);
    let p = crate::percent::encoded(publisher);
    let n = crate::percent::encoded(name);
    let v = crate::percent::encoded(version);
    let t = crate::percent::encoded(asset_type);
    lemma_slashed(seq!["asset"@], p);
    lemma_slashed(seq!["asset"@].push(p), n);
    lemma_slashed(seq!["asset"@].push(p).push(n), v);
    lemma_slashed(seq!["asset"@].push(p).push(n).push(v), t);
    let whole = crate::text::without_trailing(gallery_url, '/');
    let url = crate::urls::upstream_asset(
        gallery_url,
        publisher,
        name,
        version,
        asset_type,
        platform,
    );
    if whole == root + slashed(seq!["gallery"@]) {
        assert(whole.take(whole.len() - "/gallery"@.len()) =~= root);
        assert(whole.skip(whole.len() - "/gallery"@.len()) =~= "/gallery"@);
        assert(crate::text::has_suffix(whole, "/gallery"@));
        assert(url->Ok_0 =~= root + slashed(
            seq!["asset"@].push(p).push(n).push(v).push(t),
        ) + "?targetPlatform="@ + crate::percent::encoded(platform));
    }
    if crate::text::has_suffix(whole, "/gallery"@) {
        assert("/gallery"@.is_suffix_of(whole)) by {
            crate::words::suffixes_end_a_text(whole, "/gallery"@);
        }
    }
}

/// The gallery is served for a Remote repository that is public and has an upstream whose URL ends
/// in `/vscode/gallery`, slashes behind it aside; each lack has its own answer, in this order.
pub proof fn galleries_need_a_public_remote_upstream(repo: RepoInfo, is_public: Option<bool>)
    ensures
        match crate::urls::upstream_of(repo, is_public) {
            Ok(url) => {
                &&& repo.repo_type@ == "remote"@
                &&& is_public == Some(true)
                &&& match repo.upstream_url {
                    Some(configured) => url == configured@,
                    None => false,
                }
                &&& "/vscode/gallery"@.is_suffix_of(crate::text::without_trailing(url, '/'))
            },
            Err(error) => {
                &&& error == GalleryError::UnsupportedRepositoryType <==> repo.repo_type@
                    != "remote"@
                &&& error == GalleryError::RepositoryNotFound <==> repo.repo_type@ == "remote"@
                    && is_public is None
                &&& error == GalleryError::PrivateRepository <==> repo.repo_type@ == "remote"@
                    && is_public == Some(false)
                &&& error == GalleryError::MissingUpstream <==> repo.repo_type@ == "remote"@
                    && is_public == Some(true) && repo.upstream_url is None
                &&& error == GalleryError::InvalidUpstream <==> repo.repo_type@ == "remote"@
                    && is_public == Some(true) && repo.upstream_url is Some
                    && !"/vscode/gallery"@.is_suffix_of(
                    crate::text::without_trailing(repo.upstream_url->Some_0@, '/'),
                )
                &&& repo.repo_type@ == "remote"@ && is_public == Some(true) && repo.upstream_url
                    is Some ==> error == GalleryError::InvalidUpstream
            },
        },
        repo.remote() <==> repo.repo_type@ == "remote"@,
        repo.aggregate() <==> repo.repo_type@ == "virtual"@,
{
    if let Some(url) = repo.upstream_url {
        crate::words::suffixes_end_a_text(
            crate::text::without_trailing(url@, '/'),
            "/vscode/gallery"@,
        );
    }
}

/// A request for a build is refused exactly where a part of it may not stand in a path, or where
/// its platform is none; the first of these is what is answered.
pub proof fn requests_name_a_build(
    publisher: Seq<char>,
    name: Seq<char>,
    version: Seq<char>,
    platform: Seq<char>,
    asset_type: Option<Seq<char>>,
)
    ensures
        ({
            let refused = crate::urls::request_error(
                publisher,
                name,
                version,
                platform,
                asset_type,
            );
            let parts = seq![publisher, name, version, platform];
            let pathless = {
                ||| exists|i: int| 0 <= i < 4 && !crate::coordinate::safe_segment(
                    #[trigger] parts[i],
                )
                ||| match asset_type {
                    Some(asset_type) => !crate::coordinate::safe_segment(asset_type),
                    None => false,
                }
            };
            &&& refused == Some(GalleryError::InvalidPath) <==> pathless
            &&& refused == Some(GalleryError::InvalidTargetPlatform) <==> !pathless
                && !crate::coordinate::safe_platform(platform)
            &&& refused is None <==> !pathless && crate::coordinate::safe_platform(platform)
        }),
{
    let parts = seq![publisher, name, version, platform];
    assert(parts[0] == publisher);
    assert(parts[1] == name);
    assert(parts[2] == version);
    assert(parts[3] == platform);
}

/// Encoding goes byte by byte. A letter, a digit and each of `-._~` stand for themselves; any other
/// byte is a percent sign and two hexadecimal digits, capital ones.
pub proof fn encoding_goes_byte_by_byte(front: Seq<u8>, back: Seq<u8>, byte: u8)
    ensures
        crate::percent::encoded_bytes(front + back) == crate::percent::encoded_bytes(front)
            + crate::percent::encoded_bytes(back),
        ({
            let c = byte as char;
            let written = crate::percent::encoded_bytes(seq![byte]);
            if ('0' <= c <= '9') || ('A' <= c <= 'Z') || ('a' <= c <= 'z') || c == '-' || c == '.'
                || c == '_' || c == '~' {
                written == seq![c]
            } else {
                written == seq![
                    '%',
                    "0123456789ABCDEF"@[byte as int / 16],
                    "0123456789ABCDEF"@[byte as int % 16],
                ]
            }
        }),
    decreases front.len(),
{
    reveal_strlit("0123456789ABCDEF");
    reveal_with_fuel(crate::percent::encoded_bytes, 2);
    assert(seq![byte].drop_first() =~= Seq::empty());
    assert(crate::percent::encoded_bytes(seq![byte]) =~= crate::percent::encoded_byte(byte));
    if front.len() == 0 {
        assert(front + back =~= back);
        assert(crate::percent::encoded_bytes(front) + crate::percent::encoded_bytes(back)
            =~= crate::percent::encoded_bytes(back));
    } else {
        encoding_goes_byte_by_byte(front.drop_first(), back, byte);
        assert((front + back).drop_first() =~= front.drop_first() + back);
        assert(crate::percent::encoded_bytes(front + back) =~= crate::percent::encoded_bytes(front)
            + crate::percent::encoded_bytes(back));
    }
}

/// What is not found is answered as such; what the client got wrong, what is in the way of a
/// publication, what the upstream got wrong, and what is not there to answer have a status each;
/// and no other error has it.
pub proof fn errors_say_whose_they_are(error: GalleryError)
    ensures
        ({
            let status = crate::error::error_status(error);
            &&& status == 404 <==> error == GalleryError::RepositoryNotFound || error
                == GalleryError::ExtensionNotFound || error == GalleryError::VersionNotFound
            &&& status == 403 <==> error == GalleryError::PrivateRepository
            &&& status == 409 <==> error == GalleryError::VersionExists
            &&& status == 501 <==> error == GalleryError::UnsupportedRepositoryType
            &&& status == 502 <==> error == GalleryError::MissingUpstream || error
                == GalleryError::InvalidUpstream || error == GalleryError::NoAssetEndpoint || error
                == GalleryError::InvalidResponse || error == GalleryError::ResponseTooLarge || error
                == GalleryError::MalformedJson
            &&& status == 503 <==> error == GalleryError::ProxyUnavailable || error
                == GalleryError::MetadataGateUnavailable || error
                == GalleryError::AssetGateUnavailable || error
                == GalleryError::LegacyGateUnavailable
            &&& status == 400 || status == 403 || status == 404 || status == 409 || status == 501
                || status == 502 || status == 503
        }),
{
}

/// An error is answered with a text or, where the age gate is not there, with the surface that is
/// withheld, and never with both. The text on a repository of another type names it and its type;
/// the one on a private repository names it and where its extensions are.
pub proof fn errors_say_what_they_are_about(error: GalleryError, repo: RepoInfo)
    ensures
        crate::error::error_text(error, repo) is Some <==> crate::error::withheld_surface(
            error,
        ) is None,
        crate::error::withheld_surface(error) is Some <==> error
            == GalleryError::MetadataGateUnavailable || error == GalleryError::AssetGateUnavailable
            || error == GalleryError::LegacyGateUnavailable,
        match crate::error::error_text(error, repo) {
            Some(text) => {
                &&& error == GalleryError::UnsupportedRepositoryType ==> exists|
                    before: Seq<char>,
                    after: Seq<char>,
                |
                    text == #[trigger] (before + repo.key@ + " is "@ + repo.repo_type@ + after)
                &&& error == GalleryError::PrivateRepository ==> exists|
                    before: Seq<char>,
                    after: Seq<char>,
                |
                    text == #[trigger] (before + repo.key@ + " is private."@ + after)
                &&& error == GalleryError::PrivateRepository ==> exists|
                    before: Seq<char>,
                    after: Seq<char>,
                |
                    text == #[trigger] (before + "/vscode/"@ + repo.key@ + "/extensions/"@ + after)
            },
            None => true,
        },
{
    if let Some(text) = crate::error::error_text(error, repo) {
        if error == GalleryError::UnsupportedRepositoryType {
            assert(text =~= "VS Code gallery routes require a Remote repository ("@ + repo.key@
                + " is "@ + repo.repo_type@ + ")"@);
        }
        if error == GalleryError::PrivateRepository {
            reveal_strlit(
                " is private. Gallery clients cannot present a credential, so private galleries are not supported. Make the repository public or use the /vscode/",
            );
            reveal_strlit("/extensions/... routes.");
            reveal_strlit(" is private.");
            reveal_strlit("/vscode/");
            reveal_strlit("/extensions/");
            let start = "VS Code gallery routes are public-only: repository "@;
            let middle =
                " is private. Gallery clients cannot present a credential, so private galleries are not supported. Make the repository public or use the /vscode/"@;
            let end = "/extensions/... routes."@;
            assert(text == start + repo.key@ + middle + repo.key@ + end);
            let rest = middle.skip(12);
            assert(middle =~= " is private."@ + rest);
            assert(text =~= start + repo.key@ + " is private."@ + (rest + repo.key@ + end));
            let most = middle.take(middle.len() - 8);
            assert(middle =~= most + "/vscode/"@);
            let tail = end.skip(12);
            assert(end =~= "/extensions/"@ + tail);
            assert(text =~= (start + repo.key@ + most) + "/vscode/"@ + repo.key@ + "/extensions/"@
                + tail);
        }
    }
}

/// What an error says does not depend on the repository, unless it is about its type or that it is
/// private; and each says what it is.
pub proof fn errors_say_what_they_are(error: GalleryError, repo: RepoInfo, other: RepoInfo)
    ensures
        error != GalleryError::UnsupportedRepositoryType && error != GalleryError::PrivateRepository
            ==> crate::error::error_text(error, repo) == crate::error::error_text(error, other),
        match crate::error::error_text(error, repo) {
            Some(text) => match error {
                GalleryError::RepositoryNotFound => text == "Repository not found"@,
                GalleryError::MissingUpstream => text
                    == "Remote VS Code repository is missing its Open VSX gallery upstream URL"@,
                GalleryError::InvalidUpstream => text
                    == "Remote VS Code upstream URL must end in /vscode/gallery"@,
                GalleryError::NoAssetEndpoint => text
                    == "Open VSX upstream URL must end in /vscode/gallery"@,
                GalleryError::InvalidPath => text == "Invalid VS Code gallery path"@,
                GalleryError::InvalidTargetPlatform => text == "Invalid VS Code target platform"@,
                GalleryError::InvalidQueryJson => text == "Invalid VS Code gallery query JSON"@,
                GalleryError::InvalidResponse => text
                    == "Open VSX gallery returned an invalid extensionquery response"@,
                GalleryError::ResponseTooLarge => text
                    == "Open VSX gallery response exceeded the gateway's buffered-metadata ceiling"@,
                GalleryError::MalformedJson => text == "Open VSX gallery returned malformed JSON"@,
                GalleryError::ProxyUnavailable => text == "Proxy service is unavailable"@,
                GalleryError::ExtensionNotFound => text == "Extension not found"@,
                GalleryError::VersionNotFound => text == "Extension version not found"@,
                GalleryError::EmptyPackage => text == "Empty VSIX file"@,
                GalleryError::MissingPublisher => text == "Missing x-publisher header"@,
                GalleryError::MissingExtensionName => text == "Missing x-extension-name header"@,
                GalleryError::MissingExtensionVersion => text
                    == "Missing x-extension-version header"@,
                GalleryError::VersionExists => text == "Extension version already exists"@,
                _ => true,
            },
            None => true,
        },
        match crate::error::withheld_surface(error) {
            Some(surface) => match error {
                GalleryError::MetadataGateUnavailable => surface == "VS Code gallery metadata"@,
                GalleryError::AssetGateUnavailable => surface == "VS Code gallery asset"@,
                GalleryError::LegacyGateUnavailable => surface
                    == "VS Code legacy extension download (use the /gallery/... routes)"@,
                _ => false,
            },
            None => true,
        },
{
}

} // verus!
