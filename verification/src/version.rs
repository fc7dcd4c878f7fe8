//! The versions of the server and of its files.

use vstd::prelude::*;

use crate::fingerprint;
use crate::http::{BodyType, Caching, Reply, ReplyView};
use crate::json;
use crate::json::{Json, JsonView};
use crate::static_assets::{FileView, StaticAssets};
use crate::text;

verus! {

/// The version of the server.
pub const BACKEND_VERSION: &'static str = "0.1.0";

/// The version of the server.
pub fn backend_version() -> (r: &'static str)
    ensures
        r@ == BACKEND_VERSION@,
{
    BACKEND_VERSION
}

/// The version of the browser's files: their fingerprint, which is what their
/// `version.txt` holds once they have been stamped.
pub fn frontend_version(assets: &StaticAssets) -> (r: String)
    ensures
        r@ == fingerprint::fingerprint(assets@),
        r@.len() == 16,
        forall|i: int| 0 <= i < r@.len() ==> fingerprint::is_hex(#[trigger] r@[i]),
        fingerprint::is_stamped(assets@) ==> assets.file("version.txt"@) == Some(text::utf8(r@)),
{
    proof {
        if fingerprint::is_stamped(assets@) {
            let v = choose|v: Seq<FileView>| assets@ == #[trigger] fingerprint::stamped(v);
            fingerprint::law_stamp_is_the_fingerprint(v);
        }
    }
    assets.fingerprint()
}

/// The two versions.
#[derive(Debug, Clone, PartialEq, Eq)]
pub struct VersionInfo {
    pub backend: String,
    pub frontend: String,
}

/// The versions as JSON.
pub open spec fn version_data(backend: Seq<char>, frontend: Seq<char>) -> JsonView {
    JsonView::Object(
        map!["backend"@ => JsonView::Str(backend), "frontend"@ => JsonView::Str(frontend)],
    )
}

impl VersionInfo {
    /// The versions of this server with these files.
    pub fn current(assets: &StaticAssets) -> (r: Self)
        ensures
            r.backend@ == BACKEND_VERSION@,
            r.frontend@ == fingerprint::fingerprint(assets@),
            fingerprint::is_stamped(assets@) ==> assets.file("version.txt"@) == Some(
                text::utf8(r.frontend@),
            ),
    {
        VersionInfo {
            backend: text::own(backend_version()),
            frontend: frontend_version(assets),
        }
    }

    /// The versions as JSON.
    pub fn to_json(&self) -> (r: Json)
        ensures
            r@ == version_data(self.backend@, self.frontend@),
    {
        let mut j = Json::object();
        j.set("backend", Json::text(self.backend.as_str()));
        j.set("frontend", Json::text(self.frontend.as_str()));
        j
    }
}

/// Answer a question for the versions; no cache is to keep it.
pub fn version_handler(info: &VersionInfo) -> (r: Reply)
    ensures
        r@ == (ReplyView {
            status: 200,
            body_type: BodyType::JsonText,
            caching: Caching::NoStore,
            body: json::json_text(version_data(info.backend@, info.frontend@)),
        }),
{
    let j = info.to_json();
    Reply {
        status: 200,
        body_type: BodyType::JsonText,
        caching: Caching::NoStore,
        body: json::render(&j),
    }
}

// ---- Laws ---------------------------------------------------------------

/// The versions are told as they are, each under its own name.
pub proof fn law_versions_are_told(backend: Seq<char>, frontend: Seq<char>)
    ensures
        json::field(version_data(backend, frontend), "backend"@) == Some(JsonView::Str(backend)),
        json::field(version_data(backend, frontend), "frontend"@) == Some(JsonView::Str(frontend)),
{
    reveal_strlit("backend");
    reveal_strlit("frontend");
    assert("backend"@.len() == 7);
    assert("frontend"@.len() == 8);
}

} // verus!
