//! The files of the browser's side.

use vstd::prelude::*;

use crate::text;

verus! {

/// The type of a file by the end of its name.
pub open spec fn mime(path: Seq<char>) -> Seq<char> {
    if text::ends_with(path, ".html"@) {
        "text/html; charset=utf-8"@
    } else if text::ends_with(path, ".js"@) || text::ends_with(path, ".mjs"@) {
        "application/javascript; charset=utf-8"@
    } else if text::ends_with(path, ".css"@) {
        "text/css; charset=utf-8"@
    } else if text::ends_with(path, ".json"@) {
        "application/json; charset=utf-8"@
    } else if text::ends_with(path, ".wasm"@) {
        "application/wasm"@
    } else if text::ends_with(path, ".svg"@) {
        "image/svg+xml"@
    } else if text::ends_with(path, ".png"@) {
        "image/png"@
    } else if text::ends_with(path, ".ico"@) {
        "image/x-icon"@
    } else if text::ends_with(path, ".woff2"@) {
        "font/woff2"@
    } else {
        "application/octet-stream"@
    }
}

/// The type of a file by the end of its name.
pub fn mime_for(path: &str) -> (r: &'static str)
    ensures
        r@ == mime(path@),
{
    if text::ends(path, ".html") {
        "text/html; charset=utf-8"
    } else if text::ends(path, ".js") || text::ends(path, ".mjs") {
        "application/javascript; charset=utf-8"
    } else if text::ends(path, ".css") {
        "text/css; charset=utf-8"
    } else if text::ends(path, ".json") {
        "application/json; charset=utf-8"
    } else if text::ends(path, ".wasm") {
        "application/wasm"
    } else if text::ends(path, ".svg") {
        "image/svg+xml"
    } else if text::ends(path, ".png") {
        "image/png"
    } else if text::ends(path, ".ico") {
        "image/x-icon"
    } else if text::ends(path, ".woff2") {
        "font/woff2"
    } else {
        "application/octet-stream"
    }
}

/// The files, each with its path.
#[derive(Debug)]
pub struct StaticAssets {
    pub files: Vec<(String, Vec<u8>)>,
}

/// A file, as values.
pub struct FileView {
    pub path: Seq<char>,
    pub bytes: Seq<u8>,
}

/// A file, as values.
pub open spec fn file_view(f: (String, Vec<u8>)) -> FileView {
    FileView { path: f.0@, bytes: f.1@ }
}

impl View for StaticAssets {
    type V = Seq<FileView>;

    open spec fn view(&self) -> Seq<FileView> {
        self.files@.map_values(|f: (String, Vec<u8>)| file_view(f))
    }
}

/// The bytes of the first file called `path` at or after `from`.
pub open spec fn file_from(s: Seq<FileView>, path: Seq<char>, from: int) -> Option<Seq<u8>>
    decreases s.len() - from,
{
    if from >= s.len() {
        None
    } else if s[from].path == path {
        Some(s[from].bytes)
    } else {
        file_from(s, path, from + 1)
    }
}

impl StaticAssets {
    /// The bytes of a file.
    pub open spec fn file(&self, path: Seq<char>) -> Option<Seq<u8>> {
        file_from(self@, path, 0)
    }

    /// The bytes of a file.
    pub fn get(&self, path: &str) -> (r: Option<&Vec<u8>>)
        ensures
            match r {
                Some(b) => self.file(path@) == Some(b@),
                None => self.file(path@) is None,
            },
    {
        let mut i: usize = 0;
        while i < self.files.len()
            invariant
                i <= self.files.len(),
                self.file(path@) == file_from(self@, path@, i as int),
            decreases self.files.len() - i,
        {
            if text::same(self.files[i].0.as_str(), path) {
                return Some(&self.files[i].1);
            }
            i += 1;
        }
        None
    }

    /// Type and bytes of what is served under a path; a file that is not there is
    /// served empty.
    pub fn serve(&self, path: &str) -> (r: (&'static str, Vec<u8>))
        ensures
            r.0@ == mime(path@),
            r.1@ == match self.file(path@) {
                Some(b) => b,
                None => Seq::empty(),
            },
    {
        let bytes: Vec<u8> = match self.get(path) {
            Some(b) => {
                let mut out: Vec<u8> = Vec::new();
                let mut i: usize = 0;
                while i < b.len()
                    invariant
                        i <= b.len(),
                        out@ == b@.take(i as int),
                    decreases b.len() - i,
                {
                    out.push(b[i]);
                    i += 1;
                }
                assert(b@.take(i as int) == b@);
                out
            },
            None => Vec::new(),
        };
        (mime_for(path), bytes)
    }
}

// ---- Laws ---------------------------------------------------------------

/// A path ends with at most one of two endings that differ in their last characters.
proof fn lemma_one_ending(path: Seq<char>, a: Seq<char>, b: Seq<char>, k: int)
    requires
        text::ends_with(path, a),
        0 <= k < a.len(),
        k < b.len(),
        a[a.len() - 1 - k] != b[b.len() - 1 - k],
    ensures
        !text::ends_with(path, b),
{
    if text::ends_with(path, b) {
        let i = path.len() - 1 - k;
        let x = path.subrange(path.len() - a.len(), path.len() as int);
        let y = path.subrange(path.len() - b.len(), path.len() as int);
        assert(x[a.len() - 1 - k] == path[i]);
        assert(y[b.len() - 1 - k] == path[i]);
    }
}

/// The type of a file follows from the ending of its name.
pub proof fn law_ending_tells_the_type(path: Seq<char>)
    ensures
        text::ends_with(path, ".html"@) ==> mime(path) == "text/html; charset=utf-8"@,
        text::ends_with(path, ".js"@) ==> mime(path) == "application/javascript; charset=utf-8"@,
        text::ends_with(path, ".mjs"@) ==> mime(path) == "application/javascript; charset=utf-8"@,
        text::ends_with(path, ".css"@) ==> mime(path) == "text/css; charset=utf-8"@,
        text::ends_with(path, ".json"@) ==> mime(path) == "application/json; charset=utf-8"@,
        text::ends_with(path, ".wasm"@) ==> mime(path) == "application/wasm"@,
        text::ends_with(path, ".svg"@) ==> mime(path) == "image/svg+xml"@,
        text::ends_with(path, ".png"@) ==> mime(path) == "image/png"@,
        text::ends_with(path, ".ico"@) ==> mime(path) == "image/x-icon"@,
        text::ends_with(path, ".woff2"@) ==> mime(path) == "font/woff2"@,
{
    reveal_strlit(".html");
    reveal_strlit(".js");
    reveal_strlit(".mjs");
    reveal_strlit(".css");
    reveal_strlit(".json");
    reveal_strlit(".wasm");
    reveal_strlit(".svg");
    reveal_strlit(".png");
    reveal_strlit(".ico");
    reveal_strlit(".woff2");
    if text::ends_with(path, ".js"@) {
        assert(".js"@.len() == 3 && ".html"@.len() == 5);
        assert(".js"@[2] == 's' && ".html"@[4] == 'l');
        lemma_one_ending(path, ".js"@, ".html"@, 0);
    }
    if text::ends_with(path, ".mjs"@) {
        assert(".mjs"@.len() == 4 && ".html"@.len() == 5);
        assert(".mjs"@[3] == 's' && ".html"@[4] == 'l');
        lemma_one_ending(path, ".mjs"@, ".html"@, 0);
        assert(".mjs"@.len() == 4 && ".js"@.len() == 3);
        assert(".mjs"@[1] == 'm' && ".js"@[0] == '.');
        lemma_one_ending(path, ".mjs"@, ".js"@, 2);
    }
    if text::ends_with(path, ".css"@) {
        assert(".css"@.len() == 4 && ".html"@.len() == 5);
        assert(".css"@[3] == 's' && ".html"@[4] == 'l');
        lemma_one_ending(path, ".css"@, ".html"@, 0);
        assert(".css"@.len() == 4 && ".js"@.len() == 3);
        assert(".css"@[2] == 's' && ".js"@[1] == 'j');
        lemma_one_ending(path, ".css"@, ".js"@, 1);
        assert(".css"@.len() == 4 && ".mjs"@.len() == 4);
        assert(".css"@[2] == 's' && ".mjs"@[2] == 'j');
        lemma_one_ending(path, ".css"@, ".mjs"@, 1);
    }
    if text::ends_with(path, ".json"@) {
        assert(".json"@.len() == 5 && ".html"@.len() == 5);
        assert(".json"@[4] == 'n' && ".html"@[4] == 'l');
        lemma_one_ending(path, ".json"@, ".html"@, 0);
        assert(".json"@.len() == 5 && ".js"@.len() == 3);
        assert(".json"@[4] == 'n' && ".js"@[2] == 's');
        lemma_one_ending(path, ".json"@, ".js"@, 0);
        assert(".json"@.len() == 5 && ".mjs"@.len() == 4);
        assert(".json"@[4] == 'n' && ".mjs"@[3] == 's');
        lemma_one_ending(path, ".json"@, ".mjs"@, 0);
        assert(".json"@.len() == 5 && ".css"@.len() == 4);
        assert(".json"@[4] == 'n' && ".css"@[3] == 's');
        lemma_one_ending(path, ".json"@, ".css"@, 0);
    }
    if text::ends_with(path, ".wasm"@) {
        assert(".wasm"@.len() == 5 && ".html"@.len() == 5);
        assert(".wasm"@[4] == 'm' && ".html"@[4] == 'l');
        lemma_one_ending(path, ".wasm"@, ".html"@, 0);
        assert(".wasm"@.len() == 5 && ".js"@.len() == 3);
        assert(".wasm"@[4] == 'm' && ".js"@[2] == 's');
        lemma_one_ending(path, ".wasm"@, ".js"@, 0);
        assert(".wasm"@.len() == 5 && ".mjs"@.len() == 4);
        assert(".wasm"@[4] == 'm' && ".mjs"@[3] == 's');
        lemma_one_ending(path, ".wasm"@, ".mjs"@, 0);
        assert(".wasm"@.len() == 5 && ".css"@.len() == 4);
        assert(".wasm"@[4] == 'm' && ".css"@[3] == 's');
        lemma_one_ending(path, ".wasm"@, ".css"@, 0);
        assert(".wasm"@.len() == 5 && ".json"@.len() == 5);
        assert(".wasm"@[4] == 'm' && ".json"@[4] == 'n');
        lemma_one_ending(path, ".wasm"@, ".json"@, 0);
    }
    if text::ends_with(path, ".svg"@) {
        assert(".svg"@.len() == 4 && ".html"@.len() == 5);
        assert(".svg"@[3] == 'g' && ".html"@[4] == 'l');
        lemma_one_ending(path, ".svg"@, ".html"@, 0);
        assert(".svg"@.len() == 4 && ".js"@.len() == 3);
        assert(".svg"@[3] == 'g' && ".js"@[2] == 's');
        lemma_one_ending(path, ".svg"@, ".js"@, 0);
        assert(".svg"@.len() == 4 && ".mjs"@.len() == 4);
        assert(".svg"@[3] == 'g' && ".mjs"@[3] == 's');
        lemma_one_ending(path, ".svg"@, ".mjs"@, 0);
        assert(".svg"@.len() == 4 && ".css"@.len() == 4);
        assert(".svg"@[3] == 'g' && ".css"@[3] == 's');
        lemma_one_ending(path, ".svg"@, ".css"@, 0);
        assert(".svg"@.len() == 4 && ".json"@.len() == 5);
        assert(".svg"@[3] == 'g' && ".json"@[4] == 'n');
        lemma_one_ending(path, ".svg"@, ".json"@, 0);
        assert(".svg"@.len() == 4 && ".wasm"@.len() == 5);
        assert(".svg"@[3] == 'g' && ".wasm"@[4] == 'm');
        lemma_one_ending(path, ".svg"@, ".wasm"@, 0);
    }
    if text::ends_with(path, ".png"@) {
        assert(".png"@.len() == 4 && ".html"@.len() == 5);
        assert(".png"@[3] == 'g' && ".html"@[4] == 'l');
        lemma_one_ending(path, ".png"@, ".html"@, 0);
        assert(".png"@.len() == 4 && ".js"@.len() == 3);
        assert(".png"@[3] == 'g' && ".js"@[2] == 's');
        lemma_one_ending(path, ".png"@, ".js"@, 0);
        assert(".png"@.len() == 4 && ".mjs"@.len() == 4);
        assert(".png"@[3] == 'g' && ".mjs"@[3] == 's');
        lemma_one_ending(path, ".png"@, ".mjs"@, 0);
        assert(".png"@.len() == 4 && ".css"@.len() == 4);
        assert(".png"@[3] == 'g' && ".css"@[3] == 's');
        lemma_one_ending(path, ".png"@, ".css"@, 0);
        assert(".png"@.len() == 4 && ".json"@.len() == 5);
        assert(".png"@[3] == 'g' && ".json"@[4] == 'n');
        lemma_one_ending(path, ".png"@, ".json"@, 0);
        assert(".png"@.len() == 4 && ".wasm"@.len() == 5);
        assert(".png"@[3] == 'g' && ".wasm"@[4] == 'm');
        lemma_one_ending(path, ".png"@, ".wasm"@, 0);
        assert(".png"@.len() == 4 && ".svg"@.len() == 4);
        assert(".png"@[2] == 'n' && ".svg"@[2] == 'v');
        lemma_one_ending(path, ".png"@, ".svg"@, 1);
    }
    if text::ends_with(path, ".ico"@) {
        assert(".ico"@.len() == 4 && ".html"@.len() == 5);
        assert(".ico"@[3] == 'o' && ".html"@[4] == 'l');
        lemma_one_ending(path, ".ico"@, ".html"@, 0);
        assert(".ico"@.len() == 4 && ".js"@.len() == 3);
        assert(".ico"@[3] == 'o' && ".js"@[2] == 's');
        lemma_one_ending(path, ".ico"@, ".js"@, 0);
        assert(".ico"@.len() == 4 && ".mjs"@.len() == 4);
        assert(".ico"@[3] == 'o' && ".mjs"@[3] == 's');
        lemma_one_ending(path, ".ico"@, ".mjs"@, 0);
        assert(".ico"@.len() == 4 && ".css"@.len() == 4);
        assert(".ico"@[3] == 'o' && ".css"@[3] == 's');
        lemma_one_ending(path, ".ico"@, ".css"@, 0);
        assert(".ico"@.len() == 4 && ".json"@.len() == 5);
        assert(".ico"@[3] == 'o' && ".json"@[4] == 'n');
        lemma_one_ending(path, ".ico"@, ".json"@, 0);
        assert(".ico"@.len() == 4 && ".wasm"@.len() == 5);
        assert(".ico"@[3] == 'o' && ".wasm"@[4] == 'm');
        lemma_one_ending(path, ".ico"@, ".wasm"@, 0);
        assert(".ico"@.len() == 4 && ".svg"@.len() == 4);
        assert(".ico"@[3] == 'o' && ".svg"@[3] == 'g');
        lemma_one_ending(path, ".ico"@, ".svg"@, 0);
        assert(".ico"@.len() == 4 && ".png"@.len() == 4);
        assert(".ico"@[3] == 'o' && ".png"@[3] == 'g');
        lemma_one_ending(path, ".ico"@, ".png"@, 0);
    }
    if text::ends_with(path, ".woff2"@) {
        assert(".woff2"@.len() == 6 && ".html"@.len() == 5);
        assert(".woff2"@[5] == '2' && ".html"@[4] == 'l');
        lemma_one_ending(path, ".woff2"@, ".html"@, 0);
        assert(".woff2"@.len() == 6 && ".js"@.len() == 3);
        assert(".woff2"@[5] == '2' && ".js"@[2] == 's');
        lemma_one_ending(path, ".woff2"@, ".js"@, 0);
        assert(".woff2"@.len() == 6 && ".mjs"@.len() == 4);
        assert(".woff2"@[5] == '2' && ".mjs"@[3] == 's');
        lemma_one_ending(path, ".woff2"@, ".mjs"@, 0);
        assert(".woff2"@.len() == 6 && ".css"@.len() == 4);
        assert(".woff2"@[5] == '2' && ".css"@[3] == 's');
        lemma_one_ending(path, ".woff2"@, ".css"@, 0);
        assert(".woff2"@.len() == 6 && ".json"@.len() == 5);
        assert(".woff2"@[5] == '2' && ".json"@[4] == 'n');
        lemma_one_ending(path, ".woff2"@, ".json"@, 0);
        assert(".woff2"@.len() == 6 && ".wasm"@.len() == 5);
        assert(".woff2"@[5] == '2' && ".wasm"@[4] == 'm');
        lemma_one_ending(path, ".woff2"@, ".wasm"@, 0);
        assert(".woff2"@.len() == 6 && ".svg"@.len() == 4);
        assert(".woff2"@[5] == '2' && ".svg"@[3] == 'g');
        lemma_one_ending(path, ".woff2"@, ".svg"@, 0);
        assert(".woff2"@.len() == 6 && ".png"@.len() == 4);
        assert(".woff2"@[5] == '2' && ".png"@[3] == 'g');
        lemma_one_ending(path, ".woff2"@, ".png"@, 0);
        assert(".woff2"@.len() == 6 && ".ico"@.len() == 4);
        assert(".woff2"@[5] == '2' && ".ico"@[3] == 'o');
        lemma_one_ending(path, ".woff2"@, ".ico"@, 0);
    }
}

/// A file that is there is found by its path with its own bytes, the first of that path;
/// without it nothing is.
pub proof fn law_files_are_found_by_path(s: Seq<FileView>, path: Seq<char>, from: int, i: int)
    requires
        0 <= from <= i < s.len(),
        s[i].path == path,
        forall|j: int| from <= j < i ==> (#[trigger] s[j]).path != path,
    ensures
        file_from(s, path, from) == Some(s[i].bytes),
    decreases i - from,
{
    if from < i {
        assert(s[from].path != path);
        law_files_are_found_by_path(s, path, from + 1, i);
    }
}

/// A path that no file has is not found.
pub proof fn law_absent_files_are_not_found(s: Seq<FileView>, path: Seq<char>, from: int)
    requires
        0 <= from,
        forall|j: int| from <= j < s.len() ==> (#[trigger] s[j]).path != path,
    ensures
        file_from(s, path, from) is None,
    decreases s.len() - from,
{
    if from < s.len() {
        assert(s[from].path != path);
        law_absent_files_are_not_found(s, path, from + 1);
    }
}

/// A file without a known ending is taken for bytes.
pub proof fn law_unknown_ending_is_bytes(path: Seq<char>)
    requires
        !text::ends_with(path, ".html"@),
        !text::ends_with(path, ".js"@),
        !text::ends_with(path, ".mjs"@),
        !text::ends_with(path, ".css"@),
        !text::ends_with(path, ".json"@),
        !text::ends_with(path, ".wasm"@),
        !text::ends_with(path, ".svg"@),
        !text::ends_with(path, ".png"@),
        !text::ends_with(path, ".ico"@),
        !text::ends_with(path, ".woff2"@),
    ensures
        mime(path) == "application/octet-stream"@,
{
}

} // verus!
