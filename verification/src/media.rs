//! Paths and media types: the final component of a path, its extension,
//! the allow-list of image extensions and the MIME type served for each.

use vstd::prelude::*;
use vstd::string::*;

verus! {

/// The greatest index at which `c` occurs in `s`, if it occurs at all.
pub open spec fn last_index_of(s: Seq<char>, c: char) -> Option<int>
    decreases s.len(),
{
    if s.len() == 0 {
        None
    } else if s.last() == c {
        Some(s.len() - 1)
    } else {
        last_index_of(s.drop_last(), c)
    }
}

/// A path without what does not count at its end: separators, and a `.`
/// that stands alone after a separator.
pub open spec fn trimmed(path: Seq<char>) -> Seq<char>
    decreases path.len(),
{
    if path.len() > 0 && path.last() == '/' {
        trimmed(path.drop_last())
    } else if path.len() >= 2 && path.last() == '.' && path[path.len() - 2] == '/' {
        trimmed(path.drop_last())
    } else {
        path
    }
}

/// The final component of a path: what follows the last `/` of the trimmed
/// path, or all of it where it has none.
pub open spec fn final_component(path: Seq<char>) -> Seq<char> {
    let t = trimmed(path);
    match last_index_of(t, '/') {
        Some(i) => t.subrange(i + 1, t.len() as int),
        None => t,
    }
}

/// The file name of a path: its final component, separators and a `.`
/// component at the end of the path left aside. A path that ends in `..`,
/// that is only `.`, or that has no component at all has no file name.
pub open spec fn file_name(path: Seq<char>) -> Option<Seq<char>> {
    let c = final_component(path);
    if c.len() == 0 || c == seq!['.'] || c == seq!['.', '.'] {
        None
    } else {
        Some(c)
    }
}

/// The extension of a path: what follows the last `.` of its file name.
/// A file name without a `.`, or whose only `.` is its first character,
/// has no extension.
pub open spec fn extension(path: Seq<char>) -> Option<Seq<char>> {
    match file_name(path) {
        Some(name) => match last_index_of(name, '.') {
            Some(i) => if i > 0 {
                Some(name.subrange(i + 1, name.len() as int))
            } else {
                None
            },
            None => None,
        },
        None => None,
    }
}

/// The lower-case form of an ASCII capital letter; any other character
/// unchanged.
pub open spec fn ascii_lower(c: char) -> char {
    if 'A' <= c && c <= 'Z' {
        ((c as u8) + 32) as char
    } else {
        c
    }
}

/// A sequence of characters with every ASCII capital letter in lower case.
pub open spec fn lower(s: Seq<char>) -> Seq<char> {
    Seq::new(s.len(), |i: int| ascii_lower(s[i]))
}

/// The allow-list: the extensions, compared without regard to ASCII case,
/// of the files that a window can show.
pub open spec fn is_supported_extension(ext: Seq<char>) -> bool {
    let e = lower(ext);
    e == "png"@ || e == "jpg"@ || e == "jpeg"@ || e == "gif"@ || e == "webp"@ || e == "bmp"@ || e
        == "tif"@ || e == "tiff"@ || e == "heic"@
}

/// Whether a path names a supported image: it has an extension and the
/// extension is on the allow-list.
pub open spec fn is_image(path: Seq<char>) -> bool {
    match extension(path) {
        Some(e) => is_supported_extension(e),
        None => false,
    }
}

/// The MIME types under which image data is handed to a window.
#[derive(Clone, Copy, Debug, PartialEq, Eq, Structural)]
pub enum MimeType {
    Png,
    Jpeg,
    Gif,
    Webp,
    OctetStream,
}

/// The MIME type of a path, by its extension without regard to ASCII case.
/// Extensions without a type of their own are served as octet streams.
pub open spec fn mime_of(path: Seq<char>) -> MimeType {
    match extension(path) {
        Some(ext) => {
            let e = lower(ext);
            if e == "png"@ {
                MimeType::Png
            } else if e == "jpg"@ || e == "jpeg"@ {
                MimeType::Jpeg
            } else if e == "gif"@ {
                MimeType::Gif
            } else if e == "webp"@ {
                MimeType::Webp
            } else {
                MimeType::OctetStream
            }
        },
        None => MimeType::OctetStream,
    }
}

/// The text that stands before the file name in a window's title.
pub open spec fn title_prefix() -> Seq<char> {
    "Float \u{2014} "@
}

/// The title of a window that shows `path`: the prefix and the file name.
/// A path without a file name gives no title.
pub open spec fn title_of(path: Seq<char>) -> Option<Seq<char>> {
    match file_name(path) {
        Some(name) => Some(title_prefix() + name),
        None => None,
    }
}

impl MimeType {
    /// The name of the type as it is written in a data URI.
    pub open spec fn name(self) -> Seq<char> {
        match self {
            MimeType::Png => "image/png"@,
            MimeType::Jpeg => "image/jpeg"@,
            MimeType::Gif => "image/gif"@,
            MimeType::Webp => "image/webp"@,
            MimeType::OctetStream => "application/octet-stream"@,
        }
    }

    pub fn as_str(self) -> (s: &'static str)
        ensures
            s@ == self.name(),
    {
        match self {
            MimeType::Png => "image/png",
            MimeType::Jpeg => "image/jpeg",
            MimeType::Gif => "image/gif",
            MimeType::Webp => "image/webp",
            MimeType::OctetStream => "application/octet-stream",
        }
    }
}

/// The characters of a string, in order.
pub fn chars_of(s: &str) -> (v: Vec<char>)
    ensures
        v@ == s@,
{
    broadcast use vstd::string::group_string_axioms;

    let mut v: Vec<char> = Vec::new();
    for c in it: s.chars()
        invariant
            it.seq() == s@,
            v@ == it.seq().take(it.index() as int),
    {
        v.push(c);
        assert(v@ =~= it.seq().take(it.index() + 1));
    }
    assert(s@.take(s@.len() as int) =~= s@);
    v
}

/// What `last_index_of` returns is an index of `c`, and `c` does not occur
/// after it; where it returns nothing, `c` does not occur.
pub proof fn lemma_last_index_of(s: Seq<char>, c: char)
    ensures
        match last_index_of(s, c) {
            Some(i) => 0 <= i < s.len() && s[i] == c && forall|j: int|
                i < j < s.len() ==> s[j] != c,
            None => forall|j: int| 0 <= j < s.len() ==> s[j] != c,
        },
    decreases s.len(),
{
    if s.len() > 0 && s.last() != c {
        let t = s.drop_last();
        lemma_last_index_of(t, c);
        assert(forall|j: int| 0 <= j < t.len() ==> t[j] == s[j]);
        assert(last_index_of(s, c) == last_index_of(t, c));
    }
}

/// The greatest index at which `c` occurs in `v`.
pub fn last_index(v: &Vec<char>, c: char) -> (r: Option<usize>)
    ensures
        match r {
            Some(i) => i < v@.len() && last_index_of(v@, c) == Some(i as int),
            None => last_index_of(v@, c) is None,
        },
{
    let mut i: usize = v.len();
    assert(v@.take(i as int) =~= v@);
    while i > 0
        invariant
            i <= v.len(),
            last_index_of(v@, c) == last_index_of(v@.take(i as int), c),
        decreases i,
    {
        i = i - 1;
        if v[i] == c {
            assert(v@.take(i as int + 1).last() == c);
            return Some(i);
        }
        assert(v@.take(i as int + 1).drop_last() =~= v@.take(i as int));
    }
    assert(v@.take(0).len() == 0);
    None
}

/// A trimmed path is the beginning of the path, ends neither in a
/// separator nor in a `.` after a separator, and what was left off holds
/// separators and dots only.
pub proof fn lemma_trimmed(path: Seq<char>)
    ensures
        trimmed(path).len() <= path.len(),
        trimmed(path) == path.take(trimmed(path).len() as int),
        trimmed(trimmed(path)) == trimmed(path),
        trimmed(path).len() > 0 ==> trimmed(path).last() != '/',
        forall|j: int|
            trimmed(path).len() <= j < path.len() ==> #[trigger] path[j] == '/' || path[j] == '.',
    decreases path.len(),
{
    let drops = (path.len() > 0 && path.last() == '/') || (path.len() >= 2 && path.last() == '.'
        && path[path.len() - 2] == '/');
    if drops {
        let front = path.drop_last();
        lemma_trimmed(front);
        assert(trimmed(path) == trimmed(front));
        assert(front.take(trimmed(front).len() as int) =~= path.take(trimmed(front).len() as int));
        assert(forall|j: int| 0 <= j < front.len() ==> front[j] == path[j]);
    } else {
        assert(path.take(path.len() as int) =~= path);
    }
}

/// The length of the trimmed path.
fn trimmed_len(v: &Vec<char>) -> (e: usize)
    ensures
        e <= v@.len(),
        trimmed(v@) == v@.take(e as int),
{
    let mut e: usize = v.len();
    assert(v@.take(e as int) =~= v@);
    while e > 0 && (v[e - 1] == '/' || (e >= 2 && v[e - 1] == '.' && v[e - 2] == '/'))
        invariant
            e <= v@.len(),
            trimmed(v@) == trimmed(v@.take(e as int)),
        decreases e,
    {
        let ghost t = v@.take(e as int);
        assert(t.last() == v@[e - 1]);
        assert(e >= 2 ==> t[t.len() - 2] == v@[e - 2]);
        assert(t.drop_last() =~= v@.take(e as int - 1));
        e = e - 1;
    }
    proof {
        let t = v@.take(e as int);
        if e > 0 {
            assert(t.last() == v@[e - 1]);
            assert(e >= 2 ==> t[t.len() - 2] == v@[e - 2]);
        }
    }
    e
}

/// The file name of `path`, where it has one.
pub fn file_name_of<'a>(path: &'a str) -> (name: Option<&'a str>)
    ensures
        match name {
            Some(n) => file_name(path@) == Some(n@),
            None => file_name(path@) is None,
        },
{
    let mut v = chars_of(path);
    let e = trimmed_len(&v);
    v.truncate(e);
    assert(v@ =~= trimmed(path@));
    let start = match last_index(&v, '/') {
        Some(i) => i + 1,
        None => 0,
    };
    let ghost c = final_component(path@);
    assert(c =~= path@.subrange(start as int, e as int));
    assert(forall|j: int| 0 <= j < c.len() ==> c[j] == v@[start + j]);
    let n = e - start;
    if n == 0 {
        return None;
    }
    if n == 1 && v[start] == '.' {
        assert(c =~= seq!['.']);
        return None;
    }
    if n == 2 && v[start] == '.' && v[start + 1] == '.' {
        assert(c =~= seq!['.', '.']);
        return None;
    }
    proof {
        if c == seq!['.'] {
            assert(c[0] == '.');
        }
        if c == seq!['.', '.'] {
            assert(c[0] == '.' && c[1] == '.');
        }
    }
    Some(path.substring_char(start, e))
}

/// The extension of `path`, where it has one.
pub fn extension_of<'a>(path: &'a str) -> (ext: Option<&'a str>)
    ensures
        match ext {
            Some(e) => extension(path@) == Some(e@),
            None => extension(path@) is None,
        },
{
    let name = match file_name_of(path) {
        Some(name) => name,
        None => {
            return None;
        },
    };
    let v = chars_of(name);
    let n = v.len();
    match last_index(&v, '.') {
        Some(i) => {
            if i > 0 {
                Some(name.substring_char(i + 1, n))
            } else {
                None
            }
        },
        None => None,
    }
}

/// An ASCII capital letter in lower case, any other character unchanged.
pub fn to_ascii_lower(c: char) -> (r: char)
    ensures
        r == ascii_lower(c),
{
    if 'A' <= c && c <= 'Z' {
        ((c as u8) + 32) as char
    } else {
        c
    }
}

/// Whether `text`, with its ASCII capital letters in lower case, reads as
/// `word`.
pub fn lower_equals(text: &str, word: &str) -> (r: bool)
    ensures
        r == (lower(text@) == word@),
{
    let n = text.unicode_len();
    if n != word.unicode_len() {
        return false;
    }
    let mut i: usize = 0;
    while i < n
        invariant
            n == text@.len(),
            n == word@.len(),
            i <= n,
            forall|j: int| 0 <= j < i ==> ascii_lower(text@[j]) == word@[j],
        decreases n - i,
    {
        if to_ascii_lower(text.get_char(i)) != word.get_char(i) {
            assert(lower(text@)[i as int] != word@[i as int]);
            return false;
        }
        i = i + 1;
    }
    assert(lower(text@) =~= word@);
    true
}

/// Whether an extension is on the allow-list.
pub fn is_supported(ext: &str) -> (r: bool)
    ensures
        r == is_supported_extension(ext@),
{
    lower_equals(ext, "png") || lower_equals(ext, "jpg") || lower_equals(ext, "jpeg")
        || lower_equals(ext, "gif") || lower_equals(ext, "webp") || lower_equals(ext, "bmp")
        || lower_equals(ext, "tif") || lower_equals(ext, "tiff") || lower_equals(ext, "heic")
}

/// Whether `path` names a file that a window can show: its extension,
/// without regard to ASCII case, is on the allow-list.
pub fn is_image_path(path: &str) -> (r: bool)
    ensures
        r == is_image(path@),
{
    match extension_of(path) {
        Some(ext) => is_supported(ext),
        None => false,
    }
}

/// The MIME type under which the data of `path` is served.
pub fn mime_for_path(path: &str) -> (m: MimeType)
    ensures
        m == mime_of(path@),
{
    match extension_of(path) {
        Some(ext) => {
            if lower_equals(ext, "png") {
                MimeType::Png
            } else if lower_equals(ext, "jpg") || lower_equals(ext, "jpeg") {
                MimeType::Jpeg
            } else if lower_equals(ext, "gif") {
                MimeType::Gif
            } else if lower_equals(ext, "webp") {
                MimeType::Webp
            } else {
                MimeType::OctetStream
            }
        },
        None => MimeType::OctetStream,
    }
}

/// The title of a window that shows `path`.
pub fn display_title(path: &str) -> (title: Option<String>)
    ensures
        match title {
            Some(t) => title_of(path@) == Some(t@),
            None => title_of(path@) is None,
        },
{
    match file_name_of(path) {
        Some(name) => Some(String::from_str("Float \u{2014} ").concat(name)),
        None => None,
    }
}

} // verus!
