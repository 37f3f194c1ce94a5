//! What the file reader decides: which paths are binary or images, when
//! content is binary, and how a slice of lines or directory entries is
//! numbered.

use vstd::prelude::*;
use vstd::string::StringSliceAdditionalSpecFns;
use vstd::relations::{sorted_by, total_ordering};
use vstd::utf8::encode_utf8;
use crate::num::{decimal, decimal_string};
use crate::text::{
    chars_of, join, join_str, lines, lines_of, lower_string, lowered, push_char, split_on,
    split_str, str_eq, string_of_range, vec_eq_str, views,
};

verus! {

// ---------------------------------------------------------------------------
// Paths
// ---------------------------------------------------------------------------

/// The last part that names an entry, skipping empty and `.` parts.
pub open spec fn last_named(parts: Seq<Seq<char>>) -> Option<Seq<char>>
    decreases parts.len(),
{
    if parts.len() == 0 {
        None
    } else if parts.last().len() == 0 || parts.last() == "."@ {
        last_named(parts.drop_last())
    } else {
        Some(parts.last())
    }
}

/// The final component of a `/`-separated path (`Path::file_name`); none
/// when the path ends in a root, `.` alone or `..`.
pub open spec fn file_name(path: Seq<char>) -> Option<Seq<char>> {
    match last_named(split_on(path, '/')) {
        Some(c) => if c == ".."@ {
            None
        } else {
            Some(c)
        },
        None => None,
    }
}

/// Index of the last `.` in `s[0..j]`.
pub open spec fn last_dot(s: Seq<char>, j: int) -> Option<int>
    decreases j,
{
    if j <= 0 || j > s.len() {
        None
    } else if s[j - 1] == '.' {
        Some(j - 1)
    } else {
        last_dot(s, j - 1)
    }
}

/// A path's extension (`Path::extension`): what follows the last `.` of its
/// file name, unless that `.` begins the name.
pub open spec fn extension(path: Seq<char>) -> Option<Seq<char>> {
    match file_name(path) {
        None => None,
        Some(n) => match last_dot(n, n.len() as int) {
            Some(k) => if k == 0 {
                None
            } else {
                Some(n.subrange(k + 1, n.len() as int))
            },
            None => None,
        },
    }
}

/// The extension of a path (see `extension`).
pub fn path_extension(path: &str) -> (r: Option<String>)
    ensures
        match r {
            Some(e) => extension(path@) == Some(e@),
            None => extension(path@) is None,
        },
{
    let parts = split_str(path, '/');
    let ghost ps = views(parts@);
    let mut j = parts.len();
    proof {
        assert(ps.take(j as int) =~= ps);
    }
    while j > 0 && (parts[j - 1].unicode_len() == 0 || str_eq(parts[j - 1].as_str(), "."))
        invariant
            ps == views(parts@),
            ps == split_on(path@, '/'),
            j <= parts.len(),
            last_named(ps) == last_named(ps.take(j as int)),
        decreases j,
    {
        proof {
            assert(ps.take(j as int).drop_last() =~= ps.take(j - 1));
        }
        j -= 1;
    }
    if j == 0 {
        proof {
            assert(ps.take(0).len() == 0);
        }
        return None;
    }
    proof {
        assert(ps.take(j as int).last() == ps[j - 1]);
    }
    let name = parts[j - 1].as_str();
    if str_eq(name, "..") {
        return None;
    }
    let v = chars_of(name);
    let mut k = v.len();
    while k > 0 && v[k - 1] != '.'
        invariant
            v@ == name@,
            k <= v.len(),
            last_dot(v@, v.len() as int) == last_dot(v@, k as int),
        decreases k,
    {
        k -= 1;
    }
    if k <= 1 {
        return None;
    }
    Some(string_of_range(&v, k, v.len()))
}

/// Lowered extensions of files read as binary: media, archives, executables, fonts and documents.
pub open spec fn is_binary_ext(e: Seq<char>) -> bool {
    ||| e == "3gp"@
    ||| e == "7z"@
    ||| e == "aac"@
    ||| e == "apk"@
    ||| e == "avi"@
    ||| e == "bin"@
    ||| e == "bmp"@
    ||| e == "bz2"@
    ||| e == "class"@
    ||| e == "db"@
    ||| e == "deb"@
    ||| e == "dll"@
    ||| e == "dmg"@
    ||| e == "doc"@
    ||| e == "docx"@
    ||| e == "ear"@
    ||| e == "eot"@
    ||| e == "exe"@
    ||| e == "flac"@
    ||| e == "flv"@
    ||| e == "gif"@
    ||| e == "gz"@
    ||| e == "ico"@
    ||| e == "iso"@
    ||| e == "jar"@
    ||| e == "jpeg"@
    ||| e == "jpg"@
    ||| e == "lz"@
    ||| e == "lz4"@
    ||| e == "lzma"@
    ||| e == "m4a"@
    ||| e == "mkv"@
    ||| e == "mov"@
    ||| e == "mp3"@
    ||| e == "mp4"@
    ||| e == "mpeg"@
    ||| e == "mpg"@
    ||| e == "o"@
    ||| e == "obj"@
    ||| e == "ogg"@
    ||| e == "otf"@
    ||| e == "parquet"@
    ||| e == "pdf"@
    ||| e == "pkg"@
    ||| e == "png"@
    ||| e == "ppt"@
    ||| e == "pptx"@
    ||| e == "psd"@
    ||| e == "rar"@
    ||| e == "rpm"@
    ||| e == "so"@
    ||| e == "sqlite"@
    ||| e == "swf"@
    ||| e == "tar"@
    ||| e == "ttf"@
    ||| e == "wasm"@
    ||| e == "wav"@
    ||| e == "webm"@
    ||| e == "webp"@
    ||| e == "woff"@
    ||| e == "woff2"@
    ||| e == "xls"@
    ||| e == "xlsx"@
    ||| e == "xz"@
    ||| e == "zip"@
    ||| e == "zst"@
}

/// Lowered extensions of image files.
pub open spec fn is_image_ext(e: Seq<char>) -> bool {
    ||| e == "bmp"@
    ||| e == "gif"@
    ||| e == "ico"@
    ||| e == "jpeg"@
    ||| e == "jpg"@
    ||| e == "png"@
    ||| e == "svg"@
    ||| e == "webp"@
}

fn is_binary_ext_exec(e: &Vec<char>) -> (r: bool)
    ensures
        r == is_binary_ext(e@),
{
    vec_eq_str(e, "3gp")
        || vec_eq_str(e, "7z")
        || vec_eq_str(e, "aac")
        || vec_eq_str(e, "apk")
        || vec_eq_str(e, "avi")
        || vec_eq_str(e, "bin")
        || vec_eq_str(e, "bmp")
        || vec_eq_str(e, "bz2")
        || vec_eq_str(e, "class")
        || vec_eq_str(e, "db")
        || vec_eq_str(e, "deb")
        || vec_eq_str(e, "dll")
        || vec_eq_str(e, "dmg")
        || vec_eq_str(e, "doc")
        || vec_eq_str(e, "docx")
        || vec_eq_str(e, "ear")
        || vec_eq_str(e, "eot")
        || vec_eq_str(e, "exe")
        || vec_eq_str(e, "flac")
        || vec_eq_str(e, "flv")
        || vec_eq_str(e, "gif")
        || vec_eq_str(e, "gz")
        || vec_eq_str(e, "ico")
        || vec_eq_str(e, "iso")
        || vec_eq_str(e, "jar")
        || vec_eq_str(e, "jpeg")
        || vec_eq_str(e, "jpg")
        || vec_eq_str(e, "lz")
        || vec_eq_str(e, "lz4")
        || vec_eq_str(e, "lzma")
        || vec_eq_str(e, "m4a")
        || vec_eq_str(e, "mkv")
        || vec_eq_str(e, "mov")
        || vec_eq_str(e, "mp3")
        || vec_eq_str(e, "mp4")
        || vec_eq_str(e, "mpeg")
        || vec_eq_str(e, "mpg")
        || vec_eq_str(e, "o")
        || vec_eq_str(e, "obj")
        || vec_eq_str(e, "ogg")
        || vec_eq_str(e, "otf")
        || vec_eq_str(e, "parquet")
        || vec_eq_str(e, "pdf")
        || vec_eq_str(e, "pkg")
        || vec_eq_str(e, "png")
        || vec_eq_str(e, "ppt")
        || vec_eq_str(e, "pptx")
        || vec_eq_str(e, "psd")
        || vec_eq_str(e, "rar")
        || vec_eq_str(e, "rpm")
        || vec_eq_str(e, "so")
        || vec_eq_str(e, "sqlite")
        || vec_eq_str(e, "swf")
        || vec_eq_str(e, "tar")
        || vec_eq_str(e, "ttf")
        || vec_eq_str(e, "wasm")
        || vec_eq_str(e, "wav")
        || vec_eq_str(e, "webm")
        || vec_eq_str(e, "webp")
        || vec_eq_str(e, "woff")
        || vec_eq_str(e, "woff2")
        || vec_eq_str(e, "xls")
        || vec_eq_str(e, "xlsx")
        || vec_eq_str(e, "xz")
        || vec_eq_str(e, "zip")
        || vec_eq_str(e, "zst")
}

fn is_image_ext_exec(e: &Vec<char>) -> (r: bool)
    ensures
        r == is_image_ext(e@),
{
    vec_eq_str(e, "bmp")
        || vec_eq_str(e, "gif")
        || vec_eq_str(e, "ico")
        || vec_eq_str(e, "jpeg")
        || vec_eq_str(e, "jpg")
        || vec_eq_str(e, "png")
        || vec_eq_str(e, "svg")
        || vec_eq_str(e, "webp")
}

/// Whether a path's extension marks a binary file, in any letter case.
pub open spec fn spec_is_binary_path(path: Seq<char>) -> bool {
    extension(path) matches Some(e) && is_binary_ext(lowered(e))
}

/// Whether a path's extension marks an image, in any letter case.
pub open spec fn spec_is_image_path(path: Seq<char>) -> bool {
    extension(path) matches Some(e) && is_image_ext(lowered(e))
}

pub fn is_binary_path(path: &str) -> (r: bool)
    ensures
        r == spec_is_binary_path(path@),
{
    match path_extension(path) {
        Some(e) => is_binary_ext_exec(&lower_string(e.as_str())),
        None => false,
    }
}

pub fn is_image_path(path: &str) -> (r: bool)
    ensures
        r == spec_is_image_path(path@),
{
    match path_extension(path) {
        Some(e) => is_image_ext_exec(&lower_string(e.as_str())),
        None => false,
    }
}

/// The MIME type sent for an image, by its lowered extension; PNG when
/// the extension is missing or unknown.
pub open spec fn spec_image_mime(path: Seq<char>) -> Seq<char> {
    match extension(path) {
        Some(e) => {
            let l = lowered(e);
            if l == "png"@ {
                "image/png"@
            } else if l == "jpg"@ || l == "jpeg"@ {
                "image/jpeg"@
            } else if l == "gif"@ {
                "image/gif"@
            } else if l == "webp"@ {
                "image/webp"@
            } else if l == "bmp"@ {
                "image/bmp"@
            } else if l == "ico"@ {
                "image/x-icon"@
            } else if l == "svg"@ {
                "image/svg+xml"@
            } else {
                "image/png"@
            }
        },
        None => "image/png"@,
    }
}

pub fn image_mime_type(path: &str) -> (r: &'static str)
    ensures
        r@ == spec_image_mime(path@),
{
    match path_extension(path) {
        Some(e) => {
            let l = lower_string(e.as_str());
            if vec_eq_str(&l, "png") {
                "image/png"
            } else if vec_eq_str(&l, "jpg") || vec_eq_str(&l, "jpeg") {
                "image/jpeg"
            } else if vec_eq_str(&l, "gif") {
                "image/gif"
            } else if vec_eq_str(&l, "webp") {
                "image/webp"
            } else if vec_eq_str(&l, "bmp") {
                "image/bmp"
            } else if vec_eq_str(&l, "ico") {
                "image/x-icon"
            } else if vec_eq_str(&l, "svg") {
                "image/svg+xml"
            } else {
                "image/png"
            }
        },
        None => "image/png",
    }
}

// ---------------------------------------------------------------------------
// Content
// ---------------------------------------------------------------------------

/// Whether one of the first 8192 bytes of the text's UTF-8 form is zero.
pub open spec fn spec_is_binary_content(s: Seq<char>) -> bool {
    let b = encode_utf8(s);
    exists|i: int| 0 <= i < b.len() && i < 8192 && b[i] == 0
}

pub fn is_binary_content(content: &str) -> (r: bool)
    ensures
        r == spec_is_binary_content(content@),
{
    let b = content.as_bytes();
    let n = if b.len() < 8192 {
        b.len()
    } else {
        8192
    };
    let mut i: usize = 0;
    while i < n
        invariant
            b@ == encode_utf8(content@),
            n <= b.len(),
            n <= 8192,
            i <= n,
            forall|j: int| 0 <= j < i ==> b@[j] != 0,
        decreases n - i,
    {
        if b[i] == 0 {
            return true;
        }
        i += 1;
    }
    false
}

/// The largest file read as text, in bytes.
pub const MAX_READ_SIZE: u64 = 10485760;

/// The error for a file over the size limit.
pub fn file_size_error(len: u64) -> (r: Option<String>)
    ensures
        len <= MAX_READ_SIZE ==> r is None,
        len > MAX_READ_SIZE ==> (r matches Some(m) && m@ == "File too large: "@ + decimal(len as nat)
            + " bytes (max "@ + decimal(MAX_READ_SIZE as nat)
            + " bytes). Use bash tools for large files."@),
{
    if len <= MAX_READ_SIZE {
        return None;
    }
    let mut m = String::from_str("File too large: ");
    m.append(decimal_string(len).as_str());
    m.append(" bytes (max ");
    m.append(decimal_string(MAX_READ_SIZE).as_str());
    m.append(" bytes). Use bash tools for large files.");
    Some(m)
}

/// The error for an image over the size limit.
pub fn image_size_error(len: u64) -> (r: Option<String>)
    ensures
        len <= MAX_READ_SIZE ==> r is None,
        len > MAX_READ_SIZE ==> (r matches Some(m) && m@ == "Image too large: "@ + decimal(len as nat)
            + " bytes (max "@ + decimal(MAX_READ_SIZE as nat) + " bytes). Use external tools."@),
{
    if len <= MAX_READ_SIZE {
        return None;
    }
    let mut m = String::from_str("Image too large: ");
    m.append(decimal_string(len).as_str());
    m.append(" bytes (max ");
    m.append(decimal_string(MAX_READ_SIZE).as_str());
    m.append(" bytes). Use external tools.");
    Some(m)
}

// ---------------------------------------------------------------------------
// Numbered listings
// ---------------------------------------------------------------------------

/// A number right-aligned in six columns (`{:6}`).
pub open spec fn pad6(n: nat) -> Seq<char> {
    let d = decimal(n);
    if d.len() < 6 {
        Seq::new((6 - d.len()) as nat, |_i: int| ' ') + d
    } else {
        d
    }
}

/// Items `start..end`, each after its 1-based number and a colon.
pub open spec fn numbered(items: Seq<Seq<char>>, start: int, end: int) -> Seq<Seq<char>> {
    Seq::new((end - start) as nat, |k: int| pad6((start + k + 1) as nat) + ": "@ + items[start + k])
}

/// Up to `limit` items from the 1-based `offset`, numbered, one per line,
/// with a note of how many `unit`s remain after them; none when `offset`
/// is not the number of an item.
pub open spec fn spec_listing(items: Seq<Seq<char>>, offset: nat, limit: nat, unit: Seq<char>) -> Option<Seq<char>> {
    if offset == 0 || offset > items.len() {
        None
    } else {
        let start = offset - 1;
        let end = if start + limit < items.len() {
            start + limit
        } else {
            items.len() as int
        };
        let body = join(numbered(items, start, end), "\n"@);
        Some(
            if end < items.len() {
                body + "\n... ("@ + decimal((items.len() - end) as nat) + " "@ + unit
                    + " remaining)"@
            } else {
                body
            },
        )
    }
}

fn pad6_exec(n: u64) -> (r: String)
    ensures
        r@ == pad6(n as nat),
{
    let d = decimal_string(n);
    let len = d.unicode_len();
    if len < 6 {
        let mut s = String::new();
        let mut i: usize = 0;
        while i < 6 - len
            invariant
                len < 6,
                i <= 6 - len,
                s@ =~= Seq::new(i as nat, |_i: int| ' '),
            decreases 6 - len - i,
        {
            push_char(&mut s, ' ');
            i += 1;
        }
        s.append(d.as_str());
        s
    } else {
        d
    }
}

fn listing(items: &Vec<String>, offset: usize, limit: usize, unit: &str) -> (r: Option<String>)
    requires
        offset == 0 || offset > items.len() || offset - 1 + limit <= usize::MAX,
    ensures
        match r {
            Some(t) => spec_listing(views(items@), offset as nat, limit as nat, unit@) == Some(t@),
            None => spec_listing(views(items@), offset as nat, limit as nat, unit@) is None,
        },
{
    let ghost its = views(items@);
    if offset == 0 || offset > items.len() {
        return None;
    }
    let start = offset - 1;
    let end = if start + limit < items.len() {
        start + limit
    } else {
        items.len()
    };
    let mut rows: Vec<String> = Vec::new();
    let mut i = start;
    while i < end
        invariant
            its == views(items@),
            start <= i <= end <= items.len(),
            views(rows@) =~= numbered(its, start as int, i as int),
        decreases end - i,
    {
        let mut row = pad6_exec((i + 1) as u64);
        row.append(": ");
        row.append(items[i].as_str());
        let ghost before = views(rows@);
        rows.push(row);
        proof {
            assert(views(rows@) =~= before.push(row@));
        }
        i += 1;
    }
    let mut out = join_str(&rows, "\n");
    if end < items.len() {
        out.append("\n... (");
        out.append(decimal_string((items.len() - end) as u64).as_str());
        out.append(" ");
        out.append(unit);
        out.append(" remaining)");
    }
    Some(out)
}

/// A file's text as numbered lines (see `spec_listing`), or the error for
/// an offset outside the file.
pub fn read_file_listing(content: &str, offset: usize, limit: usize) -> (r: Result<String, String>)
    requires
        offset == 0 || offset > lines(content@).len() || offset - 1 + limit <= usize::MAX,
    ensures
        match r {
            Ok(t) => spec_listing(lines(content@), offset as nat, limit as nat, "lines"@) == Some(
                t@,
            ),
            Err(e) => spec_listing(lines(content@), offset as nat, limit as nat, "lines"@) is None
                && e@ == "File has "@ + decimal(lines(content@).len()) + " lines, offset "@
                + decimal(offset as nat) + " out of range."@,
        },
{
    let ls = lines_of(content);
    match listing(&ls, offset, limit, "lines") {
        Some(t) => Ok(t),
        None => {
            let mut m = String::from_str("File has ");
            m.append(decimal_string(ls.len() as u64).as_str());
            m.append(" lines, offset ");
            m.append(decimal_string(offset as u64).as_str());
            m.append(" out of range.");
            Err(m)
        },
    }
}


// ---------------------------------------------------------------------------
// Directory entries in order
// ---------------------------------------------------------------------------

/// Whether `a[i..]` sorts no later than `b[i..]` in code point order.
pub open spec fn le_from(a: Seq<char>, b: Seq<char>, i: int) -> bool
    decreases a.len() - i,
{
    if i < 0 || i >= a.len() {
        true
    } else if i >= b.len() {
        false
    } else if a[i] != b[i] {
        a[i] < b[i]
    } else {
        le_from(a, b, i + 1)
    }
}

/// Whether `a` sorts no later than `b` in code point order, the order in
/// which `String`s compare (UTF-8 keeps it).
pub open spec fn seq_le(a: Seq<char>, b: Seq<char>) -> bool {
    le_from(a, b, 0)
}

/// Code point order as a relation.
pub open spec fn code_le() -> spec_fn(Seq<char>, Seq<char>) -> bool {
    |a: Seq<char>, b: Seq<char>| seq_le(a, b)
}

proof fn lemma_le_from_total(a: Seq<char>, b: Seq<char>, i: int)
    requires
        0 <= i,
    ensures
        le_from(a, b, i) || le_from(b, a, i),
    decreases a.len() - i,
{
    if i < a.len() && i < b.len() && a[i] == b[i] {
        lemma_le_from_total(a, b, i + 1);
    }
}

proof fn lemma_le_from_antisym(a: Seq<char>, b: Seq<char>, i: int)
    requires
        0 <= i <= a.len(),
        i <= b.len(),
        a.subrange(0, i) == b.subrange(0, i),
        le_from(a, b, i),
        le_from(b, a, i),
    ensures
        a == b,
    decreases a.len() - i,
{
    if i >= a.len() {
        assert(a =~= b.subrange(0, i));
        if i < b.len() {
            assert(!le_from(b, a, i));
        }
        assert(b =~= b.subrange(0, i));
    } else {
        assert(a[i] == b[i]);
        assert(a.subrange(0, i + 1) =~= b.subrange(0, i + 1)) by {
            assert(a.subrange(0, i + 1) =~= a.subrange(0, i).push(a[i]));
            assert(b.subrange(0, i + 1) =~= b.subrange(0, i).push(b[i]));
        }
        lemma_le_from_antisym(a, b, i + 1);
    }
}

proof fn lemma_le_from_trans(a: Seq<char>, b: Seq<char>, c: Seq<char>, i: int)
    requires
        0 <= i,
        le_from(a, b, i),
        le_from(b, c, i),
    ensures
        le_from(a, c, i),
    decreases a.len() - i,
{
    if i < a.len() && a[i] == b[i] && b[i] == c[i] {
        lemma_le_from_trans(a, b, c, i + 1);
    }
}

/// Code point order is a total order: reflexive, antisymmetric,
/// transitive, and any two strings compare.
pub proof fn lemma_code_order_total()
    ensures
        total_ordering(code_le()),
{
    assert forall|x: Seq<char>| #[trigger] code_le()(x, x) by {
        lemma_le_from_total(x, x, 0);
    }
    assert forall|x: Seq<char>, y: Seq<char>| #[trigger] code_le()(x, y) && #[trigger] code_le()(y, x) implies x == y by {
        assert(x.subrange(0, 0) =~= y.subrange(0, 0));
        lemma_le_from_antisym(x, y, 0);
    }
    assert forall|x: Seq<char>, y: Seq<char>, z: Seq<char>| #[trigger] code_le()(x, y) && #[trigger] code_le()(y, z) implies code_le()(x, z) by {
        lemma_le_from_trans(x, y, z, 0);
    }
    assert forall|x: Seq<char>, y: Seq<char>| #[trigger] code_le()(x, y) || #[trigger] code_le()(y, x) by {
        lemma_le_from_total(x, y, 0);
    }
}

/// Whether `a` sorts no later than `b` in code point order.
pub fn str_le(a: &str, b: &str) -> (r: bool)
    ensures
        r == seq_le(a@, b@),
{
    let x = chars_of(a);
    let y = chars_of(b);
    let mut i: usize = 0;
    while i < x.len() && i < y.len() && x[i] == y[i]
        invariant
            x@ == a@,
            y@ == b@,
            i <= x.len(),
            le_from(a@, b@, 0) == le_from(a@, b@, i as int),
        decreases x.len() - i,
    {
        i += 1;
    }
    if i >= x.len() {
        true
    } else if i >= y.len() {
        false
    } else {
        x[i] < y[i]
    }
}

/// Directory entries in code point order.
pub fn sort_entries(entries: Vec<String>) -> (r: Vec<String>)
    ensures
        views(r@) == views(entries@).sort_by(code_le()),
        r.len() == entries.len(),
{
    broadcast use vstd::seq_lib::group_to_multiset_ensures;
    broadcast use vstd::multiset::group_multiset_axioms;

    let ghost all = views(entries@);
    let mut out: Vec<String> = Vec::new();
    let mut i: usize = 0;
    proof {
        lemma_code_order_total();
        assert(views(out@) =~= Seq::<Seq<char>>::empty());
        assert(all.take(0) =~= Seq::<Seq<char>>::empty());
    }
    while i < entries.len()
        invariant
            all == views(entries@),
            i <= entries.len(),
            total_ordering(code_le()),
            sorted_by(views(out@), code_le()),
            views(out@).to_multiset() == all.take(i as int).to_multiset(),
        decreases entries.len() - i,
    {
        let x = entries[i].clone();
        let ghost old_out = views(out@);
        let mut j = out.len();
        while j > 0 && !str_le(out[j - 1].as_str(), x.as_str())
            invariant
                old_out == views(out@),
                j <= out.len(),
                forall|k: int| j <= k < out.len() ==> !seq_le(old_out[k], x@),
            decreases j,
        {
            j -= 1;
        }
        out.insert(j, x);
        let ghost new_out = views(out@);
        proof {
            assert(new_out =~= old_out.insert(j as int, x@));
            assert forall|a: int, b: int| 0 <= a < b < new_out.len() implies #[trigger] code_le()(new_out[a], new_out[b]) by {
                if b < j {
                } else if a < j && b == j {
                    assert(code_le()(old_out[a], old_out[j - 1]) || a == j - 1);
                    assert(seq_le(old_out[j - 1], x@));
                    if a != j - 1 {
                        assert(code_le()(old_out[j - 1], x@));
                    }
                } else if a < j {
                    assert(new_out[b] == old_out[b - 1]);
                } else if a == j {
                    assert(!seq_le(old_out[b - 1], x@));
                    lemma_le_from_total(old_out[b - 1], x@, 0);
                } else {
                    assert(new_out[a] == old_out[a - 1]);
                    assert(new_out[b] == old_out[b - 1]);
                }
            }
            let t = old_out.take(j as int);
            let d = old_out.skip(j as int);
            assert(old_out =~= t + d);
            assert(new_out =~= t.push(x@) + d);
            vstd::seq_lib::lemma_multiset_commutative(t, d);
            vstd::seq_lib::lemma_multiset_commutative(t.push(x@), d);
            vstd::seq_lib::to_multiset_build(t, x@);
            vstd::seq_lib::to_multiset_build(all.take(i as int), all[i as int]);
            assert(old_out.to_multiset() =~= t.to_multiset().add(d.to_multiset()));
            assert(new_out.to_multiset() =~= t.to_multiset().insert(x@).add(d.to_multiset()));
            assert(new_out.to_multiset() =~= old_out.to_multiset().insert(x@));
            assert(x@ == all[i as int]);
            assert(all.take(i + 1) =~= all.take(i as int).push(all[i as int]));
        }
        i += 1;
    }
    proof {
        assert(all.take(entries.len() as int) =~= all);
        assert(views(out@).len() == views(out@).to_multiset().len());
        all.lemma_sort_by_ensures(code_le());
        vstd::seq_lib::lemma_sorted_unique(views(out@), all.sort_by(code_le()), code_le());
    }
    out
}

/// Directory entries, sorted in code point order, as numbered lines (see
/// `spec_listing`), or the error for an offset outside them.
pub fn read_dir_listing(entries: Vec<String>, offset: usize, limit: usize) -> (r: Result<String, String>)
    requires
        offset == 0 || offset > entries.len() || offset - 1 + limit <= usize::MAX,
    ensures
        match r {
            Ok(t) => spec_listing(
                views(entries@).sort_by(code_le()),
                offset as nat,
                limit as nat,
                "entries"@,
            ) == Some(t@),
            Err(e) => spec_listing(
                views(entries@).sort_by(code_le()),
                offset as nat,
                limit as nat,
                "entries"@,
            ) is None && e@ == "Directory has "@ + decimal(entries.len() as nat) + " entries, offset "@
                + decimal(offset as nat) + " out of range."@,
        },
{
    let n = entries.len();
    let sorted = sort_entries(entries);
    proof {
        assert(views(sorted@).len() == n);
    }
    match listing(&sorted, offset, limit, "entries") {
        Some(t) => Ok(t),
        None => {
            let mut m = String::from_str("Directory has ");
            m.append(decimal_string(n as u64).as_str());
            m.append(" entries, offset ");
            m.append(decimal_string(offset as u64).as_str());
            m.append(" out of range.");
            Err(m)
        },
    }
}


// ---------------------------------------------------------------------------
// Images
// ---------------------------------------------------------------------------

/// The character of a six-bit value in the standard base64 alphabet.
pub open spec fn b64_char(v: nat) -> char {
    if v < 26 {
        ('A' as nat + v) as char
    } else if v < 52 {
        ('a' as nat + (v - 26)) as char
    } else if v < 62 {
        ('0' as nat + (v - 52)) as char
    } else if v == 62 {
        '+'
    } else {
        '/'
    }
}

/// Bytes in standard base64 with `=` padding: every three bytes become
/// four characters of six bits each, high bits first.
pub open spec fn base64_std(d: Seq<u8>) -> Seq<char>
    decreases d.len(),
{
    if d.len() == 0 {
        seq![]
    } else if d.len() == 1 {
        seq![b64_char(d[0] as nat / 4), b64_char((d[0] as nat % 4) * 16), '=', '=']
    } else if d.len() == 2 {
        seq![
            b64_char(d[0] as nat / 4),
            b64_char((d[0] as nat % 4) * 16 + d[1] as nat / 16),
            b64_char((d[1] as nat % 16) * 4),
            '=',
        ]
    } else {
        seq![
            b64_char(d[0] as nat / 4),
            b64_char((d[0] as nat % 4) * 16 + d[1] as nat / 16),
            b64_char((d[1] as nat % 16) * 4 + d[2] as nat / 64),
            b64_char(d[2] as nat % 64),
        ] + base64_std(d.skip(3))
    }
}

/// Encodes bytes with `base64::engine::general_purpose::STANDARD`, the
/// standard alphabet with padding (see `base64_std`).
#[verifier::external_body]
fn base64_encode(data: &[u8]) -> (r: String)
    ensures
        r@ == base64_std(data@),
{
    base64::Engine::encode(&base64::engine::general_purpose::STANDARD, data)
}

/// An image read for the model: its MIME type, its bytes in base64, and a
/// short description.
pub struct ImagePayload {
    pub mime_type: String,
    pub base64_data: String,
    pub description: String,
}

/// The image read from `path`, or the error for one over the size limit.
pub fn image_payload(path: &str, data: &[u8]) -> (r: Result<ImagePayload, String>)
    ensures
        data.len() > MAX_READ_SIZE ==> (r matches Err(m) && m@ == "Image too large: "@ + decimal(
            data.len() as nat,
        ) + " bytes (max "@ + decimal(MAX_READ_SIZE as nat) + " bytes). Use external tools."@),
        data.len() <= MAX_READ_SIZE ==> (r matches Ok(p) && p.mime_type@ == spec_image_mime(path@)
            && p.base64_data@ == base64_std(data@) && p.description@ == "(image: "@
            + spec_image_mime(path@) + " at "@ + path@ + ", "@ + decimal(data.len() as nat)
            + " bytes)"@),
{
    if data.len() as u64 > MAX_READ_SIZE {
        return match image_size_error(data.len() as u64) {
            Some(m) => Err(m),
            None => Err(String::new()),
        };
    }
    let mime = image_mime_type(path);
    let mut description = String::from_str("(image: ");
    description.append(mime);
    description.append(" at ");
    description.append(path);
    description.append(", ");
    description.append(decimal_string(data.len() as u64).as_str());
    description.append(" bytes)");
    Ok(ImagePayload {
        mime_type: String::from_str(mime),
        base64_data: base64_encode(data),
        description,
    })
}

} // verus!
