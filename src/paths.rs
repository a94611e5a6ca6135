//! Path rules on `/`-separated path text: parents, relative output locations, the
//! reference directory of a manga and page size, extensions.
use vstd::prelude::*;
use vstd::string::*;
use crate::text::{decimal, push_decimal, push_text};

verus! {

/// The index of the last `c` in `s`, or -1.
pub open spec fn last_index_of(s: Seq<char>, c: char) -> int
    decreases s.len(),
{
    if s.len() == 0 {
        -1
    } else if s.last() == c {
        s.len() - 1
    } else {
        last_index_of(s.drop_last(), c)
    }
}

pub proof fn lemma_last_index_of(s: Seq<char>, c: char)
    ensures
        -1 <= last_index_of(s, c) < s.len(),
        last_index_of(s, c) >= 0 ==> s[last_index_of(s, c)] == c,
        forall|j: int| last_index_of(s, c) < j < s.len() ==> #[trigger] s[j] != c,
    decreases s.len(),
{
    if s.len() > 0 {
        lemma_last_index_of(s.drop_last(), c);
        assert forall|j: int| last_index_of(s, c) < j < s.len() implies #[trigger] s[j] != c by {
            if j < s.len() - 1 {
                assert(s.drop_last()[j] == s[j]);
            }
        }
        if last_index_of(s, c) >= 0 && s.last() != c {
            assert(s.drop_last()[last_index_of(s, c)] == s[last_index_of(s, c)]);
        }
    }
}

/// The index of the last `c` in `s`.
pub fn find_last(s: &str, c: char) -> (r: Option<usize>)
    ensures
        r matches Some(i) ==> i == last_index_of(s@, c),
        r is None ==> last_index_of(s@, c) == -1,
{
    let mut i: usize = s.unicode_len();
    assert(s@.take(i as int) =~= s@);
    while i > 0
        invariant
            i <= s@.len(),
            last_index_of(s@, c) == last_index_of(s@.take(i as int), c),
        decreases i,
    {
        assert(s@.take(i as int).drop_last() =~= s@.take(i - 1));
        if s.get_char(i - 1) == c {
            return Some(i - 1);
        }
        i = i - 1;
    }
    None
}

/// `s` without its trailing separators and trailing `.` components, which name no directory
/// of their own.
pub open spec fn trim_tail(s: Seq<char>) -> Seq<char>
    decreases s.len(),
{
    if s.len() > 0 && s.last() == '/' {
        trim_tail(s.drop_last())
    } else if s.len() >= 2 && s.last() == '.' && s[s.len() - 2] == '/' {
        trim_tail(s.take(s.len() - 2))
    } else {
        s
    }
}

pub proof fn lemma_trim_tail(s: Seq<char>)
    ensures
        trim_tail(s) == s.take(trim_tail(s).len() as int),
        trim_tail(s).len() <= s.len(),
        trim_tail(s).len() > 0 ==> trim_tail(s).last() != '/',
    decreases s.len(),
{
    let n = trim_tail(s).len() as int;
    if s.len() > 0 && s.last() == '/' {
        lemma_trim_tail(s.drop_last());
        assert(s.drop_last().take(n) =~= s.take(n));
    } else if s.len() >= 2 && s.last() == '.' && s[s.len() - 2] == '/' {
        lemma_trim_tail(s.take(s.len() - 2));
        assert(s.take(s.len() - 2).take(n) =~= s.take(n));
    } else {
        assert(s.take(s.len() as int) =~= s);
    }
}

/// The length of `s` without its trailing separators and `.` components.
fn trimmed_len(s: &str) -> (r: usize)
    ensures
        r == trim_tail(s@).len(),
{
    let mut n: usize = s.unicode_len();
    assert(s@.take(n as int) =~= s@);
    while n > 0 && (s.get_char(n - 1) == '/' || (n >= 2 && s.get_char(n - 1) == '.' && s.get_char(n - 2) == '/'))
        invariant
            n <= s@.len(),
            trim_tail(s@) == trim_tail(s@.take(n as int)),
        decreases n,
    {
        if s.get_char(n - 1) == '/' {
            assert(s@.take(n as int).drop_last() =~= s@.take(n - 1));
            n = n - 1;
        } else {
            assert(s@.take(n as int).take(n - 2) =~= s@.take(n - 2));
            n = n - 2;
        }
    }
    proof {
        lemma_trim_tail(s@.take(n as int));
    }
    n
}

/// The last component of a path, as `std::path::Path::file_name` finds it: trailing
/// separators and `.` components are ignored.
pub open spec fn base_name(s: Seq<char>) -> Seq<char> {
    let t = trim_tail(s);
    t.subrange(last_index_of(t, '/') + 1, t.len() as int)
}

/// A path names a directory when its last component is neither empty, `.` nor `..`.
pub open spec fn has_dir_name(s: Seq<char>) -> bool {
    let b = base_name(s);
    b.len() > 0 && b != seq!['.'] && b != seq!['.', '.']
}

/// The directory that holds the reference pair of a manga directory and page size, relative
/// to the resource directory: `背景水印图/{name}{width}x{height}`.
pub open spec fn background_dir_relative(manga_dir: Seq<char>, width: u32, height: u32) -> Seq<char> {
    "背景水印图/"@ + base_name(manga_dir) + decimal(width as nat) + "x"@ + decimal(height as nat)
}

/// Why a path could not be formed.
#[derive(Debug, Clone, Copy, PartialEq, Eq, Structural)]
pub enum PathError {
    /// The manga directory has no name of its own.
    NoDirName,
    /// The manga directory has no parent.
    NoParent,
    /// A page does not lie under the manga directory's parent.
    NotUnderParent,
}

/// The relative path of the reference directory for `manga_dir` and a page size.
pub fn get_background_dir_relative_path(manga_dir: &str, width: u32, height: u32) -> (r: Result<String, PathError>)
    ensures
        has_dir_name(manga_dir@) <==> r is Ok,
        r matches Ok(p) ==> p@ == background_dir_relative(manga_dir@, width, height),
        r is Err ==> r == Err::<String, PathError>(PathError::NoDirName),
{
    let n = trimmed_len(manga_dir);
    proof {
        lemma_trim_tail(manga_dir@);
    }
    let t = manga_dir.substring_char(0, n);
    proof {
        lemma_last_index_of(t@, '/');
    }
    let start: usize = match find_last(t, '/') {
        Some(i) => i + 1,
        None => 0,
    };
    let name = t.substring_char(start, n);
    assert(name@ == base_name(manga_dir@));
    let len = name.unicode_len();
    if len == 0 || (len == 1 && name.get_char(0) == '.') || (len == 2 && name.get_char(0) == '.' && name.get_char(1) == '.') {
        assert(!has_dir_name(manga_dir@)) by {
            if len == 1 {
                assert(name@ =~= seq!['.']);
            } else if len == 2 {
                assert(name@ =~= seq!['.', '.']);
            }
        }
        return Err(PathError::NoDirName);
    }
    assert(name@ != seq!['.']);
    assert(name@ != seq!['.', '.']);
    let mut out = String::new();
    push_text(&mut out, "背景水印图/");
    push_text(&mut out, name);
    push_decimal(&mut out, width as u64);
    push_text(&mut out, "x");
    push_decimal(&mut out, height as u64);
    Ok(out)
}

/// The parent of a path, as `std::path::Path::parent` gives it for `/`-separated text:
/// nothing for an empty path or the root, empty text for a single relative component.
pub open spec fn parent_dir(s: Seq<char>) -> Option<Seq<char>> {
    let t = trim_tail(s);
    let i = last_index_of(t, '/');
    if t.len() == 0 {
        None
    } else if i < 0 {
        Some(Seq::empty())
    } else if i == 0 {
        Some(seq!['/'])
    } else {
        Some(t.take(i))
    }
}

/// The parent of a path; see `parent_dir`.
pub fn parent_path(s: &str) -> (r: Option<String>)
    ensures
        r is Some <==> parent_dir(s@) is Some,
        r matches Some(p) ==> p@ == parent_dir(s@)->Some_0,
{
    let n = trimmed_len(s);
    proof {
        lemma_trim_tail(s@);
    }
    if n == 0 {
        return None;
    }
    let t = s.substring_char(0, n);
    proof {
        lemma_last_index_of(t@, '/');
    }
    match find_last(t, '/') {
        None => Some(String::new()),
        Some(i) => {
            if i == 0 {
                proof {
                    reveal_strlit("/");
                }
                let r = String::from_str("/");
                assert(r@ =~= seq!['/']);
                Some(r)
            } else {
                Some(String::from_str(t.substring_char(0, i)))
            }
        },
    }
}

/// The parent of a manga directory, under which output paths are taken relative.
pub fn manga_dir_parent(manga_dir: &str) -> (r: Result<String, PathError>)
    ensures
        r is Ok <==> parent_dir(manga_dir@) is Some,
        r matches Ok(p) ==> p@ == parent_dir(manga_dir@)->Some_0,
        r is Err ==> r == Err::<String, PathError>(PathError::NoParent),
{
    match parent_path(manga_dir) {
        Some(p) => Ok(p),
        None => Err(PathError::NoParent),
    }
}

/// The text that a path under directory `base` starts with.
pub open spec fn dir_prefix(base: Seq<char>) -> Seq<char> {
    if base.len() == 0 {
        base
    } else if base.last() == '/' {
        base
    } else {
        base.push('/')
    }
}

/// `rel` joined under directory `dir`.
pub open spec fn join(dir: Seq<char>, rel: Seq<char>) -> Seq<char> {
    dir_prefix(dir) + rel
}

/// Joins `rel` under directory `dir`.
pub fn join_path(dir: &str, rel: &str) -> (r: String)
    ensures
        r@ == join(dir@, rel@),
{
    let mut out = String::from_str(dir);
    let n = dir.unicode_len();
    if n > 0 && dir.get_char(n - 1) != '/' {
        out.push('/');
    }
    push_text(&mut out, rel);
    out
}

/// Whether `p` starts with `prefix`.
pub fn starts_with(p: &str, prefix: &str) -> (r: bool)
    ensures
        r == prefix@.is_prefix_of(p@),
{
    let n = prefix.unicode_len();
    let m = p.unicode_len();
    if n > m {
        return false;
    }
    let mut i: usize = 0;
    while i < n
        invariant
            n == prefix@.len(),
            m == p@.len(),
            n <= m,
            i <= n,
            forall|j: int| 0 <= j < i ==> prefix@[j] == p@[j],
        decreases n - i,
    {
        if prefix.get_char(i) != p.get_char(i) {
            return false;
        }
        i = i + 1;
    }
    true
}

/// Where a page of a manga goes under the output directory: its path relative to the manga
/// directory's parent, joined under `output_dir`, so that the manga directory's name is the
/// first component under `output_dir`.
pub open spec fn mirrored_path(output_dir: Seq<char>, manga_parent: Seq<char>, img: Seq<char>) -> Option<Seq<char>> {
    let p = dir_prefix(manga_parent);
    if p.is_prefix_of(img) {
        Some(join(output_dir, img.subrange(p.len() as int, img.len() as int)))
    } else {
        None
    }
}

/// The output location of the page `img_path`, where `manga_parent` is the parent of the
/// manga directory (see `manga_dir_parent`).
pub fn output_path(output_dir: &str, manga_parent: &str, img_path: &str) -> (r: Result<String, PathError>)
    ensures
        r is Ok <==> mirrored_path(output_dir@, manga_parent@, img_path@) is Some,
        r matches Ok(p) ==> p@ == mirrored_path(output_dir@, manga_parent@, img_path@)->Some_0,
        r is Err ==> r == Err::<String, PathError>(PathError::NotUnderParent),
{
    let mut prefix = String::from_str(manga_parent);
    let n = manga_parent.unicode_len();
    if n > 0 && manga_parent.get_char(n - 1) != '/' {
        prefix.push('/');
    }
    assert(prefix@ == dir_prefix(manga_parent@));
    if !starts_with(img_path, prefix.as_str()) {
        return Err(PathError::NotUnderParent);
    }
    let rel = img_path.substring_char(prefix.as_str().unicode_len(), img_path.unicode_len());
    Ok(join_path(output_dir, rel))
}

/// The path with its extension set to `ext`: the file name's last `.` and what follows it are
/// replaced, or `.ext` is appended when the file name has no extension (a leading `.` does
/// not start one).
pub open spec fn with_extension(p: Seq<char>, ext: Seq<char>) -> Seq<char> {
    let start = last_index_of(p, '/') + 1;
    let dot = last_index_of(p, '.');
    if dot > start {
        p.take(dot) + seq!['.'] + ext
    } else {
        p + seq!['.'] + ext
    }
}

/// Sets the extension of a path; see `with_extension`.
pub fn set_extension(p: &str, ext: &str) -> (r: String)
    ensures
        r@ == with_extension(p@, ext@),
{
    let len = p.unicode_len();
    proof {
        lemma_last_index_of(p@, '/');
        lemma_last_index_of(p@, '.');
    }
    let start: usize = match find_last(p, '/') {
        Some(i) => i + 1,
        None => 0,
    };
    let mut out = match find_last(p, '.') {
        Some(dot) => {
            if dot > start {
                String::from_str(p.substring_char(0, dot))
            } else {
                String::from_str(p)
            }
        },
        None => String::from_str(p),
    };
    out.push('.');
    push_text(&mut out, ext);
    out
}

/// The extension of a path: what follows the file name's last `.`, unless that `.` starts
/// the file name.
pub open spec fn extension_of(p: Seq<char>) -> Option<Seq<char>> {
    let start = last_index_of(p, '/') + 1;
    let dot = last_index_of(p, '.');
    if dot > start {
        Some(p.subrange(dot + 1, p.len() as int))
    } else {
        None
    }
}

/// `a` equals the lower-case ASCII word `word` up to ASCII case.
pub open spec fn eq_ignore_case(a: Seq<char>, word: Seq<char>) -> bool {
    &&& a.len() == word.len()
    &&& forall|i: int| 0 <= i < a.len() ==> (#[trigger] a[i] as u32 == word[i] as u32)
        || ('a' <= word[i] <= 'z' && a[i] as u32 + 32 == word[i] as u32)
}

fn eq_ignore_case_exec(a: &str, word: &str) -> (r: bool)
    ensures
        r == eq_ignore_case(a@, word@),
{
    let n = a.unicode_len();
    if n != word.unicode_len() {
        return false;
    }
    let mut i: usize = 0;
    while i < n
        invariant
            n == a@.len(),
            n == word@.len(),
            i <= n,
            forall|j: int| 0 <= j < i ==> (#[trigger] a@[j] as u32 == word@[j] as u32)
                || ('a' <= word@[j] <= 'z' && a@[j] as u32 + 32 == word@[j] as u32),
        decreases n - i,
    {
        let c = a.get_char(i);
        let w = word.get_char(i);
        if !((c as u32) == (w as u32) || ('a' <= w && w <= 'z' && (c as u32) + 32 == (w as u32))) {
            return false;
        }
        i = i + 1;
    }
    true
}

/// The extension of a path.
pub fn path_extension(p: &str) -> (r: Option<&str>)
    ensures
        r is Some <==> extension_of(p@) is Some,
        r matches Some(e) ==> e@ == extension_of(p@)->Some_0,
{
    let len = p.unicode_len();
    proof {
        lemma_last_index_of(p@, '/');
        lemma_last_index_of(p@, '.');
    }
    let start: usize = match find_last(p, '/') {
        Some(i) => i + 1,
        None => 0,
    };
    match find_last(p, '.') {
        Some(dot) => {
            if dot > start {
                Some(p.substring_char(dot + 1, len))
            } else {
                None
            }
        },
        None => None,
    }
}

/// A JPEG page: extension `jpg` or `jpeg`, in any ASCII case.
pub open spec fn is_jpeg_spec(p: Seq<char>) -> bool {
    extension_of(p) matches Some(e) && (eq_ignore_case(e, "jpg"@) || eq_ignore_case(e, "jpeg"@))
}

/// An image file: extension `jpg`, `jpeg`, `png`, `webp` or `gif`, in any ASCII case.
pub open spec fn is_image_spec(p: Seq<char>) -> bool {
    extension_of(p) matches Some(e) && (eq_ignore_case(e, "jpg"@) || eq_ignore_case(e, "jpeg"@)
        || eq_ignore_case(e, "png"@) || eq_ignore_case(e, "webp"@) || eq_ignore_case(e, "gif"@))
}

/// Whether a path names a JPEG page; see `is_jpeg_spec`.
pub fn is_jpeg_path(p: &str) -> (r: bool)
    ensures
        r == is_jpeg_spec(p@),
{
    match path_extension(p) {
        Some(e) => eq_ignore_case_exec(e, "jpg") || eq_ignore_case_exec(e, "jpeg"),
        None => false,
    }
}

/// Telling image files apart by their path.
pub trait PathIsImage {
    /// The path text.
    spec fn path_text(&self) -> Seq<char>;

    /// Whether the path names an image file; see `is_image_spec`.
    fn is_image(&self) -> (r: bool)
        ensures
            r == is_image_spec(self.path_text()),
    ;
}

impl PathIsImage for str {
    open spec fn path_text(&self) -> Seq<char> {
        self@
    }

    fn is_image(&self) -> (r: bool) {
        match path_extension(self) {
            Some(e) => eq_ignore_case_exec(e, "jpg") || eq_ignore_case_exec(e, "jpeg")
                || eq_ignore_case_exec(e, "png") || eq_ignore_case_exec(e, "webp")
                || eq_ignore_case_exec(e, "gif"),
            None => false,
        }
    }
}

} // verus!
