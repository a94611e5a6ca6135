//! File-system-safe names for chapters.
use vstd::prelude::*;
use vstd::string::*;

verus! {

/// Whether a character has the Unicode `White_Space` property: tab to carriage return,
/// space, next line, no-break space, ogham space mark, the spaces from en quad to hair space,
/// line and paragraph separators, narrow no-break space, medium mathematical space and
/// ideographic space.
pub open spec fn unicode_space(c: char) -> bool {
    let u = c as u32;
    (0x9 <= u <= 0xD) || u == 0x20 || u == 0x85 || u == 0xA0 || u == 0x1680 || (0x2000 <= u <= 0x200A)
        || u == 0x2028 || u == 0x2029 || u == 0x202F || u == 0x205F || u == 0x3000
}

/// Relies on `char::is_whitespace`: the Unicode `White_Space` property of the character.
pub assume_specification[ char::is_whitespace ](c: char) -> (r: bool)
    ensures
        r == unicode_space(c),
;

/// What a character becomes in a file name: characters that some major file system refuses
/// (`< > : " / \ | ? *`) become `_`, control characters are dropped.
pub open spec fn safe_char(c: char) -> Seq<char> {
    if c == '<' || c == '>' || c == ':' || c == '"' || c == '/' || c == '\\' || c == '|' || c == '?' || c == '*' {
        seq!['_']
    } else if (c as u32) < 32 || c as u32 == 127 {
        Seq::empty()
    } else {
        seq![c]
    }
}

/// `s` with every character made file-name safe; see `safe_char`.
pub open spec fn sanitized(s: Seq<char>) -> Seq<char>
    decreases s.len(),
{
    if s.len() == 0 {
        Seq::empty()
    } else {
        sanitized(s.drop_last()) + safe_char(s.last())
    }
}

/// Makes a name safe to use as a file name; see `sanitized`.
pub fn filename_filter(s: &str) -> (r: String)
    ensures
        r@ == sanitized(s@),
{
    let n = s.unicode_len();
    let mut out = String::new();
    let mut i: usize = 0;
    while i < n
        invariant
            n == s@.len(),
            i <= n,
            out@ == sanitized(s@.take(i as int)),
        decreases n - i,
    {
        let c = s.get_char(i);
        assert(s@.take(i + 1).drop_last() =~= s@.take(i as int));
        if c == '<' || c == '>' || c == ':' || c == '"' || c == '/' || c == '\\' || c == '|' || c == '?' || c == '*' {
            out.push('_');
        } else if (c as u32) < 32 || c as u32 == 127 {
        } else {
            out.push(c);
        }
        assert(out@ =~= sanitized(s@.take(i as int)) + safe_char(c));
        i = i + 1;
    }
    assert(s@.take(n as int) =~= s@);
    out
}

/// `s` without leading white space.
pub open spec fn trim_start(s: Seq<char>) -> Seq<char>
    decreases s.len(),
{
    if s.len() > 0 && unicode_space(s[0]) {
        trim_start(s.drop_first())
    } else {
        s
    }
}

/// `s` without trailing white space.
pub open spec fn trim_end(s: Seq<char>) -> Seq<char>
    decreases s.len(),
{
    if s.len() > 0 && unicode_space(s.last()) {
        trim_end(s.drop_last())
    } else {
        s
    }
}

/// `s` without leading and trailing white space.
pub open spec fn trimmed(s: Seq<char>) -> Seq<char> {
    trim_end(trim_start(s))
}

/// Removes leading and trailing white space; see `trimmed`.
pub fn trim(s: &str) -> (r: String)
    ensures
        r@ == trimmed(s@),
{
    let n = s.unicode_len();
    let mut a: usize = 0;
    assert(s@.subrange(0, n as int) =~= s@);
    while a < n && s.get_char(a).is_whitespace()
        invariant
            n == s@.len(),
            a <= n,
            trim_start(s@) == trim_start(s@.subrange(a as int, n as int)),
        decreases n - a,
    {
        assert(s@.subrange(a as int, n as int).drop_first() =~= s@.subrange(a + 1, n as int));
        a = a + 1;
    }
    let ghost front = s@.subrange(a as int, n as int);
    assert(trim_start(front) == front);
    let mut b: usize = n;
    assert(front.take((b - a) as int) =~= front);
    while b > a && s.get_char(b - 1).is_whitespace()
        invariant
            n == s@.len(),
            a <= b <= n,
            front == s@.subrange(a as int, n as int),
            trim_end(front) == trim_end(front.take((b - a) as int)),
        decreases b,
    {
        assert(front.take((b - a) as int).drop_last() =~= front.take((b - 1 - a) as int));
        b = b - 1;
    }
    let t = s.substring_char(a, b);
    assert(t@ =~= front.take((b - a) as int));
    String::from_str(t)
}

/// The file-system name of an episode: the sanitized title alone when it equals the
/// sanitized short title, else `"{short_title} {title}"`, trimmed.
pub open spec fn ep_title_of(title: Seq<char>, short_title: Seq<char>) -> Seq<char> {
    let t = sanitized(title);
    let st = sanitized(short_title);
    trimmed(if t == st { t } else { st + seq![' '] + t })
}

/// The file-system name of an episode; see `ep_title_of`.
pub fn get_ep_title(title: &str, short_title: &str) -> (r: String)
    ensures
        r@ == ep_title_of(title@, short_title@),
{
    let t = filename_filter(title);
    let st = filename_filter(short_title);
    if t == st {
        trim(t.as_str())
    } else {
        let mut joined = st;
        joined.push(' ');
        joined.append(t.as_str());
        assert(joined@ =~= st@ + seq![' '] + t@);
        trim(joined.as_str())
    }
}

} // verus!
