//! Character-level helpers on strings: prefixes, slices and the parts of a
//! path that classification looks at.
//!
//! Every function here is specified over `Seq<char>`, the view of a string.

use vstd::prelude::*;
use vstd::std_specs::iter::IteratorSpec;

verus! {

/// The largest index at which `c` occurs in `s`, or `-1` when it does not occur.
pub open spec fn last_position(s: Seq<char>, c: char) -> int
    decreases s.len(),
{
    if s.len() == 0 {
        -1
    } else if s.last() == c {
        s.len() - 1
    } else {
        last_position(s.drop_last(), c)
    }
}

/// `last_position` is the index of an occurrence, and nothing occurs after it.
pub proof fn lemma_last_position(s: Seq<char>, c: char)
    ensures
        -1 <= last_position(s, c) < s.len(),
        last_position(s, c) >= 0 ==> s[last_position(s, c)] == c,
        forall|j: int| last_position(s, c) < j < s.len() ==> s[j] != c,
    decreases s.len(),
{
    if s.len() > 0 && s.last() != c {
        lemma_last_position(s.drop_last(), c);
        assert forall|j: int| last_position(s, c) < j < s.len() implies s[j] != c by {
            if j < s.len() - 1 {
                assert(s.drop_last()[j] == s[j]);
            }
        }
    }
}

/// The part of `path` after its last `/`; the whole of it when there is none.
pub open spec fn file_name_of(path: Seq<char>) -> Seq<char> {
    path.skip(last_position(path, '/') + 1)
}

/// Where the extension's dot stands in `path`, if the file name has an
/// extension: its last `.`, unless that is the file name's first character.
pub open spec fn extension_dot(path: Seq<char>) -> Option<int> {
    let start = last_position(path, '/') + 1;
    let dot = last_position(file_name_of(path), '.');
    if dot > 0 {
        Some(start + dot)
    } else {
        None
    }
}

/// The extension of the file that `path` names, without its dot.
pub open spec fn extension_of(path: Seq<char>) -> Option<Seq<char>> {
    match extension_dot(path) {
        Some(dot) => Some(path.skip(dot + 1)),
        None => None,
    }
}

/// `path` with the extension of its file name replaced by `ext`, or with
/// `.ext` appended when there is no extension.
pub open spec fn with_extension(path: Seq<char>, ext: Seq<char>) -> Seq<char> {
    let stem = match extension_dot(path) {
        Some(dot) => path.take(dot),
        None => path,
    };
    stem.push('.') + ext
}

/// A token looks like a flag when it begins with `-`.
pub open spec fn looks_like_flag(token: Seq<char>) -> bool {
    token.len() > 0 && token[0] == '-'
}

/// The characters of `s`, in order.
pub fn chars_of(s: &str) -> (r: Vec<char>)
    ensures
        r@ == s@,
{
    let mut out: Vec<char> = Vec::new();
    let chars = s.chars();
    for c in it: chars
        invariant
            out@ == it.seq().take(it.index@),
    {
        out.push(c);
    }
    out
}

/// Whether `s` begins with `prefix`.
pub fn starts_with(s: &str, prefix: &str) -> (r: bool)
    ensures
        r == prefix@.is_prefix_of(s@),
{
    let mut rest = s.chars();
    let mut wanted = prefix.chars();
    let ghost mut i: int = 0;
    loop
        invariant
            0 <= i <= prefix@.len(),
            i <= s@.len(),
            IteratorSpec::remaining(&rest) == s@.skip(i),
            IteratorSpec::remaining(&wanted) == prefix@.skip(i),
            forall|j: int| 0 <= j < i ==> s@[j] == prefix@[j],
        decreases prefix@.len() - i,
    {
        match wanted.next() {
            None => {
                assert(s@.subrange(0, prefix@.len() as int) =~= prefix@);
                return true;
            },
            Some(c) => {
                match rest.next() {
                    Some(d) => {
                        if c != d {
                            assert(!prefix@.is_prefix_of(s@)) by {
                                if prefix@.len() <= s@.len() {
                                    assert(s@.subrange(0, prefix@.len() as int)[i] == s@[i]);
                                }
                            }
                            return false;
                        }
                    },
                    None => {
                        return false;
                    },
                }
                proof {
                    assert(s@.skip(i).drop_first() =~= s@.skip(i + 1));
                    assert(prefix@.skip(i).drop_first() =~= prefix@.skip(i + 1));
                    i = i + 1;
                }
            },
        }
    }
}

/// Whether two strings hold the same characters.
pub fn same_text(a: &str, b: &str) -> (r: bool)
    ensures
        r == (a@ == b@),
{
    proof {
        if a@.len() == b@.len() {
            assert(a@.subrange(0, b@.len() as int) =~= a@);
        }
    }
    a.unicode_len() == b.unicode_len() && starts_with(a, b)
}

/// Whether `s` begins with `prefix` followed by the character `sep`.
pub fn starts_with_then(s: &str, prefix: &str, sep: char) -> (r: bool)
    ensures
        r == prefix@.push(sep).is_prefix_of(s@),
{
    let n = prefix.unicode_len();
    if !starts_with(s, prefix) {
        assert(!prefix@.push(sep).is_prefix_of(s@)) by {
            if prefix@.push(sep).is_prefix_of(s@) {
                assert(s@.subrange(0, prefix@.len() as int) =~= s@.subrange(
                    0,
                    prefix@.len() as int + 1,
                ).take(prefix@.len() as int));
                assert(prefix@.push(sep).take(prefix@.len() as int) =~= prefix@);
            }
        }
        return false;
    }
    if s.unicode_len() <= n {
        return false;
    }
    let c = s.get_char(n);
    proof {
        if c == sep {
            assert(s@.subrange(0, n + 1) =~= s@.subrange(0, n as int).push(sep));
        } else {
            assert(s@.subrange(0, n + 1)[n as int] == c);
        }
    }
    c == sep
}

/// The characters of `s` from index `from` on.
pub fn tail_from(s: &str, from: usize) -> (r: String)
    requires
        from <= s@.len(),
    ensures
        r@ == s@.skip(from as int),
{
    let n = s.unicode_len();
    String::from_str(s.substring_char(from, n))
}

/// The first `to` characters of `s`.
pub fn head_to(s: &str, to: usize) -> (r: String)
    requires
        to <= s@.len(),
    ensures
        r@ == s@.take(to as int),
{
    String::from_str(s.substring_char(0, to))
}

/// `a` followed by `b`.
pub fn joined(a: &str, b: &str) -> (r: String)
    ensures
        r@ == a@ + b@,
{
    String::from_str(a).concat(b)
}

/// Whether `token` begins with `-`.
pub fn is_flag_like(token: &str) -> (r: bool)
    ensures
        r == looks_like_flag(token@),
{
    token.unicode_len() > 0 && token.get_char(0) == '-'
}

/// The largest index at which `c` occurs among the first `end` characters of
/// `s`, if any.
fn last_index_before(s: &Vec<char>, end: usize, c: char) -> (r: Option<usize>)
    requires
        end <= s.len(),
    ensures
        match r {
            Some(i) => i as int == last_position(s@.take(end as int), c),
            None => last_position(s@.take(end as int), c) == -1,
        },
{
    let mut i: usize = end;
    while i > 0
        invariant
            i <= end <= s.len(),
            last_position(s@.take(end as int), c) == last_position(s@.take(i as int), c),
        decreases i,
    {
        proof {
            assert(s@.take(i as int).drop_last() =~= s@.take(i - 1));
        }
        if s[i - 1] == c {
            return Some(i - 1);
        }
        i -= 1;
    }
    None
}

/// The index in `path` of the dot that begins its extension, if it has one.
fn find_extension_dot(path: &Vec<char>) -> (r: Option<usize>)
    ensures
        match r {
            Some(i) => extension_dot(path@) == Some(i as int) && i < path.len(),
            None => extension_dot(path@) is None,
        },
{
    let n = path.len();
    proof {
        assert(path@.take(n as int) =~= path@);
        lemma_last_position(path@, '/');
        lemma_last_position(file_name_of(path@), '.');
    }
    let start: usize = match last_index_before(path, n, '/') {
        Some(i) => i + 1,
        None => 0,
    };
    let mut i: usize = n;
    proof {
        assert(file_name_of(path@).take(n - start) =~= file_name_of(path@));
    }
    while i > start
        invariant
            start <= i <= n,
            n == path.len(),
            start == last_position(path@, '/') + 1,
            last_position(file_name_of(path@), '.') == last_position(
                file_name_of(path@).take(i - start),
                '.',
            ),
        decreases i,
    {
        proof {
            assert(file_name_of(path@).take(i - start).drop_last() =~= file_name_of(path@).take(
                i - 1 - start,
            ));
            assert(file_name_of(path@).take(i - start).last() == path@[i - 1]);
        }
        if path[i - 1] == '.' {
            if i - 1 > start {
                return Some(i - 1);
            } else {
                return None;
            }
        }
        i -= 1;
    }
    None
}

/// The extension of the file that `path` names.
pub fn extension(path: &str) -> (r: Option<String>)
    ensures
        match r {
            Some(e) => extension_of(path@) == Some(e@),
            None => extension_of(path@) is None,
        },
{
    let chars = chars_of(path);
    match find_extension_dot(&chars) {
        Some(dot) => Some(tail_from(path, dot + 1)),
        None => None,
    }
}

/// `path` with its extension replaced by `ext`.
pub fn replace_extension(path: &str, ext: &str) -> (r: String)
    ensures
        r@ == with_extension(path@, ext@),
{
    let chars = chars_of(path);
    let stem = match find_extension_dot(&chars) {
        Some(dot) => head_to(path, dot),
        None => String::from_str(path),
    };
    let r = stem.concat(".").concat(ext);
    proof {
        reveal_strlit(".");
        assert("."@ =~= seq!['.']);
        let s = match extension_dot(path@) {
            Some(dot) => path@.take(dot),
            None => path@,
        };
        assert(s + seq!['.'] =~= s.push('.'));
    }
    r
}

/// The file name of `path`: what follows its last `/`.
pub fn file_name(path: &str) -> (r: String)
    ensures
        r@ == file_name_of(path@),
{
    let chars = chars_of(path);
    let n = chars.len();
    proof {
        assert(chars@.take(n as int) =~= chars@);
        lemma_last_position(path@, '/');
    }
    match last_index_before(&chars, n, '/') {
        Some(i) => tail_from(path, i + 1),
        None => tail_from(path, 0),
    }
}

/// Appends `s` to `texts`.
pub fn push_text(texts: &mut Vec<String>, s: String)
    ensures
        final(texts).deep_view() == old(texts).deep_view().push(s@),
{
    texts.push(s);
    assert(texts.deep_view() =~= old(texts).deep_view().push(s@));
}

/// Appends the strings of `more` to `texts`, in order.
pub fn extend_texts(texts: &mut Vec<String>, more: Vec<String>)
    ensures
        final(texts).deep_view() == old(texts).deep_view() + more.deep_view(),
{
    let mut more = more;
    let ghost added = more.deep_view();
    texts.append(&mut more);
    assert(texts.deep_view() =~= old(texts).deep_view() + added);
}

/// The strings of `texts` from index `from` up to, not including, index `to`.
pub fn copy_range(texts: &[String], from: usize, to: usize) -> (r: Vec<String>)
    requires
        from <= to <= texts.len(),
    ensures
        r.deep_view() == texts.deep_view().subrange(from as int, to as int),
{
    let mut out: Vec<String> = Vec::new();
    let mut i: usize = from;
    while i < to
        invariant
            from <= i <= to <= texts.len(),
            out.deep_view() =~= texts.deep_view().subrange(from as int, i as int),
        decreases to - i,
    {
        let ghost before = out.deep_view();
        out.push(texts[i].clone());
        proof {
            assert(out.deep_view() =~= before.push(texts[i as int]@));
            assert(texts.deep_view()[i as int] == texts[i as int]@);
        }
        i += 1;
    }
    out
}

} // verus!
