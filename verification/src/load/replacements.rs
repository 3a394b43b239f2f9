use vstd::prelude::*;
use vstd::slice::slice_to_vec;
use vstd::string::{StrSliceExecFns, StringSliceAdditionalSpecFns};
use vstd::utf8::{encode_utf8, valid_utf8};
use crate::load::asset::is_root_separator;
use crate::text::utf8_text;

verus! {

/// What stands for the name of the file in the text of a material file.
pub const NAME_PLACEHOLDER: &'static str = "${name}";

/// Where the last component of `path` begins: behind its last separator, or at
/// the start where it has none.
pub open spec fn name_start(path: Seq<char>) -> nat
    decreases path.len(),
{
    if path.len() == 0 {
        0
    } else if is_root_separator(path.last()) {
        path.len()
    } else {
        name_start(path.drop_last())
    }
}

/// The position of the first `.` of `name` at or behind `from`, or the length of
/// `name` where there is none.
pub open spec fn first_dot(name: Seq<char>, from: nat) -> nat
    decreases name.len() - from,
{
    if from >= name.len() {
        name.len()
    } else if name[from as int] == '.' {
        from
    } else {
        first_dot(name, from + 1)
    }
}

/// Whether `name` is one of the two components that name no file.
pub open spec fn is_dots(name: Seq<char>) -> bool {
    name == seq!['.'] || name == seq!['.', '.']
}

/// The name of the file at `path` without its extension: the last component of
/// the path up to its first `.`, a `.` that the name begins with left aside.
/// A path that ends in a separator, in `.` or in `..` names no file.
pub open spec fn file_stem(path: Seq<char>) -> Option<Seq<char>> {
    let name = path.skip(name_start(path) as int);
    if name.len() == 0 || is_dots(name) {
        None
    } else {
        Some(name.take(first_dot(name, 1) as int))
    }
}

/// `text` with every occurrence of `pattern` replaced by `with`, the
/// occurrences taken from the left and not overlapping. An empty pattern
/// occurs nowhere.
pub open spec fn replaced(text: Seq<u8>, pattern: Seq<u8>, with: Seq<u8>) -> Seq<u8>
    decreases text.len(),
{
    if pattern.len() == 0 || text.len() < pattern.len() {
        text
    } else if text.take(pattern.len() as int) == pattern {
        with + replaced(text.skip(pattern.len() as int), pattern, with)
    } else {
        seq![text[0]] + replaced(text.skip(1), pattern, with)
    }
}

/// The text of a material file as it is parsed: where the text is UTF-8 and the
/// path names a file, every `${name}` in it is replaced by the name of the file
/// without its extension; otherwise the text is unchanged.
pub open spec fn replaced_text(path: Seq<char>, bytes: Seq<u8>) -> Seq<u8> {
    if !valid_utf8(bytes) {
        bytes
    } else {
        match file_stem(path) {
            Some(stem) => replaced(bytes, encode_utf8(NAME_PLACEHOLDER@), encode_utf8(stem)),
            None => bytes,
        }
    }
}


/// Finds where the last component of `path` begins.
fn find_name_start(path: &str) -> (start: usize)
    ensures
        start == name_start(path@),
        start <= path@.len(),
{
    let mut end = path.unicode_len();
    assert(path@.take(end as int) =~= path@);
    while end > 0
        invariant
            end <= path@.len(),
            name_start(path@) == name_start(path@.take(end as int)),
        decreases end,
    {
        let c = path.get_char(end - 1);
        let ghost prefix = path@.take(end as int);
        assert(prefix.last() == c);
        if c == '/' || c == '\\' {
            return end;
        }
        assert(prefix.drop_last() =~= path@.take(end - 1));
        end -= 1;
    }
    0
}

/// Finds the first `.` of `name` at or behind `from`.
fn find_first_dot(name: &str, from: usize) -> (at: usize)
    ensures
        at == first_dot(name@, from as nat),
        at <= name@.len(),
        from <= name@.len() ==> from <= at,
{
    let len = name.unicode_len();
    if from >= len {
        return len;
    }
    let mut i = from;
    while i < len
        invariant
            from <= i <= len,
            len == name@.len(),
            first_dot(name@, from as nat) == first_dot(name@, i as nat),
        decreases len - i,
    {
        if name.get_char(i) == '.' {
            return i;
        }
        i += 1;
    }
    len
}

/// The name of the file at `path` without its extension.
pub fn file_stem_of(path: &str) -> (r: Option<&str>)
    ensures
        match r {
            Some(stem) => file_stem(path@) == Some(stem@),
            None => file_stem(path@) is None,
        },
{
    let start = find_name_start(path);
    let len = path.unicode_len();
    let name = path.substring_char(start, len);
    assert(name@ =~= path@.skip(start as int));
    let name_len = len - start;
    if name_len == 0 {
        return None;
    }
    if name.get_char(0) == '.' {
        if name_len == 1 {
            assert(name@ =~= seq!['.']);
            return None;
        }
        if name_len == 2 && name.get_char(1) == '.' {
            assert(name@ =~= seq!['.', '.']);
            return None;
        }
    }
    assert(!is_dots(name@)) by {
        if name@ == seq!['.'] {
            assert(name@.len() == 1 && name@[0] == '.');
        }
        if name@ == seq!['.', '.'] {
            assert(name@.len() == 2 && name@[0] == '.' && name@[1] == '.');
        }
    }
    let dot = find_first_dot(name, 1);
    Some(name.substring_char(0, dot))
}

/// Whether `pattern` stands in `text` at position `at`.
fn occurs_at(text: &[u8], at: usize, pattern: &[u8]) -> (r: bool)
    requires
        at + pattern.len() <= text.len(),
    ensures
        r == (text@.skip(at as int).take(pattern@.len() as int) == pattern@),
{
    let ghost window = text@.skip(at as int).take(pattern@.len() as int);
    let mut k: usize = 0;
    while k < pattern.len()
        invariant
            k <= pattern.len(),
            at + pattern.len() <= text.len(),
            window == text@.skip(at as int).take(pattern@.len() as int),
            forall|j: int| 0 <= j < k ==> window[j] == pattern@[j],
        decreases pattern.len() - k,
    {
        assert(window[k as int] == text@[at + k]);
        if text[at + k] != pattern[k] {
            return false;
        }
        k += 1;
    }
    assert(window =~= pattern@);
    true
}

/// Replaces every occurrence of `pattern` in `text` by `with`.
pub fn replace_all(text: &[u8], pattern: &[u8], with: &[u8]) -> (r: Vec<u8>)
    ensures
        r@ == replaced(text@, pattern@, with@),
{
    if pattern.len() == 0 {
        return slice_to_vec(text);
    }
    let mut out: Vec<u8> = Vec::new();
    let mut i: usize = 0;
    assert(text@.skip(0) =~= text@);
    while i < text.len()
        invariant
            i <= text.len(),
            pattern.len() > 0,
            replaced(text@, pattern@, with@) == out@ + replaced(
                text@.skip(i as int),
                pattern@,
                with@,
            ),
        decreases text.len() - i,
    {
        let ghost rest = text@.skip(i as int);
        let ghost done = out@;
        if text.len() - i >= pattern.len() && occurs_at(text, i, pattern) {
            let mut k: usize = 0;
            while k < with.len()
                invariant
                    k <= with.len(),
                    out@ == done + with@.take(k as int),
                decreases with.len() - k,
            {
                out.push(with[k]);
                assert(with@.take(k + 1) =~= with@.take(k as int).push(with@[k as int]));
                k += 1;
            }
            assert(with@.take(with.len() as int) =~= with@);
            assert(rest.skip(pattern@.len() as int) =~= text@.skip(i + pattern@.len()));
            assert(done + (with@ + replaced(rest.skip(pattern@.len() as int), pattern@, with@))
                =~= (done + with@) + replaced(rest.skip(pattern@.len() as int), pattern@, with@));
            i += pattern.len();
        } else {
            out.push(text[i]);
            proof {
                assert(rest[0] == text@[i as int]);
                assert(rest.skip(1) =~= text@.skip(i + 1));
                if rest.len() >= pattern@.len() {
                    assert(rest.take(pattern@.len() as int) != pattern@);
                    assert(done + (seq![rest[0]] + replaced(rest.skip(1), pattern@, with@)) =~= (
                    done.push(rest[0])) + replaced(rest.skip(1), pattern@, with@));
                } else {
                    // what is left is shorter than the pattern, here and from the next byte on
                    lemma_short_text_stays(rest, pattern@, with@);
                    lemma_short_text_stays(rest.skip(1), pattern@, with@);
                    assert(done + rest =~= done.push(rest[0]) + rest.skip(1));
                }
            }
            i += 1;
        }
    }
    assert(text@.skip(text.len() as int) =~= Seq::<u8>::empty());
    assert(out@ + Seq::<u8>::empty() =~= out@);
    out
}

/// A text shorter than the pattern holds no occurrence of it.
pub proof fn lemma_short_text_stays(text: Seq<u8>, pattern: Seq<u8>, with: Seq<u8>)
    requires
        text.len() < pattern.len(),
    ensures
        replaced(text, pattern, with) == text,
{
}

/// Rewrites the text of the material file at `path` before it is parsed: where
/// the text is UTF-8 and the path names a file, every `${name}` in it is
/// replaced by the name of the file without its extension. Other text is
/// handed back unchanged.
pub fn apply_replacements(path: &str, bytes: Vec<u8>) -> (r: Vec<u8>)
    ensures
        r@ == replaced_text(path@, bytes@),
{
    if utf8_text(bytes.as_slice()).is_none() {
        return bytes;
    }
    match file_stem_of(path) {
        Some(stem) => replace_all(bytes.as_slice(), NAME_PLACEHOLDER.as_bytes(), stem.as_bytes()),
        None => bytes,
    }
}

} // verus!
