//! Paths held as strings: joined by `Path::join`, the platform's own rules,
//! and split into file name, stem and extension.

use vstd::prelude::*;

verus! {

/// Whether `name` is joined as one plain relative component on every
/// platform: it holds no `/`, `\` or `:`, and is neither `.` nor `..`.
pub open spec fn is_plain_name(name: Seq<char>) -> bool {
    &&& forall|i: int| 0 <= i < name.len() ==> #[trigger] name[i] != '/' && name[i] != '\\' && name[i] != ':'
    &&& name != seq!['.']
    &&& name != seq!['.', '.']
}

/// Whether `path` begins with a backslash (as Windows roots and verbatim
/// prefixes do).
pub open spec fn starts_with_backslash(path: Seq<char>) -> bool {
    path.len() > 0 && path[0] == '\\'
}

/// The path that `Path::join` makes of `base` and `part` on the platform the
/// library runs on.
pub uninterp spec fn joined(base: Seq<char>, part: Seq<char>) -> Seq<char>;

/// `Path::join`. Its contract names the result, which follows the
/// platform's path rules, and states what `PathBuf::push` documents for a
/// relative part on every platform: when `part` is a plain name and `base`
/// does not begin with a backslash, the result is `base`, a separator if one
/// is needed, and `part`; onto an empty base, it is `part` alone. Which
/// separator is used, and what happens to other parts, is not restated.
#[verifier::external_body]
pub(crate) fn join_path(base: &str, part: &str) -> (r: String)
    ensures
        r@ == joined(base@, part@),
        is_plain_name(part@) && !starts_with_backslash(base@) ==> {
            &&& r@.len() >= base@.len() + part@.len()
            &&& r@.take(base@.len() as int) == base@
            &&& r@.skip(r@.len() - part@.len()) == part@
        },
        is_plain_name(part@) && base@.len() == 0 ==> r@ == part@,
{
    std::path::Path::new(base).join(part).to_string_lossy().into_owned()
}

/// The last component of a path, as `Path::file_name` gives it (`None` when
/// the path ends in `..` or has no component).
pub uninterp spec fn file_name_of(path: Seq<char>) -> Option<Seq<char>>;

/// `Path::file_name`, on a path given as text. Its contract names the result
/// only: the rules by which `Path` splits a path into components are not
/// restated here.
#[verifier::external_body]
pub(crate) fn path_file_name(path: &str) -> (r: Option<String>)
    ensures
        match r {
            Some(name) => file_name_of(path@) == Some(name@),
            None => file_name_of(path@) is None,
        },
{
    match std::path::Path::new(path).file_name() {
        Some(name) => Some(name.to_string_lossy().into_owned()),
        None => None,
    }
}

/// The index of the last `c` in `s`, or -1 when there is none.
pub open spec fn last_index_of(s: Seq<char>, c: char) -> int
    decreases s.len(),
{
    if s.len() == 0 {
        -1
    } else if s.last() == c {
        s.len() - 1
    } else {
        last_index_of(s.drop_last(), c)
    }
}

proof fn lemma_last_index_of(s: Seq<char>, c: char)
    ensures
        -1 <= last_index_of(s, c) < s.len(),
        last_index_of(s, c) >= 0 ==> s[last_index_of(s, c)] == c,
        forall|k: int| last_index_of(s, c) < k < s.len() ==> #[trigger] s[k] != c,
    decreases s.len(),
{
    if s.len() > 0 && s.last() != c {
        lemma_last_index_of(s.drop_last(), c);
        assert forall|k: int| last_index_of(s, c) < k < s.len() implies #[trigger] s[k] != c by {
            if k < s.len() - 1 {
                assert(s[k] == s.drop_last()[k]);
            }
        }
    }
}

/// The extension of a file name, as `Path::extension` documents it: none
/// when the name has no `.`, or when its only `.` is the first character;
/// otherwise what follows the last `.`.
pub open spec fn extension_of_name(name: Seq<char>) -> Option<Seq<char>> {
    let k = last_index_of(name, '.');
    if k <= 0 {
        None
    } else {
        Some(name.skip(k + 1))
    }
}

/// The stem of a file name, as `Path::file_stem` documents it: the whole
/// name when it has no extension, otherwise what comes before the last `.`.
pub open spec fn stem_of_name(name: Seq<char>) -> Seq<char> {
    let k = last_index_of(name, '.');
    if k <= 0 {
        name
    } else {
        name.take(k)
    }
}

/// A file name with an extension is its stem, a dot and the extension, and
/// the extension holds no dot.
pub proof fn lemma_name_is_stem_dot_extension(name: Seq<char>)
    requires
        extension_of_name(name) is Some,
    ensures
        name == stem_of_name(name) + seq!['.'] + extension_of_name(name)->0,
        !extension_of_name(name)->0.contains('.'),
{
    lemma_last_index_of(name, '.');
    let k = last_index_of(name, '.');
    let e = name.skip(k + 1);
    assert(name =~= name.take(k) + seq!['.'] + e);
    if e.contains('.') {
        let j = choose|j: int| 0 <= j < e.len() && e[j] == '.';
        assert(name[k + 1 + j] == '.');
    }
}

/// Splits a file name into its stem and its extension.
pub fn split_file_name(name: &str) -> (r: (&str, Option<&str>))
    ensures
        r.0@ == stem_of_name(name@),
        r.0@.len() <= name@.len() && r.0@ == name@.subrange(0, r.0@.len() as int),
        r.1 matches Some(ext) ==> ext@.len() <= name@.len() && ext@ == name@.subrange(
            name@.len() - ext@.len(),
            name@.len() as int,
        ),
        match r.1 {
            Some(ext) => extension_of_name(name@) == Some(ext@),
            None => extension_of_name(name@) is None,
        },
{
    let n = name.unicode_len();
    let mut j: usize = n;
    assert(name@.take(n as int) =~= name@);
    while j > 0 && name.get_char(j - 1) != '.'
        invariant
            n == name@.len(),
            j <= n,
            last_index_of(name@, '.') == last_index_of(name@.take(j as int), '.'),
        decreases j,
    {
        assert(name@.take(j as int).drop_last() =~= name@.take(j - 1));
        j = j - 1;
    }
    if j <= 1 {
        proof {
            if j == 1 {
                assert(name@.take(1).last() == '.');
            }
        }
        (name, None)
    } else {
        assert(name@.take(j as int).last() == '.');
        (name.substring_char(0, j - 1), Some(name.substring_char(j, n)))
    }
}

} // verus!
