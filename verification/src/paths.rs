//! File paths, as the standard library reads them on Unix: the final
//! component of a path and its extension.

use vstd::prelude::*;
use vstd::string::*;
use crate::config::opt_view;
use crate::text::char_range;

verus! {

/// Index of the last occurrence of `c` in `s`, if any.
pub open spec fn last_index_of(s: Seq<char>, c: char) -> Option<int> {
    if exists|i: int| 0 <= i < s.len() && s[i] == c {
        Some(choose|i: int| 0 <= i < s.len() && s[i] == c && forall|j: int| i < j < s.len() ==> s[j] != c)
    } else {
        None
    }
}

/// The last component of `path` that is neither empty nor `.`: separators
/// repeated or at the end, and `.` components, are skipped.
pub open spec fn final_component(path: Seq<char>) -> Option<Seq<char>>
    decreases path.len(),
{
    match last_index_of(path, '/') {
        None => if path.len() == 0 || path == seq!['.'] {
            None
        } else {
            Some(path)
        },
        Some(i) => {
            let seg = path.skip(i + 1);
            if seg.len() == 0 || seg == seq!['.'] {
                if 0 <= i < path.len() {
                    final_component(path.take(i))
                } else {
                    None
                }
            } else {
                Some(seg)
            }
        },
    }
}

/// The file name of a path (`Path::file_name`): its final component, unless
/// there is none or it is `..`.
pub open spec fn path_file_name_of(path: Seq<char>) -> Option<Seq<char>> {
    match final_component(path) {
        Some(c) => if c == seq!['.', '.'] {
            None
        } else {
            Some(c)
        },
        None => None,
    }
}

/// The extension of a path (`Path::extension`): what follows the last `.` of
/// its file name; none without a file name, without a `.`, or when the only
/// `.` begins the name.
pub open spec fn path_extension_of(path: Seq<char>) -> Option<Seq<char>> {
    match path_file_name_of(path) {
        Some(name) => match last_index_of(name, '.') {
            Some(i) => if i == 0 {
                None
            } else {
                Some(name.skip(i + 1))
            },
            None => None,
        },
        None => None,
    }
}

proof fn lemma_last_occurrence(s: Seq<char>, c: char, k: int) -> (i: int)
    requires
        0 <= k < s.len(),
        s[k] == c,
    ensures
        k <= i < s.len(),
        s[i] == c,
        forall|j: int| i < j < s.len() ==> s[j] != c,
    decreases s.len() - k,
{
    if exists|j: int| k < j < s.len() && s[j] == c {
        let j = choose|j: int| k < j < s.len() && s[j] == c;
        lemma_last_occurrence(s, c, j)
    } else {
        k
    }
}

/// `last_index_of` names the position `k` exactly when `s[k]` is `c` and no
/// later character is.
proof fn lemma_last_index_of_is(s: Seq<char>, c: char, k: int)
    requires
        0 <= k < s.len(),
        s[k] == c,
        forall|j: int| k < j < s.len() ==> s[j] != c,
    ensures
        last_index_of(s, c) == Some(k),
{
    let i = lemma_last_occurrence(s, c, k);
    assert(exists|i: int| 0 <= i < s.len() && s[i] == c && forall|j: int| i < j < s.len() ==> s[j] != c);
}

/// Position of the last `c` among the first `end` characters of `s`.
fn last_char_before(s: &str, c: char, end: usize) -> (r: Option<usize>)
    requires
        end <= s@.len(),
    ensures
        match r {
            Some(i) => i < end && s@[i as int] == c && forall|j: int| i < j < end ==> s@[j] != c,
            None => forall|j: int| 0 <= j < end ==> s@[j] != c,
        },
{
    let mut k = end;
    while k > 0
        invariant
            k <= end <= s@.len(),
            forall|j: int| k <= j < end ==> s@[j] != c,
        decreases k,
    {
        if s.get_char(k - 1) == c {
            return Some(k - 1);
        }
        k = k - 1;
    }
    None
}

proof fn lemma_final_component_no_slash(t: Seq<char>)
    requires
        forall|j: int| 0 <= j < t.len() ==> t[j] != '/',
    ensures
        final_component(t) == if t.len() == 0 || t == seq!['.'] {
            None
        } else {
            Some(t)
        },
{
}

proof fn lemma_final_component_slash(t: Seq<char>, i: int)
    requires
        0 <= i < t.len(),
        t[i] == '/',
        forall|j: int| i < j < t.len() ==> t[j] != '/',
    ensures
        final_component(t) == if t.skip(i + 1).len() == 0 || t.skip(i + 1) == seq!['.'] {
            final_component(t.take(i))
        } else {
            Some(t.skip(i + 1))
        },
{
    lemma_last_index_of_is(t, '/', i);
}

/// The final component of `path`, as `final_component` describes it.
fn final_component_text(path: &str) -> (r: Option<String>)
    ensures
        opt_view(r) == final_component(path@),
{
    let n = path.unicode_len();
    let mut end = n;
    assert(path@.take(n as int) =~= path@);
    loop
        invariant
            end <= n,
            n == path@.len(),
            final_component(path@.take(end as int)) == final_component(path@),
        decreases end,
    {
        let ghost t = path@.take(end as int);
        match last_char_before(path, '/', end) {
            None => {
                proof {
                    lemma_final_component_no_slash(t);
                }
                if end == 0 {
                    return None;
                }
                if end == 1 && path.get_char(0) == '.' {
                    assert(t =~= seq!['.']);
                    return None;
                }
                assert(t != seq!['.']) by {
                    if t == seq!['.'] {
                        assert(t[0] == path@[0]);
                    }
                }
                let r = char_range(path, 0, end);
                assert(r@ =~= t);
                return Some(r);
            },
            Some(i) => {
                proof {
                    lemma_final_component_slash(t, i as int);
                }
                let ghost seg = t.skip(i + 1);
                assert(seg =~= path@.subrange(i + 1, end as int));
                assert(t.take(i as int) =~= path@.take(i as int));
                if i + 1 == end {
                    end = i;
                } else if i + 2 == end && path.get_char(i + 1) == '.' {
                    assert(seg =~= seq!['.']);
                    end = i;
                } else {
                    assert(seg != seq!['.']) by {
                        if seg == seq!['.'] {
                            assert(seg[0] == path@[i + 1]);
                        }
                    }
                    let r = char_range(path, i + 1, end);
                    return Some(r);
                }
            },
        }
    }
}

/// Whether `s` is `..`.
fn is_parent_name(s: &str) -> (b: bool)
    ensures
        b == (s@ == seq!['.', '.']),
{
    if s.unicode_len() == 2 && s.get_char(0) == '.' && s.get_char(1) == '.' {
        assert(s@ =~= seq!['.', '.']);
        true
    } else {
        false
    }
}

/// The extension of the file that `path` names, as `Path::extension` gives
/// it: what follows the last `.` of the file name.
pub(crate) fn path_extension(path: &str) -> (r: Option<String>)
    ensures
        opt_view(r) == path_extension_of(path@),
{
    match path_file_name(path) {
        None => None,
        Some(name) => {
            let len = name.unicode_len();
            match last_char_before(name.as_str(), '.', len) {
                None => None,
                Some(i) => {
                    proof {
                        lemma_last_index_of_is(name@, '.', i as int);
                    }
                    if i == 0 {
                        None
                    } else {
                        let e = char_range(name.as_str(), i + 1, len);
                        assert(e@ =~= name@.skip(i + 1));
                        Some(e)
                    }
                },
            }
        },
    }
}

/// The file name of `path`, as `Path::file_name` gives it: its final
/// component, `None` for a path that ends in `..` or has no component.
pub(crate) fn path_file_name(path: &str) -> (r: Option<String>)
    ensures
        opt_view(r) == path_file_name_of(path@),
{
    match final_component_text(path) {
        None => None,
        Some(c) => if is_parent_name(c.as_str()) {
            None
        } else {
            Some(c)
        },
    }
}

/// Whether `path` is empty or ends in a separator, so that a name written
/// after it is the path's last component.
pub open spec fn is_dir_prefix(path: Seq<char>) -> bool {
    path.len() == 0 || path.last() == '/'
}

/// A name written after a directory prefix (or alone) is the file name of
/// the path, whatever the prefix holds, unless the name is empty, `.` or
/// `..` or has a separator in it.
pub proof fn law_file_name_is_last_component(dir: Seq<char>, name: Seq<char>)
    requires
        is_dir_prefix(dir),
        name.len() > 0,
        name != seq!['.'],
        name != seq!['.', '.'],
        forall|j: int| 0 <= j < name.len() ==> name[j] != '/',
    ensures
        path_file_name_of(dir + name) == Some(name),
{
    let p = dir + name;
    if dir.len() == 0 {
        assert(p =~= name);
        lemma_final_component_no_slash(p);
    } else {
        let i = dir.len() - 1;
        assert(p[i] == '/');
        assert forall|j: int| i < j < p.len() implies p[j] != '/' by {
            assert(p[j] == name[j - dir.len()]);
        }
        lemma_final_component_slash(p, i);
        assert(p.skip(i + 1) =~= name);
    }
}

proof fn lemma_stem_dot_ext(stem: Seq<char>, ext: Seq<char>)
    requires
        forall|j: int| 0 <= j < stem.len() ==> stem[j] != '/',
        forall|j: int| 0 <= j < ext.len() ==> ext[j] != '/' && ext[j] != '.',
    ensures
        ({
            let name = stem + seq!['.'] + ext;
            let k = stem.len() as int;
            &&& forall|j: int| 0 <= j < name.len() ==> name[j] != '/'
            &&& name[k] == '.'
            &&& forall|j: int| k < j < name.len() ==> name[j] != '.'
            &&& name.skip(k + 1) == ext
            &&& name.len() == stem.len() + 1 + ext.len()
        }),
{
    let name = stem + seq!['.'] + ext;
    let k = stem.len() as int;
    assert forall|j: int| 0 <= j < name.len() implies name[j] != '/' by {
        if j < k {
            assert(name[j] == stem[j]);
        } else if j > k {
            assert(name[j] == ext[j - k - 1]);
        }
    }
    assert forall|j: int| k < j < name.len() implies name[j] != '.' by {
        assert(name[j] == ext[j - k - 1]);
    }
    assert(name.skip(k + 1) =~= ext);
}

/// The extension is what follows the last `.` of the file name: for a name
/// `stem.ext` after a directory prefix, where `ext` has no `.`, it is `ext`,
/// however many dots `stem` holds.
pub proof fn law_extension_after_last_dot(dir: Seq<char>, stem: Seq<char>, ext: Seq<char>)
    requires
        is_dir_prefix(dir),
        stem.len() > 0,
        stem + seq!['.'] + ext != seq!['.', '.'],
        forall|j: int| 0 <= j < stem.len() ==> stem[j] != '/',
        forall|j: int| 0 <= j < ext.len() ==> ext[j] != '/' && ext[j] != '.',
    ensures
        path_extension_of(dir + stem + seq!['.'] + ext) == Some(ext),
{
    let name = stem + seq!['.'] + ext;
    let k = stem.len() as int;
    lemma_stem_dot_ext(stem, ext);
    assert(name != seq!['.']) by {
        assert(name.len() >= 2);
    }
    assert(dir + stem + seq!['.'] + ext =~= dir + name);
    law_file_name_is_last_component(dir, name);
    lemma_last_index_of_is(name, '.', k);
}

/// What the disk answered when asked whether something exists at a path.
/// Only `path_exists` makes one, so each value is a real answer about the
/// path it names.
pub struct PathLookup {
    path: String,
    found: bool,
}

impl PathLookup {
    /// The path that was asked about.
    pub closed spec fn asked(&self) -> Seq<char> {
        self.path@
    }

    /// Whether something existed at that path.
    pub closed spec fn answer(&self) -> bool {
        self.found
    }

    /// Whether something existed at the path that was asked about.
    pub fn found(&self) -> (b: bool)
        ensures
            b == self.answer(),
    {
        self.found
    }
}

/// Asks the disk whether something exists at `path`. Calls
/// `std::path::Path::exists`; the contract claims only that the answer is
/// about `path` itself. What the answer is depends on the disk at the time
/// of the call and is not stated.
#[verifier::external_body]
pub(crate) fn path_exists(path: &str) -> (r: PathLookup)
    ensures
        r.asked() == path@,
{
    PathLookup { path: path.to_owned(), found: std::path::Path::new(path).exists() }
}

} // verus!
