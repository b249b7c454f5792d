//! Paths as the pipeline reads them: the extension that makes a file
//! eligible, and the mapping of an input below the watch root to its places
//! below the staging and completion roots.
//!
//! A path is a sequence of characters whose components are separated by `/`.

use crate::text::{
    chars_of, find_last, last_index, lemma_last_index, lemma_last_index_unique, substring,
};
use vstd::prelude::*;

verus! {

/// The final component of `path`, if it names a file or directory.
///
/// Trailing separators and trailing `.` components do not count. There is no
/// file name when nothing is left, or when the final component is `..`.
pub open spec fn path_file_name(path: Seq<char>) -> Option<Seq<char>>
    decreases path.len(),
{
    if path.len() == 0 {
        None
    } else if path.last() == '/' {
        path_file_name(path.drop_last())
    } else {
        let name = path.skip(last_index(path, '/') + 1);
        if name == seq!['.'] {
            path_file_name(path.drop_last())
        } else if name == seq!['.', '.'] {
            None
        } else {
            Some(name)
        }
    }
}

/// The extension of `path`: what follows the last `.` of its file name.
///
/// There is no extension when there is no file name, when the file name holds
/// no `.`, or when its only `.` is its first character. A file name that ends
/// in `.` has the empty extension.
pub open spec fn path_extension(path: Seq<char>) -> Option<Seq<char>> {
    match path_file_name(path) {
        Some(name) => {
            let dot = last_index(name, '.');
            if dot > 0 {
                Some(name.skip(dot + 1))
            } else {
                None
            }
        },
        None => None,
    }
}

/// `path` without the separators it starts with.
pub open spec fn trim_leading_separators(path: Seq<char>) -> Seq<char>
    decreases path.len(),
{
    if path.len() > 0 && path[0] == '/' {
        trim_leading_separators(path.drop_first())
    } else {
        path
    }
}

/// Whether `path` lies below `root`, or is `root` itself: `path` starts with
/// `root`, and `root` ends where a component of `path` ends. That is, `root`
/// is all of `path`, or ends in a separator, or is followed by one in `path`.
///
/// So `/w/x` lies below `/w` and below `/w/`, and `/wx` lies below neither.
pub open spec fn lies_below(root: Seq<char>, path: Seq<char>) -> bool {
    &&& root.is_prefix_of(path)
    &&& {
        ||| path.len() == root.len()
        ||| root.len() > 0 && root.last() == '/'
        ||| path[root.len() as int] == '/'
    }
}

/// `path` relative to `root`: what follows `root` in it, without the
/// separators that come first. A path that does not lie below `root` stays
/// as it is.
pub open spec fn relative_to(root: Seq<char>, path: Seq<char>) -> Seq<char> {
    if lies_below(root, path) {
        trim_leading_separators(path.skip(root.len() as int))
    } else {
        path
    }
}

/// The place of `path` below `target`, given that it was found below `root`:
/// `target`, a separator, and `path` relative to `root`.
pub open spec fn mirrored(root: Seq<char>, target: Seq<char>, path: Seq<char>) -> Seq<char> {
    target + seq!['/'] + relative_to(root, path)
}

/// The last `c` of a suffix is the last `c` of the whole, if that lies in the
/// suffix.
proof fn lemma_last_index_skip(s: Seq<char>, c: char, from: int)
    requires
        0 <= from <= s.len(),
    ensures
        last_index(s.skip(from), c) == if last_index(s, c) >= from {
            last_index(s, c) - from
        } else {
            -1
        },
{
    lemma_last_index(s, c);
    let at = last_index(s, c);
    if at >= from {
        lemma_last_index_unique(s.skip(from), c, at - from);
    } else {
        lemma_last_index_unique(s.skip(from), c, -1);
    }
}

/// Cutting a run of separators off the front is what
/// `trim_leading_separators` does.
proof fn lemma_trim_leading_separators(path: Seq<char>, run: int)
    requires
        0 <= run <= path.len(),
        forall|j: int| 0 <= j < run ==> path[j] == '/',
        run < path.len() ==> path[run] != '/',
    ensures
        trim_leading_separators(path) == path.skip(run),
    decreases run,
{
    if run > 0 {
        lemma_trim_leading_separators(path.drop_first(), run - 1);
    }
}

/// Finds the file name of `chars` as a pair of positions: where it starts and
/// where it ends.
fn file_name_span(chars: &Vec<char>) -> (span: Option<(usize, usize)>)
    ensures
        match span {
            Some((start, end)) => start < end <= chars.len() && path_file_name(chars@) == Some(
                chars@.subrange(start as int, end as int),
            ),
            None => path_file_name(chars@) is None,
        },
{
    let mut end: usize = chars.len();
    proof {
        assert(chars@.take(end as int) =~= chars@);
    }
    while end > 0
        invariant
            end <= chars.len(),
            path_file_name(chars@) == path_file_name(chars@.take(end as int)),
        decreases end,
    {
        let ghost head = chars@.take(end as int);
        proof {
            assert(head.drop_last() =~= chars@.take(end - 1));
        }
        if chars[end - 1] == '/' {
            end = end - 1;
        } else {
            let start: usize = match find_last(chars, end, '/') {
                Some(at) => at + 1,
                None => 0,
            };
            proof {
                lemma_last_index(head, '/');
            }
            if end - start == 1 && chars[start] == '.' {
                proof {
                    assert(head.skip(start as int) =~= seq!['.']);
                }
                end = end - 1;
            } else if end - start == 2 && chars[start] == '.' && chars[start + 1] == '.' {
                proof {
                    assert(head.skip(start as int) =~= seq!['.', '.']);
                }
                return None;
            } else {
                proof {
                    let name = head.skip(start as int);
                    if name == seq!['.'] {
                        assert(name.len() == 1 && name[0] == '.');
                    }
                    if name == seq!['.', '.'] {
                        assert(name.len() == 2 && name[0] == '.' && name[1] == '.');
                    }
                }
                return Some((start, end));
            }
        }
    }
    None
}

/// The extension of `path`, as `path_extension` defines it.
pub fn extension(path: &str) -> (ext: Option<String>)
    ensures
        ext.deep_view() == path_extension(path@),
{
    let chars = chars_of(path);
    match file_name_span(&chars) {
        None => None,
        Some((start, end)) => {
            proof {
                lemma_last_index_skip(chars@.take(end as int), '.', start as int);
                assert(chars@.take(end as int).skip(start as int) =~= chars@.subrange(
                    start as int,
                    end as int,
                ));
            }
            match find_last(&chars, end, '.') {
                Some(dot) => {
                    if dot > start {
                        Some(substring(path, dot + 1, end))
                    } else {
                        None
                    }
                },
                None => None,
            }
        },
    }
}

/// Whether `chars` lies below `prefix`, as `lies_below` defines it.
fn chars_lie_below(prefix: &Vec<char>, chars: &Vec<char>) -> (below: bool)
    ensures
        below == lies_below(prefix@, chars@),
{
    if prefix.len() > chars.len() {
        return false;
    }
    let mut at: usize = 0;
    while at < prefix.len()
        invariant
            at <= prefix.len() <= chars.len(),
            forall|j: int| 0 <= j < at ==> prefix@[j] == chars@[j],
        decreases prefix.len() - at,
    {
        if prefix[at] != chars[at] {
            return false;
        }
        at = at + 1;
    }
    prefix.len() == chars.len() || (prefix.len() > 0 && prefix[prefix.len() - 1] == '/')
        || chars[prefix.len()] == '/'
}

/// Whether `path` lies below `root`, as `lies_below` defines it.
pub fn is_below(root: &str, path: &str) -> (below: bool)
    ensures
        below == lies_below(root@, path@),
{
    let prefix = chars_of(root);
    let chars = chars_of(path);
    chars_lie_below(&prefix, &chars)
}

/// `path` relative to `root`, as `relative_to` defines it.
pub fn relative_path(root: &str, path: &str) -> (rel: String)
    ensures
        rel@ == relative_to(root@, path@),
{
    let prefix = chars_of(root);
    let chars = chars_of(path);
    if !chars_lie_below(&prefix, &chars) {
        return path.to_owned();
    }
    let mut at: usize = prefix.len();
    let ghost rest = path@.skip(prefix.len() as int);
    while at < chars.len() && chars[at] == '/'
        invariant
            prefix.len() <= at <= chars.len(),
            chars@ == path@,
            rest == path@.skip(prefix.len() as int),
            forall|j: int| 0 <= j < at - prefix.len() ==> rest[j] == '/',
        decreases chars.len() - at,
    {
        at = at + 1;
    }
    proof {
        lemma_trim_leading_separators(rest, at - prefix.len());
    }
    substring(path, at, chars.len())
}

/// The place of `path` below `target`, as `mirrored` defines it.
pub fn mirror_path(root: &str, target: &str, path: &str) -> (place: String)
    ensures
        place@ == mirrored(root@, target@, path@),
{
    let rel = relative_path(root, path);
    let mut place = target.to_owned();
    place.append("/");
    place.append(rel.as_str());
    proof {
        reveal_strlit("/");
    }
    place
}

/// The three roots of the pipeline, fixed for its lifetime.
#[derive(Clone, Debug, PartialEq, Eq)]
pub struct Directories {
    /// Root that is watched for input files.
    pub watch: String,
    /// Root below which output is written while a transcode runs.
    pub staging: String,
    /// Root below which finished output is placed.
    pub completion: String,
}

impl Directories {
    /// Where the output for `input` is written while its transcode runs.
    pub open spec fn staging_of(&self, input: Seq<char>) -> Seq<char> {
        mirrored(self.watch@, self.staging@, input)
    }

    /// Where the finished output for `input` is placed.
    pub open spec fn completion_of(&self, input: Seq<char>) -> Seq<char> {
        mirrored(self.watch@, self.completion@, input)
    }

    /// The staging path of `input`: the staging root, a separator, and
    /// `input` relative to the watch root.
    pub fn staging_path(&self, input: &str) -> (place: String)
        ensures
            place@ == self.staging_of(input@),
    {
        mirror_path(self.watch.as_str(), self.staging.as_str(), input)
    }

    /// The completion path of `input`: the completion root, a separator, and
    /// `input` relative to the watch root.
    pub fn completion_path(&self, input: &str) -> (place: String)
        ensures
            place@ == self.completion_of(input@),
    {
        mirror_path(self.watch.as_str(), self.completion.as_str(), input)
    }
}

/// A file name is one component: it is not empty, holds no separator, and is
/// neither `.` nor `..`.
pub proof fn lemma_file_name_is_one_component(path: Seq<char>)
    ensures
        match path_file_name(path) {
            Some(name) => {
                &&& name.len() > 0
                &&& !name.contains('/')
                &&& name != seq!['.']
                &&& name != seq!['.', '.']
            },
            None => true,
        },
    decreases path.len(),
{
    if path.len() > 0 {
        if path.last() == '/' {
            lemma_file_name_is_one_component(path.drop_last());
        } else {
            lemma_last_index(path, '/');
            if path.skip(last_index(path, '/') + 1) == seq!['.'] {
                lemma_file_name_is_one_component(path.drop_last());
            }
        }
    }
}

/// An extension holds neither a `.` nor a separator.
pub proof fn lemma_extension_is_plain(path: Seq<char>)
    ensures
        match path_extension(path) {
            Some(ext) => !ext.contains('.') && !ext.contains('/'),
            None => true,
        },
{
    lemma_file_name_is_one_component(path);
    if let Some(name) = path_file_name(path) {
        lemma_last_index(name, '.');
        let dot = last_index(name, '.');
        if dot > 0 {
            let ext = name.skip(dot + 1);
            assert forall|i: int| 0 <= i < ext.len() implies ext[i] != '.' && ext[i] != '/' by {
                assert(ext[i] == name[dot + 1 + i]);
            }
        }
    }
}

/// An input outside the watch root is mirrored with its full path: a path
/// that does not lie below `root` is placed at `target`, a separator, and
/// the path as it is. This holds of a path that merely starts with the
/// characters of `root`, such as `/wx/y` for the root `/w`.
pub proof fn lemma_outside_root_keeps_full_path(
    root: Seq<char>,
    target: Seq<char>,
    path: Seq<char>,
)
    requires
        !lies_below(root, path),
    ensures
        relative_to(root, path) == path,
        mirrored(root, target, path) == target + seq!['/'] + path,
{
}

/// A root that is cut off in the middle of a component is not above the
/// path: if `path` goes on after `root` with anything but a separator, and
/// `root` does not end in one, then `path` does not lie below `root`.
pub proof fn lemma_shared_prefix_is_not_below(root: Seq<char>, path: Seq<char>)
    requires
        root.len() < path.len(),
        path[root.len() as int] != '/',
        root.len() == 0 || root.last() != '/',
    ensures
        !lies_below(root, path),
{
}

/// An input that lies directly below the watch root keeps its relative path
/// below every other root: for a watch root `w`, a relative path `rel` that
/// does not start with a separator, and a target root `t`, the input
/// `w/rel` lies below `w` and is mirrored to `t/rel`.
pub proof fn lemma_mirrored_keeps_relative_path(
    root: Seq<char>,
    target: Seq<char>,
    rel: Seq<char>,
)
    requires
        rel.len() == 0 || rel[0] != '/',
    ensures
        lies_below(root, root + seq!['/'] + rel),
        relative_to(root, root + seq!['/'] + rel) == rel,
        mirrored(root, target, root + seq!['/'] + rel) == target + seq!['/'] + rel,
{
    let path = root + seq!['/'] + rel;
    let rest = path.skip(root.len() as int);
    lemma_trim_leading_separators(rest, 1);
}

} // verus!
