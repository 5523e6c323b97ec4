//! Paths as text, with `/` between their components.

use crate::text::chars_of;
use vstd::prelude::*;

verus! {

/// A path that starts at the root.
pub open spec fn is_rooted(path: Seq<char>) -> bool {
    path.len() > 0 && path[0] == '/'
}

/// The path `rel` as seen from the directory `base`.
///
/// A rooted `rel` stands for itself. Otherwise it follows `base`, after a
/// `/` unless `base` is empty or already ends in one.
pub open spec fn joined(base: Seq<char>, rel: Seq<char>) -> Seq<char> {
    if is_rooted(rel) {
        rel
    } else if base.len() == 0 || base.last() == '/' {
        base + rel
    } else {
        base + seq!['/'] + rel
    }
}

/// The file name of the PNG image called `name`.
pub open spec fn png_name(name: Seq<char>) -> Seq<char> {
    name + seq!['.', 'p', 'n', 'g']
}

/// The path of the PNG image called `name` in the directory `base`.
pub open spec fn png_path(base: Seq<char>, name: Seq<char>) -> Seq<char> {
    joined(base, png_name(name))
}

/// Joins a path to a base directory.
pub fn join_path(base: &str, rel: &str) -> (path: String)
    ensures
        path@ == joined(base@, rel@),
{
    let rel_len = rel.unicode_len();
    if rel_len > 0 && rel.get_char(0) == '/' {
        return String::from_str(rel);
    }
    let base_len = base.unicode_len();
    let mut path = String::from_str(base);
    if base_len > 0 && base.get_char(base_len - 1) != '/' {
        path.append("/");
        proof {
            reveal_strlit("/");
        }
    }
    path.append(rel);
    path
}

/// Normalizes a name to the path of its `.png` file in `base`.
pub fn force_png_path(base: &str, name: &str) -> (path: String)
    ensures
        path@ == png_path(base@, name@),
{
    let mut file = String::from_str(name);
    file.append(".png");
    proof {
        reveal_strlit(".png");
    }
    join_path(base, file.as_str())
}

/// What stands after the last `/` of a path: the whole path where it has
/// none, nothing where it ends in one.
pub open spec fn last_segment(path: Seq<char>) -> Seq<char>
    decreases path.len(),
{
    if path.len() == 0 || path.last() == '/' {
        Seq::empty()
    } else {
        last_segment(path.drop_last()).push(path.last())
    }
}

/// The final component of a path: its last segment that names something.
///
/// Empty segments and `.` name nothing and are passed over from the end.
/// A path whose last naming segment is `..`, and a path without a naming
/// segment, has no final component.
pub open spec fn final_component(path: Seq<char>) -> Option<Seq<char>>
    decreases path.len(),
{
    if path.len() == 0 {
        None
    } else if path.last() == '/' || last_segment(path) == seq!['.'] {
        final_component(path.drop_last())
    } else if last_segment(path) == seq!['.', '.'] {
        None
    } else {
        Some(last_segment(path))
    }
}

/// The last segment of a part of a path that ends at `end` is made of the
/// characters between `start` and `end`, where no `/` stands among them
/// and `start` is the start of the path or follows a `/`.
proof fn lemma_last_segment(path: Seq<char>, start: int, end: int)
    requires
        0 <= start <= end <= path.len(),
        start == 0 || path[start - 1] == '/',
        forall|i: int| start <= i < end ==> path[i] != '/',
    ensures
        last_segment(path.take(end)) == path.subrange(start, end),
    decreases end - start,
{
    if start < end {
        assert(path.take(end).drop_last() =~= path.take(end - 1));
        lemma_last_segment(path, start, end - 1);
    }
}

/// Finds the final component of a path.
pub fn file_name<'a>(path: &'a str) -> (name: Option<&'a str>)
    ensures
        match name {
            Some(n) => final_component(path@) == Some(n@),
            None => final_component(path@) is None,
        },
{
    let chars = chars_of(path);
    let mut end: usize = chars.len();
    assert(path@.take(end as int) =~= path@);
    while end > 0
        invariant
            end <= chars@.len(),
            chars@ == path@,
            final_component(path@) == final_component(path@.take(end as int)),
        decreases end,
    {
        let ghost part = path@.take(end as int);
        assert(part.drop_last() =~= path@.take(end - 1));
        if chars[end - 1] == '/' {
            end -= 1;
        } else {
            let mut start: usize = end - 1;
            while start > 0 && chars[start - 1] != '/'
                invariant
                    start < end <= chars@.len(),
                    forall|i: int| start <= i < end ==> chars@[i] != '/',
                decreases start,
            {
                start -= 1;
            }
            proof {
                lemma_last_segment(path@, start as int, end as int);
            }
            let ghost segment = path@.subrange(start as int, end as int);
            if end - start == 1 && chars[start] == '.' {
                assert(segment =~= seq!['.']);
                end -= 1;
            } else if end - start == 2 && chars[start] == '.' && chars[start + 1] == '.' {
                assert(segment =~= seq!['.', '.']);
                return None;
            } else {
                assert(segment != seq!['.'] && segment != seq!['.', '.']) by {
                    if segment == seq!['.'] || segment == seq!['.', '.'] {
                        assert(segment[0] == '.');
                    }
                }
                return Some(path.substring_char(start, end));
            }
        }
    }
    None
}

/// A path that starts in the home directory: `~` itself, or a path that
/// starts with `~/`.
pub open spec fn names_home(path: Seq<char>) -> bool {
    path == seq!['~'] || starts_with_home_mark(path)
}

/// A path that starts with `~/`.
pub open spec fn starts_with_home_mark(path: Seq<char>) -> bool {
    path.len() >= 2 && path[0] == '~' && path[1] == '/'
}

/// The path without the `~/` marks that it starts with, however many.
pub open spec fn without_home_marks(path: Seq<char>) -> Seq<char>
    decreases path.len(),
{
    if starts_with_home_mark(path) {
        without_home_marks(path.skip(2))
    } else {
        path
    }
}

/// The path with its home mark replaced by the home directory, where the
/// path names the home directory and the home directory is known.
pub open spec fn home_expanded(path: Seq<char>, home: Option<Seq<char>>) -> Seq<char> {
    match home {
        Some(dir) => if names_home(path) {
            joined(dir, without_home_marks(path))
        } else {
            path
        },
        None => path,
    }
}

/// The full path that `path` stands for: its home mark expanded, and, where
/// it is not rooted then, seen from the working directory, or from `.`
/// where the working directory is not known.
pub open spec fn full_path(
    path: Seq<char>,
    home: Option<Seq<char>>,
    working_dir: Option<Seq<char>>,
) -> Seq<char> {
    let expanded = home_expanded(path, home);
    if is_rooted(expanded) {
        expanded
    } else {
        joined(
            match working_dir {
                Some(dir) => dir,
                None => seq!['.'],
            },
            expanded,
        )
    }
}

/// Resolves a path to a full path, given the home directory and the
/// working directory of the process where they are known.
pub fn resolve_full_path(
    path: &str,
    home: Option<&str>,
    working_dir: Option<&str>,
) -> (full: String)
    ensures
        full@ == full_path(
            path@,
            match home {
                Some(dir) => Some(dir@),
                None => None,
            },
            match working_dir {
                Some(dir) => Some(dir@),
                None => None,
            },
        ),
{
    let chars = chars_of(path);
    let len = chars.len();
    let at_home = (len == 1 && chars[0] == '~') || (len >= 2 && chars[0] == '~' && chars[1] == '/');
    assert(at_home == names_home(path@)) by {
        if len == 1 && chars[0] == '~' {
            assert(path@ =~= seq!['~']);
        }
    }
    let expanded = match home {
        Some(dir) => if at_home {
            let mut start: usize = 0;
            assert(path@.skip(0) =~= path@);
            while len - start >= 2 && chars[start] == '~' && chars[start + 1] == '/'
                invariant
                    start <= len,
                    len == chars@.len(),
                    chars@ == path@,
                    without_home_marks(path@) == without_home_marks(path@.skip(start as int)),
                decreases len - start,
            {
                assert(path@.skip(start as int).skip(2) =~= path@.skip(start + 2));
                start += 2;
            }
            join_path(dir, path.substring_char(start, len))
        } else {
            String::from_str(path)
        },
        None => String::from_str(path),
    };
    let rooted = expanded.as_str().unicode_len() > 0 && expanded.as_str().get_char(0) == '/';
    if rooted {
        expanded
    } else {
        match working_dir {
            Some(dir) => join_path(dir, expanded.as_str()),
            None => {
                proof {
                    reveal_strlit(".");
                }
                join_path(".", expanded.as_str())
            },
        }
    }
}

} // verus!
