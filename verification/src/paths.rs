//! The path helpers that the user interface calls by name: joining
//! components, the directory part of a path, the separator, and the way from
//! one relative path to another.

use vstd::prelude::*;
use vstd::string::*;
use crate::spawner::Platform;
use crate::text::texts;

verus! {

/// The path that leads from the relative path `from` to the relative path
/// `to`, as `relative_path::RelativePath::relative` computes it. Both are
/// read with `/` as the separator on every system.
pub uninterp spec fn relative_path_between(from: Seq<char>, to: Seq<char>) -> Seq<char>;

/// Calls `relative_path::RelativePath::relative` on `from`, with `to` as its
/// argument, and gives the result as a string. The result depends on the two
/// texts alone; it is named, not spelled out.
#[verifier::external_body]
fn relative_between(from: &str, to: &str) -> (r: String)
    ensures
        r@ == relative_path_between(from@, to@),
{
    relative_path::RelativePath::new(from).relative(relative_path::RelativePath::new(to)).into_string()
}

/// The path that results when the component `part` is pushed onto the path
/// `base`, as `std::path::PathBuf::push` does it on the system that the
/// library is built for. The push reads its two texts and nothing else.
pub uninterp spec fn pushed_path(base: Seq<char>, part: Seq<char>) -> Seq<char>;

/// The parent of `path`, as `std::path::Path::parent` gives it on the system
/// that the library is built for, and `None` where the path has no parent.
pub uninterp spec fn parent_path(path: Seq<char>) -> Option<Seq<char>>;

/// The path that the components give when they are pushed in order, each
/// onto the path that the ones before it gave, beginning with the empty path.
pub open spec fn joined_path(parts: Seq<Seq<char>>) -> Seq<char>
    decreases parts.len(),
{
    if parts.len() == 0 {
        Seq::empty()
    } else {
        pushed_path(joined_path(parts.drop_last()), parts.last())
    }
}

/// Calls `std::path::PathBuf::push` on the path `base` with `part`, and gives
/// the path that results. How the two are joined is the system's own rule:
/// the result is named, not spelled out.
#[verifier::external_body]
fn push_path(base: &str, part: &str) -> (r: String)
    ensures
        r@ == pushed_path(base@, part@),
{
    let mut path = std::path::PathBuf::from(base);
    path.push(part);
    path.to_string_lossy().into_owned()
}

/// Calls `std::path::Path::parent` on `path`. The empty path has no parent;
/// of any other path the parent is named, not spelled out.
#[verifier::external_body]
fn parent_of(path: &str) -> (r: Option<String>)
    ensures
        path@.len() == 0 ==> r is None,
        match r {
            Some(p) => parent_path(path@) == Some(p@),
            None => parent_path(path@) is None,
        },
{
    match std::path::Path::new(path).parent() {
        Some(parent) => Some(parent.to_string_lossy().into_owned()),
        None => None,
    }
}

/// The way from `from` to `to`, both relative paths.
pub fn path_relative(from: &str, to: &str) -> (r: String)
    ensures
        r@ == relative_path_between(from@, to@),
{
    relative_between(from, to)
}

/// Joins the components in order, by the rule of the system that the
/// supervisor runs on: each component is pushed onto the path that the ones
/// before it gave. Without components the path is empty.
pub fn path_join(parts: &Vec<String>) -> (r: String)
    ensures
        r@ == joined_path(texts(parts@)),
        parts@.len() == 0 ==> r@.len() == 0,
{
    let ghost all = texts(parts@);
    let mut joined = String::new();
    let mut i: usize = 0;
    assert(all.take(0) =~= Seq::<Seq<char>>::empty());
    while i < parts.len()
        invariant
            0 <= i <= parts.len(),
            all == texts(parts@),
            joined@ == joined_path(all.take(i as int)),
        decreases parts.len() - i,
    {
        joined = push_path(joined.as_str(), parts[i].as_str());
        proof {
            assert(all.take(i + 1).drop_last() =~= all.take(i as int));
            assert(all.take(i + 1).last() == parts@[i as int]@);
        }
        i = i + 1;
    }
    assert(all.take(parts@.len() as int) =~= all);
    joined
}

/// The directory part of `path`, and the empty text where the path has none.
pub fn path_dirname(path: &str) -> (r: String)
    ensures
        r@ == (match parent_path(path@) {
            Some(p) => p,
            None => Seq::<char>::empty(),
        }),
        path@.len() == 0 ==> r@.len() == 0,
{
    parent_or_empty(parent_of(path))
}

/// The directory part that is answered for what the system gave as a path's
/// parent: the parent itself, and the empty text where the path has none.
pub fn parent_or_empty(parent: Option<String>) -> (r: String)
    ensures
        r@ == (match parent {
            Some(p) => p@,
            None => Seq::<char>::empty(),
        }),
{
    match parent {
        Some(p) => p,
        None => String::new(),
    }
}

/// The separator of path components, as text.
pub fn path_separator(platform: Platform) -> (r: String)
    ensures
        r@ == seq![platform.separator()],
{
    proof {
        reveal_strlit("/");
        reveal_strlit("\\");
    }
    let r = match platform {
        Platform::Unix => String::from_str("/"),
        Platform::Windows => String::from_str("\\"),
    };
    assert(r@ =~= seq![platform.separator()]);
    r
}

} // verus!
