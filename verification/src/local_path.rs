//! Local paths for keys, by the rules of Unix: a path is made of segments with `/` between them, and
//! one that begins with `/` begins at the root. `/` is the only separator, and there are no drive
//! letters or other prefixes.

use crate::text::chars_of;
use crate::tool_error::{ToolError, ToolErrorView};
use vstd::prelude::*;

verus! {

/// The segments of a path: what stands before, between and behind its slashes.
pub open spec fn segments(path: Seq<char>) -> Seq<Seq<char>>
    decreases path.len(),
{
    if path.len() == 0 {
        seq![Seq::empty()]
    } else {
        let before = segments(path.drop_last());
        if path.last() == '/' {
            before.push(Seq::empty())
        } else {
            before.drop_last().push(before.last().push(path.last()))
        }
    }
}

/// The path begins at the root.
pub open spec fn is_absolute(path: Seq<char>) -> bool {
    path.len() > 0 && path[0] == '/'
}

/// The key names something under every directory that it is taken from: it does not begin at the
/// root, and no segment of it leads upward.
pub open spec fn is_safe_key(key: Seq<char>) -> bool {
    !is_absolute(key) && !segments(key).contains(seq!['.', '.'])
}

/// A path below a directory.
pub open spec fn joined(dir: Seq<char>, path: Seq<char>) -> Seq<char> {
    if dir.len() == 0 || dir.last() == '/' {
        dir + path
    } else {
        dir + seq!['/'] + path
    }
}

/// The local path for a key, under a local directory.
pub open spec fn key_path(local_dir: Seq<char>, key: Seq<char>) -> Result<
    Seq<char>,
    ToolErrorView,
> {
    if key.len() == 0 {
        Err(ToolErrorView::EmptyKey)
    } else if !is_safe_key(key) {
        Err(ToolErrorView::UnsafeKey(key))
    } else {
        Ok(joined(local_dir, key))
    }
}

/// The result of finding a local path, as the contracts see it.
pub open spec fn path_result(r: Result<String, ToolError>) -> Result<Seq<char>, ToolErrorView> {
    match r {
        Ok(path) => Ok(path@),
        Err(e) => Err(e@),
    }
}

/// Whether a path has a segment that leads upward. `length` counts the characters of the segment
/// that is being read, and `dots` tells whether they are all dots.
fn has_parent_segment(path: &Vec<char>) -> (has: bool)
    ensures
        has == segments(path@).contains(seq!['.', '.']),
{
    let mut found = false;
    let mut length: usize = 0;
    let mut dots = true;
    let mut i: usize = 0;
    assert(path@.take(0) =~= Seq::<char>::empty());
    assert(segments(path@.take(0)).last() =~= Seq::<char>::empty());
    while i < path.len()
        invariant
            i <= path@.len(),
            length <= i,
            segments(path@.take(i as int)).len() > 0,
            segments(path@.take(i as int)).last().len() == length,
            dots == (forall|k: int|
                0 <= k < length ==> #[trigger] segments(path@.take(i as int)).last()[k] == '.'),
            found == segments(path@.take(i as int)).drop_last().contains(seq!['.', '.']),
        decreases path@.len() - i,
    {
        let ghost before = segments(path@.take(i as int));
        let ghost after = segments(path@.take(i as int + 1));
        assert(path@.take(i as int + 1).drop_last() =~= path@.take(i as int));
        if path[i] == '/' {
            proof {
                assert(after == before.push(Seq::empty()));
                assert(after.drop_last() =~= before);
                lemma_contains_last(before, seq!['.', '.']);
                lemma_two_dots(before.last());
            }
            if dots && length == 2 {
                found = true;
            }
            length = 0;
            dots = true;
        } else {
            proof {
                assert(after == before.drop_last().push(before.last().push(path@[i as int])));
                assert(after.drop_last() =~= before.drop_last());
                assert(after.last() == before.last().push(path@[i as int]));
                if dots {
                    assert(forall|k: int| 0 <= k < length ==> #[trigger] before.last()[k] == '.');
                    assert(forall|k: int|
                        0 <= k < length ==> #[trigger] after.last()[k] == before.last()[k]);
                }
                if !dots {
                    let k = choose|k: int|
                        0 <= k < length && #[trigger] before.last()[k] != '.';
                    assert(after.last()[k] != '.');
                }
                assert(after.last()[length as int] == path@[i as int]);
            }
            if path[i] != '.' {
                dots = false;
            }
            length = length + 1;
        }
        i = i + 1;
    }
    proof {
        assert(path@.take(i as int) =~= path@);
        lemma_contains_last(segments(path@), seq!['.', '.']);
        lemma_two_dots(segments(path@).last());
    }
    found || (dots && length == 2)
}

/// A sequence holds an element if it is the last one or stands before it.
proof fn lemma_contains_last(list: Seq<Seq<char>>, wanted: Seq<char>)
    requires
        list.len() > 0,
    ensures
        list.contains(wanted) == (list.drop_last().contains(wanted) || list.last() == wanted),
{
    if list.contains(wanted) {
        let i = choose|i: int| 0 <= i < list.len() && list[i] == wanted;
        if i < list.len() - 1 {
            assert(list.drop_last()[i] == wanted);
        }
    }
    if list.drop_last().contains(wanted) {
        let i = choose|i: int| 0 <= i < list.drop_last().len() && list.drop_last()[i] == wanted;
        assert(list[i] == wanted);
    }
    if list.last() == wanted {
        assert(list[list.len() - 1] == wanted);
    }
}

/// Two characters that are dots make `..`.
proof fn lemma_two_dots(segment: Seq<char>)
    ensures
        segment == seq!['.', '.'] <==> segment.len() == 2 && forall|k: int|
            0 <= k < segment.len() ==> #[trigger] segment[k] == '.',
{
    if segment.len() == 2 && forall|k: int|
        0 <= k < segment.len() ==> #[trigger] segment[k] == '.' {
        assert(segment =~= seq!['.', '.']);
    }
}

/// The local path for a key. It is an error if the key is empty, or if it could lead out of the
/// local directory by the rules of Unix.
///
/// Nothing is said of what other rules would make of the path. Under rules by which `\` separates
/// segments too, or a path can begin with a drive letter, a key that has either has to be refused
/// beforehand.
pub fn local_path_for_key(local_dir: &str, key: &str) -> (path: Result<String, ToolError>)
    ensures
        path_result(path) == key_path(local_dir@, key@),
{
    let chars = chars_of(key);
    if chars.len() == 0 {
        return Err(ToolError::EmptyKey);
    }
    if chars[0] == '/' || has_parent_segment(&chars) {
        return Err(ToolError::UnsafeKey(key.to_owned()));
    }
    let dir = chars_of(local_dir);
    if dir.len() == 0 || dir[dir.len() - 1] == '/' {
        Ok(local_dir.to_owned().concat(key))
    } else {
        proof {
            reveal_strlit("/");
            assert("/"@ =~= seq!['/']);
        }
        Ok(local_dir.to_owned().concat("/").concat(key))
    }
}

/// Where a walk goes from a place by one segment: an empty segment and `.` stay, `..` leads
/// upward, and any other segment leads downward. A place is the names that lead to it.
pub open spec fn step(place: Seq<Seq<char>>, segment: Seq<char>) -> Seq<Seq<char>> {
    if segment.len() == 0 || segment == seq!['.'] {
        place
    } else if segment == seq!['.', '.'] && place.len() > 0 && place.last() != seq!['.', '.'] {
        place.drop_last()
    } else {
        place.push(segment)
    }
}

/// Where a walk along segments goes from a place.
pub open spec fn walk(place: Seq<Seq<char>>, path: Seq<Seq<char>>) -> Seq<Seq<char>>
    decreases path.len(),
{
    if path.len() == 0 {
        place
    } else {
        step(walk(place, path.drop_last()), path.last())
    }
}

/// The place that a path leads to, from where it begins.
pub open spec fn place_of(path: Seq<char>) -> Seq<Seq<char>> {
    walk(Seq::empty(), segments(path))
}

/// The segments of two paths with a slash between them are those of the two paths.
proof fn lemma_segments_of_joined(a: Seq<char>, b: Seq<char>)
    ensures
        segments(a + seq!['/'] + b) == segments(a) + segments(b),
    decreases b.len(),
{
    let whole = a + seq!['/'] + b;
    if b.len() == 0 {
        assert(whole.drop_last() =~= a);
        assert(segments(whole) =~= segments(a) + segments(b));
    } else {
        lemma_segments_of_joined(a, b.drop_last());
        lemma_some_segment(b.drop_last());
        assert(whole.drop_last() =~= a + seq!['/'] + b.drop_last());
        let before = segments(b.drop_last());
        assert((segments(a) + before).last() == before.last());
        assert((segments(a) + before).drop_last() =~= segments(a) + before.drop_last());
        assert(segments(whole) =~= segments(a) + segments(b));
    }
}

/// Every path has a segment.
proof fn lemma_some_segment(path: Seq<char>)
    ensures
        segments(path).len() > 0,
    decreases path.len(),
{
    if path.len() > 0 {
        lemma_some_segment(path.drop_last());
    }
}

/// A walk along two lists of segments is a walk along the second from where the first leads.
proof fn lemma_walk_on(place: Seq<Seq<char>>, first: Seq<Seq<char>>, second: Seq<Seq<char>>)
    ensures
        walk(place, first + second) == walk(walk(place, first), second),
    decreases second.len(),
{
    if second.len() == 0 {
        assert(first + second =~= first);
    } else {
        assert((first + second).drop_last() =~= first + second.drop_last());
        lemma_walk_on(place, first, second.drop_last());
    }
}

/// A walk along segments of which none leads upward stays below where it began.
proof fn lemma_walk_downward(place: Seq<Seq<char>>, path: Seq<Seq<char>>)
    requires
        !path.contains(seq!['.', '.']),
    ensures
        place.is_prefix_of(walk(place, path)),
    decreases path.len(),
{
    if path.len() > 0 {
        lemma_contains_last(path, seq!['.', '.']);
        lemma_walk_downward(place, path.drop_last());
    }
}

/// By the rules of Unix, the local path for a key never leads out of the local directory: it begins
/// where the directory begins, and the place that it leads to is the directory's place or lies
/// below it.
pub proof fn lemma_local_path_stays_under_directory(local_dir: Seq<char>, key: Seq<char>)
    requires
        key_path(local_dir, key) is Ok,
    ensures
        ({
            let path = key_path(local_dir, key)->Ok_0;
            &&& is_absolute(path) == is_absolute(local_dir)
            &&& place_of(local_dir).is_prefix_of(place_of(path))
        }),
{
    let path = joined(local_dir, key);
    let root = Seq::<Seq<char>>::empty();
    if local_dir.len() == 0 {
        assert(path =~= key);
        assert(segments(local_dir) =~= seq![Seq::<char>::empty()]);
        assert(walk(root, segments(local_dir)) == root) by {
            reveal_with_fuel(walk, 2);
        }
        lemma_walk_downward(root, segments(key));
    } else if local_dir.last() == '/' {
        let dir = local_dir.drop_last();
        assert(local_dir + key =~= dir + seq!['/'] + key);
        lemma_segments_of_joined(dir, key);
        lemma_walk_on(root, segments(dir), segments(key));
        lemma_walk_downward(walk(root, segments(dir)), segments(key));
        assert(segments(local_dir).drop_last() =~= segments(dir));
        assert(place_of(local_dir) == walk(root, segments(dir)));
        assert(path[0] == local_dir[0]);
    } else {
        lemma_segments_of_joined(local_dir, key);
        lemma_walk_on(root, segments(local_dir), segments(key));
        lemma_walk_downward(place_of(local_dir), segments(key));
        assert(path[0] == local_dir[0]);
    }
}

/// The last segment of a path that names something, which `.` and an empty segment do not.
pub open spec fn last_name(path: Seq<Seq<char>>) -> Option<Seq<char>>
    decreases path.len(),
{
    if path.len() == 0 {
        None
    } else if path.last().len() == 0 || path.last() == seq!['.'] {
        last_name(path.drop_last())
    } else {
        Some(path.last())
    }
}

/// The file name that a path ends with. A path that ends by leading upward has none.
pub open spec fn final_name(path: Seq<char>) -> Option<Seq<char>> {
    match last_name(segments(path)) {
        Some(name) => if name == seq!['.', '.'] {
            None
        } else {
            Some(name)
        },
        None => None,
    }
}

/// The path without the slashes and `.` segments at its end. The root stays.
pub open spec fn trimmed(path: Seq<char>) -> Seq<char>
    decreases path.len(),
{
    if path.len() > 1 && (path.last() == '/' || (path.last() == '.' && path[path.len() - 2]
        == '/')) {
        trimmed(path.drop_last())
    } else {
        path
    }
}

/// The path up to its last slash, and with it.
pub open spec fn up_to_last_slash(path: Seq<char>) -> Seq<char>
    decreases path.len(),
{
    if path.len() == 0 || path.last() == '/' {
        path
    } else {
        up_to_last_slash(path.drop_last())
    }
}

/// The directory that a path lies in. The root lies in none, nor does an empty path.
pub open spec fn parent(path: Seq<char>) -> Option<Seq<char>> {
    let path = trimmed(path);
    if path.len() == 0 || path == seq!['/'] {
        None
    } else {
        Some(trimmed(up_to_last_slash(path)))
    }
}

/// A path without a slash is one segment.
proof fn lemma_single_segment(path: Seq<char>)
    requires
        !path.contains('/'),
    ensures
        segments(path) == seq![path],
    decreases path.len(),
{
    if path.len() > 0 {
        let before = path.drop_last();
        assert forall|i: int| 0 <= i < before.len() implies before[i] != '/' by {
            assert(path[i] == before[i]);
        }
        lemma_single_segment(before);
        assert(path.last() == path[path.len() - 1]);
        assert(before.push(path.last()) =~= path);
        assert(segments(path) =~= seq![path]);
    } else {
        assert(path =~= Seq::empty());
    }
}

/// Where the last segment of a path begins.
fn last_segment_start(path: &Vec<char>, end: usize) -> (start: usize)
    requires
        end <= path@.len(),
    ensures
        start <= end,
        start > 0 ==> path@[start - 1] == '/',
        segments(path@.take(end as int)) == (if start == 0 {
            seq![path@.take(end as int)]
        } else {
            segments(path@.take(start - 1)).push(path@.subrange(start as int, end as int))
        }),
{
    let mut start: usize = end;
    while start > 0 && path[start - 1] != '/'
        invariant
            start <= end <= path@.len(),
            forall|k: int| start <= k < end ==> path@[k] != '/',
        decreases start,
    {
        start = start - 1;
    }
    proof {
        let segment = path@.subrange(start as int, end as int);
        assert(!segment.contains('/')) by {
            assert forall|i: int| 0 <= i < segment.len() implies segment[i] != '/' by {
                assert(segment[i] == path@[start + i]);
            }
        }
        lemma_single_segment(segment);
        if start == 0 {
            assert(segment =~= path@.take(end as int));
        } else {
            let before = path@.take(start - 1);
            assert(path@.take(end as int) =~= before + seq!['/'] + segment);
            lemma_segments_of_joined(before, segment);
            assert(segments(before) + seq![segment] =~= segments(before).push(segment));
        }
    }
    start
}

/// The file name that a path ends with by the rules of Unix, if there is one.
pub fn file_name(path: &str) -> (name: Option<String>)
    ensures
        name.deep_view() == final_name(path@),
{
    let chars = chars_of(path);
    let mut end: usize = chars.len();
    assert(chars@.take(end as int) =~= path@);
    loop
        invariant
            chars@ == path@,
            end <= chars@.len(),
            last_name(segments(path@)) == last_name(segments(chars@.take(end as int))),
        decreases end,
    {
        let start: usize = last_segment_start(&chars, end);
        let ghost segment = chars@.subrange(start as int, end as int);
        let ghost all = segments(chars@.take(end as int));
        proof {
            assert(segment == all.last()) by {
                if start == 0 {
                    assert(segment =~= chars@.take(end as int));
                }
            }
            if start == 0 {
                assert(all.drop_last() =~= Seq::<Seq<char>>::empty());
                assert(last_name(all.drop_last()) is None);
            } else {
                assert(all.drop_last() =~= segments(chars@.take(start - 1)));
            }
        }
        let unnamed: bool = start == end || (end - start == 1 && chars[start] == '.');
        assert(unnamed == (segment.len() == 0 || segment == seq!['.'])) by {
            if segment.len() == 1 {
                assert(segment =~= seq![segment[0]]);
                assert(segment[0] == chars@[start as int]);
            }
            if segment == seq!['.'] {
                assert(segment[0] == chars@[start as int]);
            }
        }
        if unnamed {
            if start == 0 {
                return None;
            }
            end = start - 1;
        } else {
            let upward: bool = end - start == 2 && chars[start] == '.' && chars[start + 1] == '.';
            assert(upward == (segment == seq!['.', '.'])) by {
                if segment.len() == 2 {
                    assert(segment[0] == chars@[start as int]);
                    assert(segment[1] == chars@[start + 1]);
                    assert(segment =~= seq![segment[0], segment[1]]);
                }
            }
            if upward {
                return None;
            }
            let name = path.substring_char(start, end);
            assert(name@ =~= segment);
            return Some(name.to_owned());
        }
    }
}

/// Where a path ends once the slashes and `.` segments at its end are taken off.
fn trimmed_end(path: &Vec<char>, end: usize) -> (kept: usize)
    requires
        end <= path@.len(),
    ensures
        kept <= end,
        path@.take(kept as int) == trimmed(path@.take(end as int)),
{
    let mut kept: usize = end;
    while kept > 1 && (path[kept - 1] == '/' || (path[kept - 1] == '.' && path[kept - 2] == '/'))
        invariant
            kept <= end <= path@.len(),
            trimmed(path@.take(kept as int)) == trimmed(path@.take(end as int)),
        decreases kept,
    {
        assert(path@.take(kept as int).drop_last() =~= path@.take(kept - 1));
        kept = kept - 1;
    }
    kept
}

/// Where a path ends once what stands behind its last slash is taken off.
fn last_slash_end(path: &Vec<char>, end: usize) -> (kept: usize)
    requires
        end <= path@.len(),
    ensures
        kept <= end,
        path@.take(kept as int) == up_to_last_slash(path@.take(end as int)),
{
    let mut kept: usize = end;
    while kept > 0 && path[kept - 1] != '/'
        invariant
            kept <= end <= path@.len(),
            up_to_last_slash(path@.take(kept as int)) == up_to_last_slash(path@.take(end as int)),
        decreases kept,
    {
        assert(path@.take(kept as int).drop_last() =~= path@.take(kept - 1));
        kept = kept - 1;
    }
    kept
}

/// The directory that a path lies in by the rules of Unix, if there is one.
pub fn parent_directory(path: &str) -> (directory: Option<String>)
    ensures
        directory.deep_view() == parent(path@),
{
    let chars = chars_of(path);
    let length: usize = chars.len();
    assert(chars@.take(length as int) =~= path@);
    let end: usize = trimmed_end(&chars, length);
    let ghost whole = chars@.take(end as int);
    let is_root: bool = end == 1 && chars[0] == '/';
    assert(is_root == (whole == seq!['/'])) by {
        assert(whole.len() == end);
        if whole.len() == 1 {
            assert(whole[0] == chars@[0]);
            assert(whole =~= seq![whole[0]]);
        }
        assert(seq!['/'].len() == 1 && seq!['/'][0] == '/');
    }
    if end == 0 || is_root {
        return None;
    }
    let above: usize = last_slash_end(&chars, end);
    let kept: usize = trimmed_end(&chars, above);
    let directory = path.substring_char(0, kept);
    assert(directory@ =~= chars@.take(kept as int));
    Some(directory.to_owned())
}

/// Where a walk without a segment that leads upward goes does not depend on where it begins: the
/// names along it are added to the place.
proof fn lemma_walk_adds_names(place: Seq<Seq<char>>, path: Seq<Seq<char>>)
    requires
        !path.contains(seq!['.', '.']),
    ensures
        walk(place, path) == place + walk(Seq::empty(), path),
    decreases path.len(),
{
    let root = Seq::<Seq<char>>::empty();
    if path.len() == 0 {
        assert(place + root =~= place);
    } else {
        lemma_contains_last(path, seq!['.', '.']);
        lemma_walk_adds_names(place, path.drop_last());
        let below = walk(root, path.drop_last());
        assert((place + below).push(path.last()) =~= place + below.push(path.last()));
    }
}

/// The local path for a key leads, from the place of the local directory, along the names of the
/// key. It is made of the directory, the key and at most a slash between them.
pub proof fn lemma_local_path_is_the_key_under_the_directory(
    local_dir: Seq<char>,
    key: Seq<char>,
)
    requires
        key_path(local_dir, key) is Ok,
    ensures
        ({
            let path = key_path(local_dir, key)->Ok_0;
            &&& local_dir.is_prefix_of(path)
            &&& key.is_suffix_of(path)
            &&& local_dir.len() + key.len() <= path.len() <= local_dir.len() + 1 + key.len()
            &&& path.len() == local_dir.len() + 1 + key.len() ==> path[local_dir.len() as int] == '/'
            &&& place_of(path) == place_of(local_dir) + place_of(key)
        }),
{
    let path = joined(local_dir, key);
    let root = Seq::<Seq<char>>::empty();
    assert(key.is_suffix_of(path)) by {
        assert(path.subrange(path.len() - key.len(), path.len() as int) =~= key);
    }
    if local_dir.len() == 0 {
        assert(path =~= key);
        assert(segments(local_dir) =~= seq![Seq::<char>::empty()]);
        assert(walk(root, segments(local_dir)) == root) by {
            reveal_with_fuel(walk, 2);
        }
        assert(root + place_of(key) =~= place_of(key));
    } else if local_dir.last() == '/' {
        let dir = local_dir.drop_last();
        assert(local_dir + key =~= dir + seq!['/'] + key);
        lemma_segments_of_joined(dir, key);
        lemma_walk_on(root, segments(dir), segments(key));
        lemma_walk_adds_names(walk(root, segments(dir)), segments(key));
        assert(segments(local_dir).drop_last() =~= segments(dir));
        assert(place_of(local_dir) == walk(root, segments(dir)));
    } else {
        lemma_segments_of_joined(local_dir, key);
        lemma_walk_on(root, segments(local_dir), segments(key));
        lemma_walk_adds_names(place_of(local_dir), segments(key));
    }
}

/// The key has `..` between two slashes, or between a slash and one of its ends, or is `..`.
pub open spec fn leads_upward(key: Seq<char>, at: int) -> bool {
    &&& 0 <= at
    &&& at + 2 <= key.len()
    &&& key[at] == '.' && key[at + 1] == '.'
    &&& at == 0 || key[at - 1] == '/'
    &&& at + 2 == key.len() || key[at + 2] == '/'
}

/// A segment of a path stands in it between slashes, and the last one at its end.
proof fn lemma_segment_stands_in_path(path: Seq<char>, i: int) -> (at: int)
    requires
        0 <= i < segments(path).len(),
    ensures
        0 <= at,
        at + segments(path)[i].len() <= path.len(),
        path.subrange(at, at + segments(path)[i].len()) == segments(path)[i],
        at == 0 || path[at - 1] == '/',
        i < segments(path).len() - 1 ==> at + segments(path)[i].len() < path.len() && path[at
            + segments(path)[i].len()] == '/',
        i == segments(path).len() - 1 ==> at + segments(path)[i].len() == path.len(),
    decreases path.len(),
{
    let found = segments(path)[i];
    if path.len() == 0 {
        assert(path.subrange(0, 0) =~= found);
        0
    } else {
        let before = path.drop_last();
        lemma_some_segment(before);
        let earlier = segments(before);
        if path.last() == '/' && i == earlier.len() {
            assert(path.subrange(path.len() as int, path.len() as int) =~= found);
            path.len() as int
        } else {
            let at = lemma_segment_stands_in_path(before, i);
            let length = earlier[i].len() as int;
            assert(at > 0 ==> path[at - 1] == before[at - 1]);
            assert(path.subrange(at, at + length) =~= before.subrange(at, at + length));
            if i < earlier.len() - 1 {
                assert(path[at + length] == before[at + length]);
            } else if path.last() != '/' {
                assert(found == earlier[i].push(path.last()));
                assert(path.subrange(at, at + found.len()) =~= path.subrange(
                    at,
                    at + length,
                ).push(path.last()));
            }
            at
        }
    }
}

/// A key is refused exactly if it is empty, begins at the root, or has a `..` between its slashes.
pub proof fn lemma_only_safe_keys_have_a_local_path(local_dir: Seq<char>, key: Seq<char>)
    ensures
        match key_path(local_dir, key) {
            Err(ToolErrorView::EmptyKey) => key.len() == 0,
            Err(ToolErrorView::UnsafeKey(refused)) => refused == key && key.len() > 0 && (key[0]
                == '/' || exists|at: int| leads_upward(key, at)),
            Err(_) => false,
            Ok(_) => key.len() > 0 && key[0] != '/' && forall|at: int| !leads_upward(key, at),
        },
{
    let up = seq!['.', '.'];
    if segments(key).contains(up) {
        let i = choose|i: int| 0 <= i < segments(key).len() && segments(key)[i] == up;
        let at = lemma_segment_stands_in_path(key, i);
        assert(key.subrange(at, at + 2)[0] == key[at]);
        assert(key.subrange(at, at + 2)[1] == key[at + 1]);
        assert(leads_upward(key, at));
    }
    assert forall|at: int| leads_upward(key, at) implies segments(key).contains(up) by {
        lemma_upward_segment(key, at);
    }
}

/// `..` between slashes is a segment.
proof fn lemma_upward_segment(key: Seq<char>, at: int)
    requires
        leads_upward(key, at),
    ensures
        segments(key).contains(seq!['.', '.']),
{
    let up = seq!['.', '.'];
    let tail = key.skip(at);
    assert(up =~= tail.take(2));
    assert(!up.contains('/'));
    lemma_single_segment(up);
    if at + 2 == key.len() {
        assert(tail =~= up);
        assert(segments(tail)[0] == up);
    } else {
        let rest = key.skip(at + 3);
        assert(tail =~= up + seq!['/'] + rest);
        lemma_segments_of_joined(up, rest);
        assert(segments(tail)[0] == up);
    }
    lemma_some_segment(tail);
    if at == 0 {
        assert(tail =~= key);
    } else {
        let front = key.take(at - 1);
        assert(key =~= front + seq!['/'] + tail);
        lemma_segments_of_joined(front, tail);
        assert(segments(key)[segments(front).len() as int] == up);
    }
}

/// The file name of a path is what stands behind its last slash, if that is a name.
pub proof fn lemma_file_name_stands_behind_the_last_slash(dir: Seq<char>, name: Seq<char>)
    requires
        name.len() > 0,
        !name.contains('/'),
        name != seq!['.'],
        name != seq!['.', '.'],
    ensures
        final_name(name) == Some(name),
        final_name(dir + seq!['/'] + name) == Some(name),
        final_name(dir + seq!['/'] + name + seq!['/']) == Some(name),
{
    lemma_single_segment(name);
    lemma_segments_of_joined(dir, name);
    let path = dir + seq!['/'] + name;
    assert(segments(name).last() == name);
    assert(segments(path).last() == name);
    let slashed = path + seq!['/'];
    assert(slashed.drop_last() =~= path);
    assert(segments(slashed).last().len() == 0);
    assert(segments(slashed).drop_last() =~= segments(path));
}

/// A path that is empty, that is only a slash, or that ends by leading upward has no file name. A
/// file name that there is stands in the path, and holds no slash.
pub proof fn lemma_file_name_is_a_name(path: Seq<char>)
    ensures
        path.len() == 0 ==> final_name(path) is None,
        path == seq!['/'] ==> final_name(path) is None,
        path == seq!['.', '.'] ==> final_name(path) is None,
        final_name(path) matches Some(name) ==> {
            &&& name.len() > 0
            &&& name != seq!['.']
            &&& name != seq!['.', '.']
            &&& exists|i: int| 0 <= i < segments(path).len() && segments(path)[i] == name
        },
{
    lemma_last_name_is_a_segment(segments(path));
    reveal_with_fuel(segments, 3);
    reveal_with_fuel(last_name, 3);
    if path == seq!['.', '.'] {
        assert(!path.contains('/'));
        lemma_single_segment(path);
        assert(segments(path).last() == path);
    }
    if path.len() == 0 {
        assert(segments(path).drop_last() =~= Seq::<Seq<char>>::empty());
    }
    if path == seq!['/'] {
        assert(path.drop_last() =~= Seq::<char>::empty());
        assert(segments(path.drop_last()) =~= seq![Seq::<char>::empty()]);
        assert(segments(path) =~= seq![Seq::<char>::empty(), Seq::<char>::empty()]);
        assert(segments(path).drop_last().drop_last() =~= Seq::<Seq<char>>::empty());
    }
}

/// The last name among segments is one of them, and a name.
proof fn lemma_last_name_is_a_segment(path: Seq<Seq<char>>)
    ensures
        last_name(path) matches Some(name) ==> name.len() > 0 && name != seq!['.'] && exists|i: int|
            0 <= i < path.len() && path[i] == name,
    decreases path.len(),
{
    if path.len() > 0 {
        if path.last().len() == 0 || path.last() == seq!['.'] {
            lemma_last_name_is_a_segment(path.drop_last());
            if let Some(name) = last_name(path.drop_last()) {
                let i = choose|i: int|
                    0 <= i < path.drop_last().len() && path.drop_last()[i] == name;
                assert(path[i] == name);
            }
        } else {
            assert(path[path.len() - 1] == path.last());
        }
    }
}

/// A file lies in the directory that stands before the last slash of its path; one without a slash
/// lies in the current directory, which is the empty path. The root lies in no directory.
pub proof fn lemma_parent_stands_before_the_last_slash(dir: Seq<char>, name: Seq<char>)
    requires
        name.len() > 0,
        !name.contains('/'),
        name != seq!['.'],
        dir.len() > 0,
        dir.last() != '/',
        dir.last() != '.',
    ensures
        parent(dir + seq!['/'] + name) == Some(dir),
        parent(seq!['/'] + name) == Some(seq!['/']),
        parent(name) == Some(Seq::<char>::empty()),
        parent(seq!['/']) is None,
        parent(Seq::empty()) is None,
{
    assert(name.last() != '/');
    let below = dir + seq!['/'] + name;
    let rooted = seq!['/'] + name;
    lemma_name_is_not_trimmed(dir + seq!['/'], name);
    lemma_name_is_not_trimmed(seq!['/'], name);
    lemma_up_to_last_slash(dir + seq!['/'], name);
    lemma_up_to_last_slash(seq!['/'], name);
    lemma_up_to_last_slash(Seq::empty(), name);
    assert(Seq::<char>::empty() + name =~= name);
    assert(below.len() > 1);
    assert(rooted.len() > 1);
    assert(name != seq!['/']) by {
        assert(seq!['/'][0] == '/');
    }
    assert(trimmed(name) == name) by {
        if name.len() > 1 {
            assert(name[name.len() - 2] != '/');
        }
    }
    assert(trimmed(dir + seq!['/']) == dir) by {
        assert((dir + seq!['/']).drop_last() =~= dir);
        assert(trimmed(dir) == dir);
    }
    assert(trimmed(seq!['/']) == seq!['/']);
    assert(trimmed(Seq::<char>::empty()) =~= Seq::<char>::empty());
}

/// A name at the end of a path is not taken off with the slashes there.
proof fn lemma_name_is_not_trimmed(dir: Seq<char>, name: Seq<char>)
    requires
        name.len() > 0,
        !name.contains('/'),
        name != seq!['.'],
    ensures
        trimmed(dir + name) == dir + name,
{
    let path = dir + name;
    assert(path.last() == name.last());
    assert(name.contains(name.last()));
    if name.last() == '.' {
        if name.len() == 1 {
            assert(name =~= seq!['.']);
        } else {
            assert(path[path.len() - 2] == name[name.len() - 2]);
            assert(name.contains(name[name.len() - 2]));
        }
    }
}

/// What stands behind the last slash of a path is taken off.
proof fn lemma_up_to_last_slash(dir: Seq<char>, name: Seq<char>)
    requires
        dir.len() == 0 || dir.last() == '/',
        !name.contains('/'),
    ensures
        up_to_last_slash(dir + name) == dir,
    decreases name.len(),
{
    if name.len() == 0 {
        assert(dir + name =~= dir);
    } else {
        let before = name.drop_last();
        assert forall|i: int| 0 <= i < before.len() implies before[i] != '/' by {
            assert(name.contains(name[i]));
        }
        assert((dir + name).drop_last() =~= dir + before);
        assert((dir + name).last() == name.last());
        assert(name.contains(name.last()));
        lemma_up_to_last_slash(dir, before);
    }
}

/// Taking slashes and `.` segments off the end of a path does not change where it leads.
proof fn lemma_trimmed_path_leads_there(path: Seq<char>)
    ensures
        place_of(trimmed(path)) == place_of(path),
        last_name(segments(trimmed(path))) == last_name(segments(path)),
        trimmed(path).len() <= 1 || (trimmed(path).last() != '/' && !(trimmed(path).last() == '.'
            && trimmed(path)[trimmed(path).len() - 2] == '/')),
    decreases path.len(),
{
    if path.len() > 1 && path.last() == '/' {
        let before = path.drop_last();
        lemma_trimmed_path_leads_there(before);
        assert(segments(path).drop_last() =~= segments(before));
    } else if path.len() > 1 && path.last() == '.' && path[path.len() - 2] == '/' {
        let before = path.drop_last();
        lemma_trimmed_path_leads_there(before);
        let above = before.drop_last();
        let dot = segments(path).last();
        assert(before.last() == '/');
        assert(segments(before) == segments(above).push(Seq::empty()));
        assert(segments(before).drop_last() =~= segments(above));
        assert(segments(path).drop_last() =~= segments(above));
        assert(dot =~= seq!['.']);
    }
}

/// A path is what stands up to its last slash, and its last segment behind it.
proof fn lemma_last_segment_stands_behind_the_slash(path: Seq<char>)
    ensures
        path == up_to_last_slash(path) + segments(path).last(),
        segments(path).len() > 0,
        segments(up_to_last_slash(path)).drop_last() == segments(path).drop_last(),
        segments(up_to_last_slash(path)).last().len() == 0,
        segments(up_to_last_slash(path)).len() > 0,
    decreases path.len(),
{
    lemma_some_segment(path);
    if path.len() == 0 {
        assert(path =~= up_to_last_slash(path) + segments(path).last());
    } else if path.last() == '/' {
        assert(segments(path).last().len() == 0);
        assert(path =~= up_to_last_slash(path) + segments(path).last());
    } else {
        let before = path.drop_last();
        lemma_last_segment_stands_behind_the_slash(before);
        let name = segments(before).last();
        assert(segments(path).last() == name.push(path.last()));
        assert(path =~= before.push(path.last()));
        assert(before.push(path.last()) =~= up_to_last_slash(before) + name.push(path.last()));
        assert(segments(path).drop_last() =~= segments(before).drop_last());
    }
}

/// A file lies in its directory: the path leads to where the directory's path leads and, from
/// there, along the file's name. Every path with a file name has a directory.
pub proof fn lemma_file_lies_in_its_directory(path: Seq<char>)
    ensures
        final_name(path) matches Some(name) ==> (parent(path) matches Some(directory) && place_of(
            path,
        ) == place_of(directory).push(name)),
{
    if let Some(name) = final_name(path) {
        let kept = trimmed(path);
        lemma_trimmed_path_leads_there(path);
        lemma_last_segment_stands_behind_the_slash(kept);
        let above = up_to_last_slash(kept);
        lemma_trimmed_path_leads_there(above);
        reveal_with_fuel(last_name, 3);
        reveal_with_fuel(segments, 3);
        let last = segments(kept).last();
        if kept.len() == 0 {
            assert(segments(kept).drop_last() =~= Seq::<Seq<char>>::empty());
        }
        if kept == seq!['/'] {
            lemma_file_name_is_a_name(kept);
        }
        if last.len() == 0 {
            assert(kept =~= above);
            if kept.len() > 0 {
                lemma_ends_with_slash(kept);
            }
        }
        if last == seq!['.'] {
            lemma_only_dot(kept, above);
        }
        assert(last_name(segments(kept)) == Some(last));
        assert(place_of(kept) == step(walk(Seq::empty(), segments(kept).drop_last()), last));
        assert(place_of(above) == walk(Seq::empty(), segments(above).drop_last()));
    }
}

/// A path whose last segment is empty ends with a slash.
proof fn lemma_ends_with_slash(path: Seq<char>)
    requires
        path.len() > 0,
        segments(path).last().len() == 0,
    ensures
        path.last() == '/',
{
}

/// A path that ends with a `.` segment is only that, or has a slash before it.
proof fn lemma_only_dot(path: Seq<char>, above: Seq<char>)
    requires
        above == up_to_last_slash(path),
        path == above + seq!['.'],
        path.len() <= 1 || !(path.last() == '.' && path[path.len() - 2] == '/'),
    ensures
        last_name(segments(path)) is None,
{
    lemma_slash_end(path);
    if above.len() > 0 {
        assert(path[path.len() - 2] == above.last());
    } else {
        assert(path =~= seq!['.']);
        lemma_single_segment(path);
        assert(segments(path).drop_last() =~= Seq::<Seq<char>>::empty());
        assert(last_name(segments(path).drop_last()) is None);
    }
}

/// What stands up to the last slash of a path ends with it.
proof fn lemma_slash_end(path: Seq<char>)
    ensures
        up_to_last_slash(path).len() == 0 || up_to_last_slash(path).last() == '/',
    decreases path.len(),
{
    if path.len() > 0 && path.last() != '/' {
        lemma_slash_end(path.drop_last());
    }
}

} // verus!
