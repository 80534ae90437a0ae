//! Paths as text: components, equality, and names that stay inside a directory.
use crate::error::CoreError;
use crate::text::{characters, owned, same_text};
use vstd::prelude::*;

verus! {

/// What stands between the separators of a path.
pub open spec fn segments(path: Seq<char>) -> Seq<Seq<char>>
    decreases path.len(),
{
    if path.len() == 0 {
        seq![Seq::<char>::empty()]
    } else {
        let before = segments(path.drop_last());
        if path.last() == '/' {
            before.push(Seq::<char>::empty())
        } else {
            before.update(before.len() - 1, before.last().push(path.last()))
        }
    }
}

/// The segment counts as a component: it is not empty, and it does not stand for the directory
/// that it is in, unless the path begins with it.
pub open spec fn counts(segment: Seq<char>, index: int) -> bool {
    segment.len() > 0 && (segment != "."@ || index == 0)
}

/// The components among the first segments.
pub open spec fn counted(all: Seq<Seq<char>>, upto: int) -> Seq<Seq<char>>
    decreases upto,
{
    if upto <= 0 {
        Seq::<Seq<char>>::empty()
    } else {
        let before = counted(all, upto - 1);
        if counts(all[upto - 1], upto - 1) {
            before.push(all[upto - 1])
        } else {
            before
        }
    }
}

/// The components of a path, but for the root.
pub open spec fn components(path: Seq<char>) -> Seq<Seq<char>> {
    counted(segments(path), segments(path).len() as int)
}

/// The path begins at the root.
pub open spec fn is_absolute(path: Seq<char>) -> bool {
    path.len() > 0 && path[0] == '/'
}

/// Two paths are the same path: both begin at the root or neither does, and their components
/// agree.
pub open spec fn same_path(a: Seq<char>, b: Seq<char>) -> bool {
    is_absolute(a) == is_absolute(b) && components(a) == components(b)
}

proof fn lemma_segments(path: Seq<char>)
    ensures
        segments(path).len() >= 1,
    decreases path.len(),
{
    if path.len() > 0 {
        lemma_segments(path.drop_last());
    }
}

/// What stands between the separators of a path.
fn split_segments(path: &str) -> (all: Vec<String>)
    ensures
        crate::config::texts_of(all@) == segments(path@),
{
    let chars: Vec<char> = characters(path);
    let mut all: Vec<String> = Vec::new();
    let mut current: String = String::new();
    let mut i: usize = 0;
    assert(crate::config::texts_of(all@).push(current@) =~= segments(chars@.take(0)));
    while i < chars.len()
        invariant
            i <= chars.len(),
            crate::config::texts_of(all@).push(current@) == segments(chars@.take(i as int)),
        decreases chars.len() - i,
    {
        let ghost before = crate::config::texts_of(all@);
        let ghost segment = current@;
        proof {
            lemma_segments(chars@.take(i as int));
            assert(chars@.take(i + 1).drop_last() =~= chars@.take(i as int));
            assert(chars@.take(i + 1).last() == chars@[i as int]);
        }
        if chars[i] == '/' {
            all.push(current);
            current = String::new();
            assert(crate::config::texts_of(all@) =~= before.push(segment));
        } else {
            current.push(chars[i]);
            assert(before.push(current@) =~= before.push(segment).update(
                before.len() as int,
                segment.push(chars@[i as int]),
            ));
        }
        i = i + 1;
    }
    assert(chars@.take(i as int) =~= path@);
    let ghost before = crate::config::texts_of(all@);
    let ghost segment = current@;
    all.push(current);
    assert(crate::config::texts_of(all@) =~= before.push(segment));
    all
}

/// The components of a path, but for the root.
pub fn split_components(path: &str) -> (parts: Vec<String>)
    ensures
        crate::config::texts_of(parts@) == components(path@),
{
    let all: Vec<String> = split_segments(path);
    let ghost texts = crate::config::texts_of(all@);
    let mut parts: Vec<String> = Vec::new();
    let mut i: usize = 0;
    assert(crate::config::texts_of(parts@) =~= counted(texts, 0));
    while i < all.len()
        invariant
            i <= all.len(),
            texts == crate::config::texts_of(all@),
            crate::config::texts_of(parts@) == counted(texts, i as int),
        decreases all.len() - i,
    {
        assert(texts[i as int] == all@[i as int]@);
        let here: bool = same_text(all[i].as_str(), ".");
        if !all[i].as_str().is_empty() && (!here || i == 0) {
            let ghost before = parts@;
            parts.push(all[i].clone());
            assert(crate::config::texts_of(parts@) =~= crate::config::texts_of(before).push(
                all@[i as int]@,
            ));
        }
        i = i + 1;
    }
    parts
}

pub fn begins_at_root(path: &str) -> (absolute: bool)
    ensures
        absolute == is_absolute(path@),
{
    let chars: Vec<char> = characters(path);
    chars.len() > 0 && chars[0] == '/'
}

/// Whether two paths are the same path.
pub fn paths_match(a: &str, b: &str) -> (same: bool)
    ensures
        same == same_path(a@, b@),
{
    begins_at_root(a) == begins_at_root(b) && crate::config::same_texts(
        &split_components(a),
        &split_components(b),
    )
}

/// Some path of a list is the same path.
pub open spec fn lists_path(paths: Seq<String>, path: Seq<char>) -> bool {
    exists|i: int| 0 <= i < paths.len() && same_path((#[trigger] paths[i])@, path)
}

/// The first of each path, in their order.
pub open spec fn firsts(paths: Seq<String>) -> Seq<String>
    decreases paths.len(),
{
    if paths.len() == 0 {
        Seq::<String>::empty()
    } else {
        let before = firsts(paths.drop_last());
        if lists_path(before, paths.last()@) {
            before
        } else {
            before.push(paths.last())
        }
    }
}

fn holds_path(paths: &Vec<String>, path: &str) -> (held: bool)
    ensures
        held == lists_path(paths@, path@),
{
    let mut i: usize = 0;
    while i < paths.len()
        invariant
            i <= paths.len(),
            forall|k: int| 0 <= k < i ==> !same_path((#[trigger] paths@[k])@, path@),
        decreases paths.len() - i,
    {
        if paths_match(paths[i].as_str(), path) {
            assert(same_path(paths@[i as int]@, path@));
            return true;
        }
        i = i + 1;
    }
    false
}

/// The first of each path, in their order.
pub fn unique_pathbufs(paths: &Vec<String>) -> (unique: Vec<String>)
    ensures
        unique@ == firsts(paths@),
{
    let mut unique: Vec<String> = Vec::new();
    let mut i: usize = 0;
    while i < paths.len()
        invariant
            i <= paths.len(),
            unique@ == firsts(paths@.take(i as int)),
        decreases paths.len() - i,
    {
        assert(paths@.take(i + 1).drop_last() =~= paths@.take(i as int));
        if !holds_path(&unique, paths[i].as_str()) {
            unique.push(paths[i].clone());
        }
        i = i + 1;
    }
    assert(paths@.take(i as int) =~= paths@);
    unique
}

/// No path is kept twice, every path is kept in some form, and what is kept was there.
pub proof fn firsts_are_distinct_and_complete(paths: Seq<String>)
    ensures
        forall|i: int, j: int|
            0 <= i < j < firsts(paths).len() ==> !same_path(
                (#[trigger] firsts(paths)[i])@,
                (#[trigger] firsts(paths)[j])@,
            ),
        forall|i: int| 0 <= i < paths.len() ==> lists_path(firsts(paths), (#[trigger] paths[i])@),
        forall|i: int| 0 <= i < firsts(paths).len() ==> paths.contains(#[trigger] firsts(paths)[i]),
    decreases paths.len(),
{
    if paths.len() > 0 {
        let rest = paths.drop_last();
        let before = firsts(rest);
        let after = firsts(paths);
        firsts_are_distinct_and_complete(rest);
        assert forall|i: int| 0 <= i < paths.len() implies lists_path(
            after,
            (#[trigger] paths[i])@,
        ) by {
            if i < rest.len() {
                assert(lists_path(before, rest[i]@));
                let k = choose|k: int|
                    0 <= k < before.len() && same_path((#[trigger] before[k])@, rest[i]@);
                assert(after[k] == before[k]);
            } else if after != before {
                assert(after[before.len() as int] == paths.last());
                assert(same_path(after[before.len() as int]@, paths[i]@));
            }
        }
        assert forall|i: int| 0 <= i < after.len() implies paths.contains(#[trigger] after[i]) by {
            if i < before.len() {
                assert(rest.contains(before[i]));
                assert(paths[rest.index_of(before[i])] == before[i]);
            } else {
                assert(paths[paths.len() - 1] == after[i]);
            }
        }
        assert forall|i: int, j: int| 0 <= i < j < after.len() implies !same_path(
            (#[trigger] after[i])@,
            (#[trigger] after[j])@,
        ) by {
            if j == before.len() {
                assert(!lists_path(before, paths.last()@));
                assert(before[i] == after[i]);
            }
        }
    }
}

/// A list of texts holds the text.
pub open spec fn lists_text(texts: Seq<String>, text: Seq<char>) -> bool {
    exists|i: int| 0 <= i < texts.len() && (#[trigger] texts[i])@ == text
}

/// Lists a path as it is shown, unless it is listed already.
pub fn push_display_path(paths: &mut Vec<String>, path: &str)
    ensures
        lists_text(old(paths)@, path@) ==> final(paths)@ == old(paths)@,
        !lists_text(old(paths)@, path@) ==> {
            &&& final(paths)@.len() == old(paths)@.len() + 1
            &&& final(paths)@.drop_last() == old(paths)@
            &&& final(paths)@.last()@ == path@
        },
{
    let mut i: usize = 0;
    while i < paths.len()
        invariant
            i <= paths.len(),
            paths@ == old(paths)@,
            forall|k: int| 0 <= k < i ==> (#[trigger] paths@[k])@ != path@,
        decreases paths.len() - i,
    {
        if same_text(paths[i].as_str(), path) {
            assert(paths@[i as int]@ == path@);
            return ;
        }
        i = i + 1;
    }
    paths.push(owned(path));
    assert(paths@.drop_last() =~= old(paths)@);
}

/// A character that counts as blank in Unicode.
pub open spec fn is_blank(ch: char) -> bool {
    let code = ch as u32;
    ||| 0x09 <= code <= 0x0d
    ||| code == 0x20
    ||| code == 0x85
    ||| code == 0xa0
    ||| code == 0x1680
    ||| 0x2000 <= code <= 0x200a
    ||| code == 0x2028
    ||| code == 0x2029
    ||| code == 0x202f
    ||| code == 0x205f
    ||| code == 0x3000
}

/// Whether a text holds nothing but blanks.
pub fn all_blank(text: &str) -> (blank: bool)
    ensures
        blank == (forall|i: int| 0 <= i < text@.len() ==> is_blank(#[trigger] text@[i])),
{
    let chars: Vec<char> = characters(text);
    let mut i: usize = 0;
    while i < chars.len()
        invariant
            i <= chars.len(),
            chars@ == text@,
            forall|k: int| 0 <= k < i ==> is_blank(#[trigger] text@[k]),
        decreases chars.len() - i,
    {
        let code: u32 = chars[i] as u32;
        let blank: bool = (0x09 <= code && code <= 0x0d) || code == 0x20 || code == 0x85 || code
            == 0xa0 || code == 0x1680 || (0x2000 <= code && code <= 0x200a) || code == 0x2028
            || code == 0x2029 || code == 0x202f || code == 0x205f || code == 0x3000;
        if !blank {
            assert(!is_blank(text@[i as int]));
            return false;
        }
        i = i + 1;
    }
    true
}

/// A component that leads out of, or stays in, the directory that it is in.
pub open spec fn is_dots(component: Seq<char>) -> bool {
    component == "."@ || component == ".."@
}

/// The path names something below a directory: it does not begin at the root, no component is
/// `.` or `..`, and there is a component.
pub open spec fn stays_below(path: Seq<char>) -> bool {
    &&& !is_absolute(path)
    &&& components(path).len() > 0
    &&& forall|i: int| 0 <= i < components(path).len() ==> !is_dots(#[trigger] components(path)[i])
}

/// The path holds nothing but blanks.
pub open spec fn is_void(path: Seq<char>) -> bool {
    forall|i: int| 0 <= i < path.len() ==> is_blank(#[trigger] path[i])
}

/// The path can be the new name of a file.
pub open spec fn names_below(path: Seq<char>) -> bool {
    !is_void(path) && stays_below(path)
}

/// What is said of a path that cannot be the new name of a file.
pub open spec fn path_fault(path: Seq<char>) -> crate::error::ErrorView {
    crate::error::ErrorView {
        kind: crate::error::ErrorKind::Storage,
        message: if is_void(path) {
            "renamed path must not be empty"@
        } else {
            "renamed path must be relative and must not contain '.' or '..'"@
        },
    }
}

/// The components of a path that names something below a directory.
pub fn validated_relative_path(path: &str) -> (parts: Result<Vec<String>, CoreError>)
    ensures
        parts.is_ok() == names_below(path@),
        parts matches Ok(parts) ==> crate::config::texts_of(parts@) == components(path@),
        parts matches Err(error) ==> error@ == path_fault(path@),
{
    if all_blank(path) {
        return Err(CoreError::Storage(owned("renamed path must not be empty")));
    }
    let parts: Vec<String> = split_components(path);
    let ghost texts = crate::config::texts_of(parts@);
    let refused: &str = "renamed path must be relative and must not contain '.' or '..'";
    if begins_at_root(path) {
        return Err(CoreError::Storage(owned(refused)));
    }
    let mut i: usize = 0;
    while i < parts.len()
        invariant
            i <= parts.len(),
            texts == crate::config::texts_of(parts@),
            texts == components(path@),
            !is_void(path@),
            refused@ == "renamed path must be relative and must not contain '.' or '..'"@,
            forall|k: int| 0 <= k < i ==> !is_dots(#[trigger] texts[k]),
        decreases parts.len() - i,
    {
        assert(texts[i as int] == parts@[i as int]@);
        if same_text(parts[i].as_str(), ".") || same_text(parts[i].as_str(), "..") {
            assert(is_dots(components(path@)[i as int]));
            return Err(CoreError::Storage(owned(refused)));
        }
        i = i + 1;
    }
    proof {
        lemma_relative_has_component(path@);
        assert(parts@.len() == texts.len());
    }
    Ok(parts)
}

/// A path that does not begin at the root and is not empty has a component.
proof fn lemma_relative_has_component(path: Seq<char>)
    requires
        !is_absolute(path),
        path.len() > 0,
    ensures
        components(path).len() > 0,
{
    lemma_first_segment(path);
    lemma_segments(path);
    let all = segments(path);
    assert(counts(all[0], 0));
    assert(counted(all, 1).len() == 1) by {
        assert(counted(all, 0).len() == 0);
    }
    lemma_counted_grows(all, 1, all.len() as int);
}

proof fn lemma_counted_grows(all: Seq<Seq<char>>, from: int, upto: int)
    requires
        0 <= from <= upto,
    ensures
        counted(all, from).len() <= counted(all, upto).len(),
    decreases upto - from,
{
    if from < upto {
        lemma_counted_grows(all, from, upto - 1);
    }
}

proof fn lemma_first_segment(path: Seq<char>)
    requires
        path.len() > 0,
        path[0] != '/',
    ensures
        segments(path)[0].len() > 0,
    decreases path.len(),
{
    let rest = path.drop_last();
    lemma_segments(rest);
    if rest.len() > 0 {
        assert(rest[0] == path[0]);
        lemma_first_segment(rest);
    } else {
        assert(segments(rest) == seq![Seq::<char>::empty()]);
    }
}

proof fn lemma_segments_pushed(path: Seq<char>)
    ensures
        segments(path.push('/')) == segments(path).push(Seq::<char>::empty()),
        segments(path).len() > 0,
    decreases path.len(),
{
    assert(path.push('/').drop_last() =~= path);
    if path.len() > 0 {
        lemma_segments_pushed(path.drop_last());
    }
}

proof fn lemma_counted_prefix(all: Seq<Seq<char>>, more: Seq<Seq<char>>, upto: int)
    requires
        upto <= all.len() <= more.len(),
        forall|i: int| 0 <= i < all.len() ==> #[trigger] all[i] == more[i],
    ensures
        counted(all, upto) == counted(more, upto),
    decreases upto,
{
    if upto > 0 {
        lemma_counted_prefix(all, more, upto - 1);
        assert(all[upto - 1] == more[upto - 1]);
    }
}

/// A slash at the end of a path that is not empty changes nothing, and two paths are the same
/// whichever is asked first.
pub proof fn slashes_at_the_end_change_nothing(path: Seq<char>, other: Seq<char>)
    ensures
        components(path.push('/')) == components(path),
        path.len() > 0 ==> same_path(path.push('/'), path),
        same_path(path, path),
        same_path(path, other) == same_path(other, path),
        is_absolute(path) != is_absolute(other) ==> !same_path(path, other),
{
    lemma_segments_pushed(path);
    let all = segments(path);
    let more = segments(path.push('/'));
    lemma_counted_prefix(all, more, all.len() as int);
    assert(more.len() == all.len() + 1);
    assert(!counts(more[more.len() - 1], more.len() - 1));
    assert(counted(more, more.len() as int) == counted(more, all.len() as int));
    if path.len() > 0 {
        assert(path.push('/')[0] == path[0]);
    }
}

/// No component of a path is empty, and none but the first is a single dot.
pub proof fn components_are_names(path: Seq<char>, place: int)
    requires
        0 <= place < components(path).len(),
    ensures
        components(path)[place].len() > 0,
        place > 0 ==> components(path)[place] != "."@,
{
    lemma_counted_names(segments(path), segments(path).len() as int, place);
}

proof fn lemma_counted_names(all: Seq<Seq<char>>, upto: int, place: int)
    requires
        0 <= upto <= all.len(),
        0 <= place < counted(all, upto).len(),
    ensures
        counted(all, upto)[place].len() > 0,
        place > 0 ==> counted(all, upto)[place] != "."@,
        counted(all, upto).len() <= upto,
    decreases upto,
{
    if upto > 0 {
        let before = counted(all, upto - 1);
        lemma_counted_len(all, upto - 1);
        if place < before.len() {
            lemma_counted_names(all, upto - 1, place);
        }
    }
}

proof fn lemma_counted_len(all: Seq<Seq<char>>, upto: int)
    ensures
        upto >= 0 ==> counted(all, upto).len() <= upto,
        upto < 0 ==> counted(all, upto).len() == 0,
    decreases upto,
{
    if upto > 0 {
        lemma_counted_len(all, upto - 1);
    }
}

/// A path that stays below a directory does not begin at the root, has a name in it, and goes
/// neither up nor in place.
pub proof fn paths_below_go_down(path: Seq<char>, place: int)
    requires
        stays_below(path),
    ensures
        !(path.len() > 0 && path[0] == '/'),
        components(path).len() > 0,
        0 <= place < components(path).len() ==> components(path)[place] != ".."@
            && components(path)[place] != "."@,
{
    if 0 <= place < components(path).len() {
        assert(!is_dots(components(path)[place]));
    }
}

/// A path of blanks is void, and a void path names nothing; a character that is seen is no blank.
pub proof fn blanks_name_nothing(path: Seq<char>, i: int)
    ensures
        is_blank(' ') && is_blank('\t') && is_blank('\n') && is_blank('\r'),
        forall|ch: char| '!' <= ch <= '~' ==> !#[trigger] is_blank(ch),
        path.len() == 0 ==> is_void(path) && !names_below(path),
        0 <= i < path.len() && '!' <= path[i] <= '~' ==> !is_void(path),
        names_below(path) ==> stays_below(path),
        is_void(path) ==> !names_below(path),
        path_fault(path).kind == crate::error::ErrorKind::Storage,
{
}

} // verus!
