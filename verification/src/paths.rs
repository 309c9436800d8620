//! Path text and the directories that the tools use by default.

use crate::text::{pieces, same, split, views};
use vstd::prelude::*;

verus! {

/// The path `name` as seen from `base`: an absolute `name` replaces `base`, any other is
/// appended behind one slash.
pub open spec fn joined(base: Seq<char>, name: Seq<char>) -> Seq<char> {
    if name.len() > 0 && name[0] == '/' {
        name
    } else if base.len() == 0 || base.last() == '/' {
        base + name
    } else {
        base.push('/') + name
    }
}

/// Appends `name` to the path `base`.
pub fn join(base: &str, name: &str) -> (result: String)
    ensures
        result@ == joined(base@, name@),
{
    let length: usize = base.unicode_len();
    if name.unicode_len() > 0 && name.get_char(0) == '/' {
        name.to_owned()
    } else if length == 0 || base.get_char(length - 1) == '/' {
        base.to_owned().concat(name)
    } else {
        proof {
            reveal_strlit("/");
        }
        let result = base.to_owned().concat("/").concat(name);
        assert(base@ + "/"@ =~= base@.push('/'));
        result
    }
}

/// The user's home directory, or the current directory where none is set.
pub open spec fn home(value: Option<&str>) -> Seq<char> {
    match value {
        Some(path) => path@,
        None => "."@,
    }
}

/// The home directory that the environment's `HOME` names.
pub fn home_dir(value: Option<&str>) -> (result: String)
    ensures
        result@ == home(value),
{
    match value {
        Some(path) => path.to_owned(),
        None => ".".to_owned(),
    }
}

/// The directory `kind/name` below the tools' directory in the home directory.
pub open spec fn stored(value: Option<&str>, kind: Seq<char>, name: Seq<char>) -> Seq<char> {
    joined(joined(joined(home(value), ".stable_worldmodel"@), kind), name)
}

/// Builds the path of a stored data set or run.
pub fn stored_dir(value: Option<&str>, kind: &str, name: &str) -> (result: String)
    ensures
        result@ == stored(value, kind@, name@),
{
    let root = join(home_dir(value).as_str(), ".stable_worldmodel");
    join(join(root.as_str(), kind).as_str(), name)
}

/// The path starts at the root.
pub open spec fn rooted(path: Seq<char>) -> bool {
    path.len() > 0 && path[0] == '/'
}

/// A piece of a path names something: it is not empty, and not the dot that stands for where the
/// path is already. A dot in front says where the path starts, and counts.
pub open spec fn is_component(parts: Seq<Seq<char>>, place: int) -> bool {
    parts[place].len() > 0 && (place == 0 || parts[place] != "."@)
}

/// The components among the first `end` pieces of a path.
pub open spec fn components_of(parts: Seq<Seq<char>>, end: int) -> Seq<Seq<char>>
    decreases end,
{
    if end <= 0 {
        Seq::empty()
    } else if is_component(parts, end - 1) {
        components_of(parts, end - 1).push(parts[end - 1])
    } else {
        components_of(parts, end - 1)
    }
}

/// The components of a path: what its slashes separate, without what names nothing.
pub open spec fn components(path: Seq<char>) -> Seq<Seq<char>> {
    components_of(pieces(path, '/'), pieces(path, '/').len() as int)
}

/// Two texts write the same path: they start at the same place and have the same components. A
/// repeated or trailing slash and an inner dot make no difference.
pub open spec fn same_path(left: Seq<char>, right: Seq<char>) -> bool {
    rooted(left) == rooted(right) && components(left) == components(right)
}

/// Lists the components of a path.
fn component_list(path: &str) -> (list: Vec<String>)
    ensures
        views(list@) == components(path@),
{
    let parts = split(path, '/');
    let ghost all = pieces(path@, '/');
    let mut list: Vec<String> = Vec::new();
    let mut next: usize = 0;
    assert(views(list@) =~= components_of(all, 0));
    while next < parts.len()
        invariant
            next <= parts@.len(),
            views(parts@) == all,
            views(list@) == components_of(all, next as int),
        decreases parts@.len() - next,
    {
        assert(views(parts@)[next as int] == parts@[next as int]@);
        let part: &str = parts[next].as_str();
        let ghost before = views(list@);
        if part.unicode_len() > 0 && (next == 0 || !same(part, ".")) {
            list.push(part.to_owned());
            assert(views(list@) =~= before.push(all[next as int]));
        }
        next = next + 1;
    }
    list
}

/// Whether two texts write the same path.
pub fn is_same_path(left: &str, right: &str) -> (answer: bool)
    ensures
        answer == same_path(left@, right@),
{
    let left_rooted = left.unicode_len() > 0 && left.get_char(0) == '/';
    let right_rooted = right.unicode_len() > 0 && right.get_char(0) == '/';
    if left_rooted != right_rooted {
        return false;
    }
    let first = component_list(left);
    let second = component_list(right);
    if first.len() != second.len() {
        assert(views(first@).len() != views(second@).len());
        return false;
    }
    let mut next: usize = 0;
    while next < first.len()
        invariant
            next <= first@.len() == second@.len(),
            forall|i: int| 0 <= i < next ==> #[trigger] first@[i]@ == second@[i]@,
            views(first@) == components(left@),
            views(second@) == components(right@),
        decreases first@.len() - next,
    {
        if !same(first[next].as_str(), second[next].as_str()) {
            assert(views(first@)[next as int] != views(second@)[next as int]);
            return false;
        }
        next = next + 1;
    }
    assert(views(first@) =~= views(second@));
    true
}

/// Two optional paths agree: both are missing, or they write the same path.
pub open spec fn same_optional_path(left: Option<String>, right: Option<String>) -> bool {
    match (left, right) {
        (Some(first), Some(second)) => same_path(first@, second@),
        (None, None) => true,
        _ => false,
    }
}

/// Whether two optional paths agree.
pub fn is_same_optional_path(left: &Option<String>, right: &Option<String>) -> (answer: bool)
    ensures
        answer == same_optional_path(*left, *right),
{
    match (left, right) {
        (Some(first), Some(second)) => is_same_path(first.as_str(), second.as_str()),
        (None, None) => true,
        _ => false,
    }
}

proof fn lemma_pieces_joined(head: Seq<char>, tail: Seq<char>)
    ensures
        pieces(head.push('/') + tail, '/') == pieces(head, '/') + pieces(tail, '/'),
        pieces(tail, '/').len() > 0,
    decreases tail.len(),
{
    let whole = head.push('/') + tail;
    if tail.len() == 0 {
        assert(whole =~= head.push('/'));
        assert(whole.drop_last() =~= head);
    } else {
        let before = tail.drop_last();
        lemma_pieces_joined(head, before);
        assert(whole.drop_last() =~= head.push('/') + before);
        assert(whole.last() == tail.last());
        let first = pieces(head, '/');
        let second = pieces(before, '/');
        if tail.last() == '/' {
            assert((first + second).push(Seq::empty()) =~= first + second.push(Seq::empty()));
        } else {
            let longer = second.last().push(tail.last());
            assert((first + second).last() == second.last());
            assert((first + second).update((first + second).len() - 1, longer) =~= first
                + second.update(second.len() - 1, longer));
        }
    }
}

proof fn lemma_components_joined(first: Seq<Seq<char>>, second: Seq<Seq<char>>, end: int)
    requires
        first.len() > 0,
        0 <= end <= second.len(),
    ensures
        components_of(first + second, first.len() + end) == components_of(
            first,
            first.len() as int,
        ) + inner_components(second, end),
    decreases end,
{
    let both = first + second;
    if end == 0 {
        lemma_components_prefix(first, second, first.len() as int);
        assert(components_of(first, first.len() as int) + inner_components(second, 0)
            =~= components_of(first, first.len() as int));
    } else {
        lemma_components_joined(first, second, end - 1);
        assert(both[first.len() + end - 1] == second[end - 1]);
        let front = components_of(first, first.len() as int);
        let inner = inner_components(second, end - 1);
        assert((front + inner).push(second[end - 1]) =~= front + inner.push(second[end - 1]));
    }
}

proof fn lemma_components_prefix(first: Seq<Seq<char>>, second: Seq<Seq<char>>, end: int)
    requires
        0 <= end <= first.len(),
    ensures
        components_of(first + second, end) == components_of(first, end),
    decreases end,
{
    if end > 0 {
        lemma_components_prefix(first, second, end - 1);
        assert((first + second)[end - 1] == first[end - 1]);
    }
}

/// The components among the first `end` pieces of a path behind a slash, where no dot counts.
spec fn inner_components(parts: Seq<Seq<char>>, end: int) -> Seq<Seq<char>>
    decreases end,
{
    if end <= 0 {
        Seq::empty()
    } else if parts[end - 1].len() > 0 && parts[end - 1] != "."@ {
        inner_components(parts, end - 1).push(parts[end - 1])
    } else {
        inner_components(parts, end - 1)
    }
}

proof fn lemma_components_behind_slash(head: Seq<char>, tail: Seq<char>)
    ensures
        components(head.push('/') + tail) == components(head) + inner_components(
            pieces(tail, '/'),
            pieces(tail, '/').len() as int,
        ),
{
    lemma_pieces_joined(head, tail);
    lemma_pieces_joined(Seq::empty(), head);
    lemma_components_joined(pieces(head, '/'), pieces(tail, '/'), pieces(tail, '/').len() as int);
}

/// A repeated slash, an inner dot and a trailing slash leave a path the same.
pub proof fn law_paths_agree_by_components(head: Seq<char>, tail: Seq<char>)
    ensures
        same_path(head + "//"@ + tail, head + "/"@ + tail),
        same_path(head + "/./"@ + tail, head + "/"@ + tail),
        head.len() > 0 ==> same_path(head + "/"@, head),
{
    reveal_strlit("/");
    reveal_strlit("//");
    reveal_strlit("/./");
    reveal_strlit(".");
    let none = Seq::<char>::empty();
    let dot = seq!['.'];
    assert(head + "/"@ + tail =~= head.push('/') + tail);
    assert(head + "//"@ + tail =~= head.push('/').push('/') + tail);
    assert(head + "/./"@ + tail =~= (head.push('/') + dot).push('/') + tail);
    assert(head + "/"@ =~= head.push('/') + none);
    assert(head.push('/') =~= head.push('/') + none);
    lemma_components_behind_slash(head, tail);
    lemma_components_behind_slash(head.push('/'), tail);
    lemma_components_behind_slash(head.push('/') + dot, tail);
    lemma_components_behind_slash(head, none);
    lemma_components_behind_slash(head, dot);
    assert("."@ =~= dot);
    assert(pieces(none, '/') =~= seq![none]);
    assert(dot.drop_last() =~= none);
    assert(pieces(dot, '/') =~= seq![dot]);
    reveal_with_fuel(inner_components, 2);
    assert(components(head) + Seq::<Seq<char>>::empty() =~= components(head));
}

/// Joining appends: a base that does not end in a slash, and a name that does not begin with
/// one, meet at exactly one slash.
pub proof fn law_join_appends(base: Seq<char>, name: Seq<char>)
    requires
        base.len() > 0,
        base.last() != '/',
        name.len() > 0,
        name[0] != '/',
    ensures
        joined(base, name).len() == base.len() + 1 + name.len(),
        joined(base, name).take(base.len() as int) == base,
        joined(base, name)[base.len() as int] == '/',
        joined(base, name).skip((base.len() + 1) as int) == name,
{
    assert(joined(base, name).take(base.len() as int) =~= base);
    assert(joined(base, name).skip((base.len() + 1) as int) =~= name);
}

/// A name that begins with a slash stands for itself; otherwise it is put behind the base, with a
/// slash between them where the base does not end in one.
pub proof fn law_joining_puts_one_slash_between(base: Seq<char>, name: Seq<char>)
    ensures
        name.len() > 0 && name[0] == '/' ==> joined(base, name) == name,
        !(name.len() > 0 && name[0] == '/') && base.len() > 0 && base.last() != '/' ==> joined(
            base,
            name,
        ) == base + seq!['/'] + name,
        !(name.len() > 0 && name[0] == '/') && base.len() > 0 && base.last() == '/' ==> joined(
            base,
            name,
        ) == base + name,
        !(name.len() > 0 && name[0] == '/') && base.len() == 0 ==> joined(base, name) == name,
{
    assert(base.push('/') + name =~= base + seq!['/'] + name);
    if base.len() == 0 {
        assert(base + name =~= name);
    }
}

/// What the tools store lies below the directory `.stable_worldmodel` of the home directory, or of
/// the current one where there is no home.
#[verifier::spinoff_prover]
pub proof fn law_stores_lie_below_the_home_directory(
    path: &str,
    kind: Seq<char>,
    name: Seq<char>,
)
    requires
        path@.len() > 0,
        path@.last() != '/',
        kind.len() > 0,
        kind[0] != '/',
        kind.last() != '/',
        name.len() > 0,
        name[0] != '/',
    ensures
        stored(Some(path), kind, name) == path@ + "/.stable_worldmodel/"@ + kind + "/"@ + name,
        stored(None, kind, name) == "./.stable_worldmodel/"@ + kind + "/"@ + name,
{
    reveal_strlit(".stable_worldmodel");
    reveal_strlit("/.stable_worldmodel/");
    reveal_strlit("./.stable_worldmodel/");
    reveal_strlit(".");
    reveal_strlit("/");
    let folder = ".stable_worldmodel"@;
    let first = joined(path@, folder);
    assert(first =~= path@.push('/') + folder);
    assert(first.last() == folder.last());
    let second = joined(first, kind);
    assert(second =~= first.push('/') + kind);
    assert(second.last() == kind.last());
    assert(stored(Some(path), kind, name) =~= path@ + "/.stable_worldmodel/"@ + kind + "/"@ + name);
    let here = joined("."@, folder);
    assert(here =~= "."@.push('/') + folder);
    assert(here.last() == folder.last());
    let inner = joined(here, kind);
    assert(inner =~= here.push('/') + kind);
    assert(inner.last() == kind.last());
    assert(stored(None, kind, name) =~= "./.stable_worldmodel/"@ + kind + "/"@ + name);
}

/// Paths that end in different names differ, and so do a path from the root and one from the current
/// directory. A setting that is given differs from one that is not.
#[verifier::spinoff_prover]
pub proof fn law_different_names_are_different_paths(
    head: Seq<char>,
    first: Seq<char>,
    second: Seq<char>,
    left: Seq<char>,
    right: Seq<char>,
    given: String,
)
    requires
        first != second,
        !first.contains('/'),
        !second.contains('/'),
        first.len() > 0,
        second.len() > 0,
        first != "."@,
        second != "."@,
    ensures
        !same_path(head.push('/') + first, head.push('/') + second),
        left.len() > 0 && left[0] == '/' && !(right.len() > 0 && right[0] == '/') ==> !same_path(
            left,
            right,
        ),
        !same_optional_path(Some(given), None),
        !same_optional_path(None, Some(given)),
        same_optional_path(None, None),
        same_optional_path(Some(given), Some(given)),
{
    lemma_components_behind_slash(head, first);
    lemma_components_behind_slash(head, second);
    lemma_one_piece(first);
    lemma_one_piece(second);
    assert(pieces(first, '/')[0] == first);
    assert(pieces(second, '/')[0] == second);
    reveal_with_fuel(inner_components, 2);
    let one = components(head.push('/') + first);
    let other = components(head.push('/') + second);
    assert(one.last() == first);
    assert(other.last() == second);
}

proof fn lemma_one_piece(text: Seq<char>)
    requires
        !text.contains('/'),
    ensures
        pieces(text, '/').len() == 1,
        pieces(text, '/')[0] == text,
    decreases text.len(),
{
    if text.len() > 0 {
        let rest = text.drop_last();
        assert(!rest.contains('/')) by {
            if rest.contains('/') {
                let at = choose|i: int| 0 <= i < rest.len() && rest[i] == '/';
                assert(text[at] == '/');
            }
        }
        lemma_one_piece(rest);
        assert(text[text.len() - 1] != '/');
        assert(rest.push(text.last()) =~= text);
    } else {
        assert(text =~= Seq::<char>::empty());
    }
}

/// A dot at the beginning of a path counts: a name in the current directory, written with it, is
/// another path than the bare name.
#[verifier::spinoff_prover]
pub proof fn law_leading_dots_count(name: Seq<char>)
    requires
        !name.contains('/'),
        name.len() > 0,
        name != "."@,
    ensures
        components("./"@ + name) == seq!["."@, name],
        components(name) == seq![name],
        !same_path("./"@ + name, name),
{
    reveal_strlit("./");
    reveal_strlit(".");
    let dot = "."@;
    assert("./"@ + name =~= dot.push('/') + name);
    lemma_components_behind_slash(dot, name);
    lemma_one_piece(name);
    assert(!dot.contains('/'));
    lemma_one_piece(dot);
    assert(pieces(name, '/')[0] == name);
    assert(pieces(dot, '/')[0] == dot);
    reveal_with_fuel(inner_components, 2);
    reveal_with_fuel(components_of, 2);
    assert(components(dot) =~= seq![dot]);
    assert(components("./"@ + name) =~= seq![dot, name]);
    assert(components(name) =~= seq![name]);
}

} // verus!
