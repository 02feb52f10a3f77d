//! Absolute paths: their components, and their canonical form without `.`,
//! `..` and doubled slashes.

use crate::text;
use crate::text::Edge;
use vstd::prelude::*;
use vstd::string::*;

verus! {

/// The components that are left once `.` is skipped and `..` takes back the
/// component before it; at the root there is nothing to take back.
pub open spec fn resolve_dots(components: Seq<Seq<char>>) -> Seq<Seq<char>>
    decreases components.len(),
{
    if components.len() == 0 {
        components
    } else {
        let before = resolve_dots(components.drop_last());
        let last = components.last();
        if last == "."@ {
            before
        } else if last == ".."@ {
            if before.len() > 0 {
                before.drop_last()
            } else {
                before
            }
        } else {
            before.push(last)
        }
    }
}

/// The absolute path with these components.
pub open spec fn path_string(components: Seq<Seq<char>>) -> Seq<char> {
    if components.len() == 0 {
        "/"@
    } else {
        "/"@ + text::join(components, '/')
    }
}

/// The parts of `path` between slashes that are not empty.
pub open spec fn parts(path: Seq<char>) -> Seq<Seq<char>> {
    text::nonempty(text::split(path, '/'))
}

/// The normal form of `path`. A path that starts with a slash becomes
/// canonical; any other gets a slash in front, and is left alone otherwise.
pub open spec fn normalized(path: Seq<char>) -> Seq<char> {
    let t = text::trim_back(path, Edge::Slash);
    if t.len() == 0 {
        "/"@
    } else if t[0] == '/' {
        path_string(resolve_dots(parts(t)))
    } else {
        "/"@ + t
    }
}

/// The components of the normal form of `path`.
pub open spec fn components(path: Seq<char>) -> Seq<Seq<char>> {
    if normalized(path) == "/"@ {
        Seq::<Seq<char>>::empty()
    } else {
        parts(normalized(path))
    }
}

/// The path of the directory that holds the entry with these components.
pub open spec fn parent_string(components: Seq<Seq<char>>) -> Seq<char> {
    if components.len() <= 1 {
        "/"@
    } else {
        "/"@ + text::join(components.drop_last(), '/')
    }
}

/// A component that names an entry: not empty, without a slash, and neither
/// `.` nor `..`.
pub open spec fn plain(component: Seq<char>) -> bool {
    component.len() > 0 && !component.contains('/') && component != "."@ && component != ".."@
}

pub open spec fn all_plain(components: Seq<Seq<char>>) -> bool {
    forall|i: int| 0 <= i < components.len() ==> plain(#[trigger] components[i])
}

/// The components of a path without `.`, which is how the path to a file and
/// the path to its directory are told apart.
pub open spec fn without_dots(components: Seq<Seq<char>>) -> Seq<Seq<char>>
    decreases components.len(),
{
    if components.len() == 0 {
        components
    } else if components.last() == "."@ {
        without_dots(components.drop_last())
    } else {
        without_dots(components.drop_last()).push(components.last())
    }
}

pub open spec fn drop_final(components: Seq<Seq<char>>) -> Seq<Seq<char>> {
    if components.len() == 0 {
        components
    } else {
        components.drop_last()
    }
}

/// Where a symbolic link at the absolute path `link` with the content `target`
/// leads: an absolute target stands for itself, any other is taken from the
/// directory that holds the link.
pub open spec fn link_destination(link: Seq<char>, target: Seq<char>) -> Seq<char> {
    if target.len() > 0 && target[0] == '/' {
        normalized(target)
    } else {
        path_string(
            resolve_dots(drop_final(without_dots(parts(link))) + parts(target)),
        )
    }
}

/// Resolves `.` and `..` in a list of components.
pub fn resolve_dot_components(components: &Vec<String>) -> (r: Vec<String>)
    ensures
        text::views(r@) == resolve_dots(text::views(components@)),
{
    let ghost all = text::views(components@);
    let mut out: Vec<String> = Vec::new();
    let mut i: usize = 0;
    assert(text::views(out@) =~= resolve_dots(all.take(0)));
    while i < components.len()
        invariant
            i <= components@.len(),
            all == text::views(components@),
            text::views(out@) == resolve_dots(all.take(i as int)),
        decreases components@.len() - i,
    {
        let c = components[i].as_str();
        let ghost before = text::views(out@);
        assert(all.take(i + 1).drop_last() =~= all.take(i as int));
        assert(all.take(i + 1).last() == c@);
        if text::same(c, ".") {
        } else if text::same(c, "..") {
            if out.len() > 0 {
                let _ = out.pop();
                assert(text::views(out@) =~= before.drop_last());
            }
        } else {
            out.push(components[i].clone());
            assert(text::views(out@) =~= before.push(c@));
        }
        i = i + 1;
    }
    assert(all.take(i as int) =~= all);
    out
}

/// The parts of `path` between slashes that are not empty.
pub fn split_parts(path: &str) -> (r: Vec<String>)
    ensures
        text::views(r@) == parts(path@),
{
    text::keep_nonempty(text::split_on(path, '/'))
}

/// The absolute path with these components.
pub fn path_of(components: &Vec<String>) -> (r: String)
    ensures
        r@ == path_string(text::views(components@)),
{
    if components.len() == 0 {
        return "/".to_owned();
    }
    let n: usize = components.len();
    let joined = text::join_first(components, n, '/');
    assert(text::views(components@).take(n as int) =~= text::views(components@));
    text::concat("/", joined.as_str())
}

/// The normal form of `path`.
pub fn normalize_path(path: &str) -> (r: String)
    ensures
        r@ == normalized(path@),
{
    let t = text::trim_end(path, Edge::Slash);
    let chars = text::chars_of(t.as_str());
    if chars.len() == 0 {
        return "/".to_owned();
    }
    if chars[0] != '/' {
        return text::concat("/", t.as_str());
    }
    let pieces = split_parts(t.as_str());
    let resolved = resolve_dot_components(&pieces);
    path_of(&resolved)
}

/// The components of the normal form of `path`.
pub fn split_path(path: &str) -> (r: Vec<String>)
    ensures
        text::views(r@) == components(path@),
{
    let n = normalize_path(path);
    if text::same(n.as_str(), "/") {
        let out: Vec<String> = Vec::new();
        assert(text::views(out@) =~= Seq::<Seq<char>>::empty());
        return out;
    }
    split_parts(n.as_str())
}

/// The path of the directory that holds the entry with these components.
pub fn parent_of(components: &Vec<String>) -> (r: String)
    ensures
        r@ == parent_string(text::views(components@)),
{
    if components.len() <= 1 {
        return "/".to_owned();
    }
    let n: usize = components.len() - 1;
    let joined = text::join_first(components, n, '/');
    assert(text::views(components@).take(n as int) =~= text::views(components@).drop_last());
    text::concat("/", joined.as_str())
}

/// The components without `.`.
pub fn drop_dots(components: &Vec<String>) -> (r: Vec<String>)
    ensures
        text::views(r@) == without_dots(text::views(components@)),
{
    let ghost all = text::views(components@);
    let mut out: Vec<String> = Vec::new();
    let mut i: usize = 0;
    assert(text::views(out@) =~= without_dots(all.take(0)));
    while i < components.len()
        invariant
            i <= components@.len(),
            all == text::views(components@),
            text::views(out@) == without_dots(all.take(i as int)),
        decreases components@.len() - i,
    {
        let ghost before = text::views(out@);
        assert(all.take(i + 1).drop_last() =~= all.take(i as int));
        assert(all.take(i + 1).last() == components@[i as int]@);
        if !text::same(components[i].as_str(), ".") {
            out.push(components[i].clone());
            assert(text::views(out@) =~= before.push(components@[i as int]@));
        }
        i = i + 1;
    }
    assert(all.take(i as int) =~= all);
    out
}

/// Where a symbolic link at `link` with the content `target` leads.
pub fn follow_link(link: &str, target: &str) -> (r: String)
    ensures
        r@ == link_destination(link@, target@),
{
    let chars = text::chars_of(target);
    if chars.len() > 0 && chars[0] == '/' {
        return normalize_path(target);
    }
    let mut base = drop_dots(&split_parts(link));
    let ghost full = text::views(base@);
    let _ = base.pop();
    assert(text::views(base@) =~= drop_final(full));
    let tail = split_parts(target);
    let mut i: usize = 0;
    let ghost head = text::views(base@);
    assert(head + text::views(tail@).take(0) =~= head);
    while i < tail.len()
        invariant
            i <= tail@.len(),
            text::views(base@) == head + text::views(tail@).take(i as int),
        decreases tail@.len() - i,
    {
        let ghost before = text::views(base@);
        base.push(tail[i].clone());
        i = i + 1;
        assert(text::views(base@) =~= before.push(tail@[i - 1]@));
        assert(text::views(base@) =~= head + text::views(tail@).take(i as int));
    }
    assert(text::views(tail@).take(i as int) =~= text::views(tail@));
    let resolved = resolve_dot_components(&base);
    path_of(&resolved)
}

/// Splitting around a separator splits both sides.
pub proof fn lemma_split_around(a: Seq<char>, sep: char, b: Seq<char>)
    ensures
        text::split(a.push(sep) + b, sep) == text::split(a, sep) + text::split(b, sep),
    decreases b.len(),
{
    let whole = a.push(sep) + b;
    if b.len() == 0 {
        assert(whole =~= a.push(sep));
        assert(whole.drop_last() =~= a);
        assert(text::split(b, sep) =~= seq![Seq::<char>::empty()]);
        assert(text::split(whole, sep) =~= text::split(a, sep) + text::split(b, sep));
    } else {
        lemma_split_around(a, sep, b.drop_last());
        assert(whole.drop_last() =~= a.push(sep) + b.drop_last());
        let sa = text::split(a, sep);
        let sb = text::split(b.drop_last(), sep);
        text::lemma_split_nonempty(b.drop_last(), sep);
        assert((sa + sb).last() == sb.last());
        assert((sa + sb).drop_last() =~= sa + sb.drop_last());
        assert(text::split(whole, sep) =~= sa + text::split(b, sep));
    }
}

/// The parts of two paths with a slash between them are the parts of the one and
/// then the parts of the other.
pub proof fn lemma_parts_join(a: Seq<char>, b: Seq<char>)
    ensures
        parts(a + seq!['/'] + b) == parts(a) + parts(b),
{
    assert(a + seq!['/'] + b =~= a.push('/') + b);
    lemma_split_around(a, '/', b);
    lemma_nonempty_join(text::split(a, '/'), text::split(b, '/'));
}

proof fn lemma_nonempty_join(a: Seq<Seq<char>>, b: Seq<Seq<char>>)
    ensures
        text::nonempty(a + b) == text::nonempty(a) + text::nonempty(b),
    decreases b.len(),
{
    if b.len() == 0 {
        assert(a + b =~= a);
        assert(text::nonempty(a) + text::nonempty(b) =~= text::nonempty(a));
    } else {
        assert((a + b).drop_last() =~= a + b.drop_last());
        lemma_nonempty_join(a, b.drop_last());
        assert(text::nonempty(a + b) =~= text::nonempty(a) + text::nonempty(b));
    }
}

/// A text without the separator is one piece.
pub proof fn lemma_split_plain(s: Seq<char>, sep: char)
    requires
        !s.contains(sep),
    ensures
        text::split(s, sep) == seq![s],
    decreases s.len(),
{
    if s.len() > 0 {
        assert(s.contains(s.last()));
        assert(!s.drop_last().contains(sep)) by {
            if s.drop_last().contains(sep) {
                let j = choose|j: int| 0 <= j < s.drop_last().len() && s.drop_last()[j] == sep;
                assert(s[j] == sep);
            }
        }
        lemma_split_plain(s.drop_last(), sep);
        assert(s.drop_last().push(s.last()) =~= s);
        assert(text::split(s, sep) =~= seq![s]);
    } else {
        assert(s =~= Seq::<char>::empty());
    }
}

/// Splitting what was joined gives the pieces back.
pub proof fn lemma_split_of_join(pieces: Seq<Seq<char>>, sep: char)
    requires
        pieces.len() > 0,
        forall|i: int| 0 <= i < pieces.len() ==> !(#[trigger] pieces[i]).contains(sep),
    ensures
        text::split(text::join(pieces, sep), sep) == pieces,
    decreases pieces.len(),
{
    if pieces.len() == 1 {
        lemma_split_plain(pieces[0], sep);
        assert(pieces =~= seq![pieces[0]]);
    } else {
        let before = pieces.drop_last();
        assert forall|i: int| 0 <= i < before.len() implies !(#[trigger] before[i]).contains(
            sep,
        ) by {
            assert(before[i] == pieces[i]);
        }
        lemma_split_of_join(before, sep);
        assert(pieces[pieces.len() - 1] == pieces.last());
        lemma_split_plain(pieces.last(), sep);
        lemma_split_around(text::join(before, sep), sep, pieces.last());
        assert(text::split(text::join(pieces, sep), sep) =~= pieces);
    }
}

/// Nothing is dropped where no piece is empty.
pub proof fn lemma_nonempty_all(pieces: Seq<Seq<char>>)
    requires
        forall|i: int| 0 <= i < pieces.len() ==> (#[trigger] pieces[i]).len() > 0,
    ensures
        text::nonempty(pieces) == pieces,
    decreases pieces.len(),
{
    if pieces.len() > 0 {
        let before = pieces.drop_last();
        assert forall|i: int| 0 <= i < before.len() implies (#[trigger] before[i]).len() > 0 by {
            assert(before[i] == pieces[i]);
        }
        lemma_nonempty_all(before);
        assert(pieces[pieces.len() - 1] == pieces.last());
        assert(before.push(pieces.last()) =~= pieces);
    }
}

/// An empty piece in front is dropped.
proof fn lemma_nonempty_front(pieces: Seq<Seq<char>>)
    ensures
        text::nonempty(seq![Seq::<char>::empty()] + pieces) == text::nonempty(pieces),
    decreases pieces.len(),
{
    let front = seq![Seq::<char>::empty()];
    if pieces.len() == 0 {
        assert(front + pieces =~= front);
        assert(front.drop_last() =~= pieces);
        assert(text::nonempty(front) =~= text::nonempty(pieces));
    } else {
        lemma_nonempty_front(pieces.drop_last());
        assert((front + pieces).drop_last() =~= front + pieces.drop_last());
        assert((front + pieces).last() == pieces.last());
    }
}

/// The parts of an absolute path with plain components are these components.
pub proof fn lemma_parts_of_path(cs: Seq<Seq<char>>)
    requires
        all_plain(cs),
        cs.len() > 0,
    ensures
        parts(path_string(cs)) == cs,
        path_string(cs) != "/"@,
        path_string(cs)[0] == '/',
        text::trim_back(path_string(cs), Edge::Slash) == path_string(cs),
{
    reveal_strlit("/");
    let joined = text::join(cs, '/');
    let s = path_string(cs);
    assert(s =~= Seq::<char>::empty().push('/') + joined);
    lemma_split_around(Seq::<char>::empty(), '/', joined);
    assert(text::split(Seq::<char>::empty(), '/') =~= seq![Seq::<char>::empty()]);
    assert forall|i: int| 0 <= i < cs.len() implies !(#[trigger] cs[i]).contains('/') by {
        assert(plain(cs[i]));
    }
    lemma_split_of_join(cs, '/');
    lemma_nonempty_front(cs);
    assert forall|i: int| 0 <= i < cs.len() implies (#[trigger] cs[i]).len() > 0 by {
        assert(plain(cs[i]));
    }
    lemma_nonempty_all(cs);
    let last = cs.last();
    assert(plain(cs[cs.len() - 1]));
    assert(joined.len() > 0 && joined.last() == last.last()) by {
        if cs.len() == 1 {
            assert(joined == cs[0]);
        } else {
            assert(joined == text::join(cs.drop_last(), '/').push('/') + last);
        }
    }
    assert(last.contains(last.last()));
    assert(s.last() == joined.last());
}

/// Components that are plain are what is left of them.
pub proof fn lemma_resolve_plain(cs: Seq<Seq<char>>)
    requires
        all_plain(cs),
    ensures
        resolve_dots(cs) == cs,
    decreases cs.len(),
{
    if cs.len() > 0 {
        let before = cs.drop_last();
        assert forall|i: int| 0 <= i < before.len() implies plain(#[trigger] before[i]) by {
            assert(before[i] == cs[i]);
        }
        lemma_resolve_plain(before);
        assert(plain(cs[cs.len() - 1]));
        assert(before.push(cs.last()) =~= cs);
    }
}

/// What is left once `.` and `..` are resolved is plain, where the parts hold
/// no slash and are not empty.
pub proof fn lemma_resolved_is_plain(cs: Seq<Seq<char>>)
    requires
        forall|i: int|
            0 <= i < cs.len() ==> (#[trigger] cs[i]).len() > 0 && !cs[i].contains('/'),
    ensures
        all_plain(resolve_dots(cs)),
    decreases cs.len(),
{
    if cs.len() > 0 {
        let before = cs.drop_last();
        assert forall|i: int| 0 <= i < before.len() implies (#[trigger] before[i]).len() > 0
            && !before[i].contains('/') by {
            assert(before[i] == cs[i]);
        }
        lemma_resolved_is_plain(before);
        assert(cs[cs.len() - 1] == cs.last());
        let r = resolve_dots(before);
        let out = resolve_dots(cs);
        assert forall|i: int| 0 <= i < out.len() implies plain(#[trigger] out[i]) by {
            if i < r.len() {
                assert(out[i] == r[i]);
            }
        }
    }
}

/// The pieces that are kept are pieces of the list.
pub proof fn lemma_nonempty_members(pieces: Seq<Seq<char>>, sep: char)
    requires
        forall|i: int| 0 <= i < pieces.len() ==> !(#[trigger] pieces[i]).contains(sep),
    ensures
        forall|i: int|
            0 <= i < text::nonempty(pieces).len() ==> (#[trigger] text::nonempty(pieces)[i]).len()
                > 0 && !text::nonempty(pieces)[i].contains(sep),
    decreases pieces.len(),
{
    if pieces.len() > 0 {
        let before = pieces.drop_last();
        assert forall|i: int| 0 <= i < before.len() implies !(#[trigger] before[i]).contains(
            sep,
        ) by {
            assert(before[i] == pieces[i]);
        }
        lemma_nonempty_members(before, sep);
        assert(pieces[pieces.len() - 1] == pieces.last());
        let kept = text::nonempty(before);
        let out = text::nonempty(pieces);
        assert forall|i: int| 0 <= i < out.len() implies (#[trigger] out[i]).len() > 0
            && !out[i].contains(sep) by {
            if i < kept.len() {
                assert(out[i] == kept[i]);
            }
        }
    }
}

/// The parts of any text are not empty and hold no slash.
pub proof fn lemma_parts_are_names(path: Seq<char>)
    ensures
        forall|i: int|
            0 <= i < parts(path).len() ==> (#[trigger] parts(path)[i]).len() > 0 && !parts(
                path,
            )[i].contains('/'),
{
    text::law_split_join(path, '/');
    lemma_nonempty_members(text::split(path, '/'), '/');
}

/// The components of a path with plain components are these components.
pub proof fn lemma_components_of_path(cs: Seq<Seq<char>>)
    requires
        all_plain(cs),
    ensures
        normalized(path_string(cs)) == path_string(cs),
        components(path_string(cs)) == cs,
{
    reveal_strlit("/");
    if cs.len() == 0 {
        assert("/"@ =~= seq!['/']);
        assert("/"@.drop_last() =~= Seq::<char>::empty());
        assert(text::trim_back("/"@, Edge::Slash) == text::trim_back(
            Seq::<char>::empty(),
            Edge::Slash,
        ));
        assert(components(path_string(cs)) =~= cs);
    } else {
        lemma_parts_of_path(cs);
        lemma_resolve_plain(cs);
    }
}

/// The normal form of an absolute path is canonical: it has plain components
/// only, and normalizing it again changes nothing.
pub proof fn law_normal_form_is_canonical(path: Seq<char>)
    requires
        path.len() > 0,
        path[0] == '/',
    ensures
        normalized(normalized(path)) == normalized(path),
        all_plain(components(path)),
        normalized(path) == path_string(components(path)),
{
    let t = text::trim_back(path, Edge::Slash);
    lemma_trim_back_keeps_front(path);
    if t.len() == 0 {
        lemma_components_of_path(Seq::<Seq<char>>::empty());
    } else {
        let cs = resolve_dots(parts(t));
        lemma_parts_are_names(t);
        lemma_resolved_is_plain(parts(t));
        lemma_components_of_path(cs);
        if cs.len() > 0 {
            lemma_parts_of_path(cs);
        }
    }
}

/// What is left after trimming the end starts as before.
proof fn lemma_trim_back_keeps_front(s: Seq<char>)
    ensures
        text::trim_back(s, Edge::Slash).len() > 0 ==> text::trim_back(s, Edge::Slash)[0] == s[0],
        text::trim_back(s, Edge::Slash).len() <= s.len(),
    decreases s.len(),
{
    if s.len() > 0 && s.last() == '/' {
        lemma_trim_back_keeps_front(s.drop_last());
    }
}

/// The normal form of any path starts with a slash, and its own normal form is
/// canonical.
pub proof fn law_second_normal_form_is_canonical(path: Seq<char>)
    ensures
        normalized(path).len() > 0,
        normalized(path)[0] == '/',
        all_plain(components(normalized(path))),
{
    reveal_strlit("/");
    let t = text::trim_back(path, Edge::Slash);
    assert(normalized(path)[0] == '/');
    law_normal_form_is_canonical(normalized(path));
}

/// The path of the entry `name` in the directory at `parent`.
pub open spec fn child(parent: Seq<char>, name: Seq<char>) -> Seq<char> {
    if parent == "/"@ {
        "/"@ + name
    } else {
        parent + "/"@ + name
    }
}

/// The path without what does not count at its end: slashes, and `.` behind a
/// slash.
pub open spec fn trim_tail(path: Seq<char>) -> Seq<char>
    decreases path.len(),
{
    if path.len() == 0 {
        path
    } else if path.last() == '/' {
        trim_tail(path.drop_last())
    } else if path.len() >= 2 && path.last() == '.' && path[path.len() - 2] == '/' {
        trim_tail(path.drop_last())
    } else {
        path
    }
}

/// The path up to its last slash.
pub open spec fn up_to_slash(path: Seq<char>) -> Seq<char>
    decreases path.len(),
{
    if path.len() == 0 || path.last() == '/' {
        path
    } else {
        up_to_slash(path.drop_last())
    }
}

/// The path of the directory that holds the entry at `path`; above the root
/// there is only the root.
pub open spec fn directory(path: Seq<char>) -> Seq<char> {
    let d = trim_tail(up_to_slash(trim_tail(path)));
    if d.len() == 0 {
        "/"@
    } else {
        d
    }
}

/// The path of the entry `name` in the directory at `parent`.
pub fn join_path(parent: &str, name: &str) -> (r: String)
    ensures
        r@ == child(parent@, name@),
{
    if text::same(parent, "/") {
        text::concat("/", name)
    } else {
        text::concat3(parent, "/", name)
    }
}

fn tail_start(chars: &Vec<char>, to: usize) -> (r: usize)
    requires
        to <= chars@.len(),
    ensures
        r <= to,
        chars@.take(r as int) == trim_tail(chars@.take(to as int)),
{
    let mut n: usize = to;
    while n > 0 && (chars[n - 1] == '/' || n >= 2 && chars[n - 1] == '.' && chars[n - 2] == '/')
        invariant
            n <= to <= chars@.len(),
            trim_tail(chars@.take(n as int)) == trim_tail(chars@.take(to as int)),
        decreases n,
    {
        assert(chars@.take(n as int).drop_last() =~= chars@.take(n - 1));
        assert(chars@.take(n as int).last() == chars@[n - 1]);
        n = n - 1;
    }
    n
}

fn slash_start(chars: &Vec<char>, to: usize) -> (r: usize)
    requires
        to <= chars@.len(),
    ensures
        r <= to,
        chars@.take(r as int) == up_to_slash(chars@.take(to as int)),
{
    let mut n: usize = to;
    while n > 0 && chars[n - 1] != '/'
        invariant
            n <= to <= chars@.len(),
            up_to_slash(chars@.take(n as int)) == up_to_slash(chars@.take(to as int)),
        decreases n,
    {
        assert(chars@.take(n as int).drop_last() =~= chars@.take(n - 1));
        n = n - 1;
    }
    n
}

/// The path of the directory that holds the entry at `path`.
pub fn parent_path(path: &str) -> (r: String)
    ensures
        r@ == directory(path@),
{
    let chars = text::chars_of(path);
    assert(chars@.take(chars@.len() as int) =~= chars@);
    let a = tail_start(&chars, chars.len());
    let b = slash_start(&chars, a);
    let c = tail_start(&chars, b);
    if c == 0 {
        return "/".to_owned();
    }
    assert(chars@.subrange(0, c as int) =~= chars@.take(c as int));
    text::string_of(&chars, 0, c)
}

/// The directory of an entry is the one it was named in.
pub proof fn law_directory_of_child(parent: Seq<char>, name: Seq<char>)
    requires
        plain(name),
        parent == "/"@ || parent.len() > 0 && trim_tail(parent) == parent,
    ensures
        directory(child(parent, name)) == parent,
{
    reveal_strlit("/");
    reveal_strlit(".");
    let path = child(parent, name);
    let base = if parent == "/"@ {
        "/"@
    } else {
        parent + "/"@
    };
    assert(path =~= base + name);
    assert(path.last() == name.last());
    assert(name.contains(name.last()));
    if name.len() == 1 {
        assert(name =~= seq![name.last()]);
        assert("."@ =~= seq!['.']);
    } else {
        assert(path[path.len() - 2] == name[name.len() - 2]);
        assert(name.contains(name[name.len() - 2]));
    }
    assert(trim_tail(path) == path);
    lemma_up_to_slash(base, name);
    assert(up_to_slash(path) == base);
    if parent == "/"@ {
        assert("/"@.drop_last() =~= Seq::<char>::empty());
        assert(trim_tail(Seq::<char>::empty()).len() == 0);
        assert(trim_tail("/"@).len() == 0);
    } else {
        assert(base.drop_last() =~= parent);
        assert(trim_tail(base) == trim_tail(parent));
    }
}

proof fn lemma_up_to_slash(base: Seq<char>, name: Seq<char>)
    requires
        base.len() > 0,
        base.last() == '/',
        !name.contains('/'),
    ensures
        up_to_slash(base + name) == base,
    decreases name.len(),
{
    if name.len() == 0 {
        assert(base + name =~= base);
    } else {
        assert(name.contains(name.last()));
        assert((base + name).last() == name.last());
        assert((base + name).drop_last() =~= base + name.drop_last());
        assert forall|c: char| name.drop_last().contains(c) implies name.contains(c) by {
            let i = choose|i: int| 0 <= i < name.drop_last().len() && name.drop_last()[i] == c;
            assert(name[i] == c);
        }
        lemma_up_to_slash(base, name.drop_last());
    }
}

} // verus!
