//! The patterns of an ignore file, which hide files of a directory.

use crate::paths;
use crate::text;
use vstd::prelude::*;

verus! {

/// The name of the file that holds the patterns.
pub const FSIGNORE_FILE: &'static str = ".fsignore";

/// `ignore::gitignore::Gitignore`, a set of compiled patterns.
#[verifier::external_type_specification]
#[verifier::external_body]
pub struct ExGitignore(ignore::gitignore::Gitignore);

/// `ignore::gitignore::GitignoreBuilder`, a set of patterns that is being put
/// together.
#[verifier::external_type_specification]
#[verifier::external_body]
pub struct ExGitignoreBuilder(ignore::gitignore::GitignoreBuilder);

/// The lines that were added to a builder, those that hold no pattern too.
pub uninterp spec fn builder_lines(builder: ignore::gitignore::GitignoreBuilder) -> Seq<Seq<char>>;

/// The directory that a builder was made for.
pub uninterp spec fn builder_root(builder: ignore::gitignore::GitignoreBuilder) -> Seq<char>;

/// The lines that a set of patterns was compiled from.
pub uninterp spec fn patterns(matcher: ignore::gitignore::Gitignore) -> Seq<Seq<char>>;

/// The directory that a set of patterns was compiled for.
pub uninterp spec fn matcher_root(matcher: ignore::gitignore::Gitignore) -> Seq<char>;

/// Whether the lines of an ignore file in the directory `root` hide the file or
/// directory at `path`, or one of the directories it lies in.
pub uninterp spec fn hides(
    root: Seq<char>,
    lines: Seq<Seq<char>>,
    path: Seq<char>,
    is_dir: bool,
) -> bool;

/// Whether the lines of an ignore file hold no pattern.
pub uninterp spec fn no_pattern(lines: Seq<Seq<char>>) -> bool;

/// A path at or below an absolute directory, with no doubled slash behind the
/// directory's own part.
pub open spec fn lies_under(root: Seq<char>, path: Seq<char>) -> bool {
    &&& root.len() > 0
    &&& root[0] == '/'
    &&& text::begins(path, root)
    &&& path.len() >= root.len() + 2 ==> path[root.len() as int] != '/' || path[(root.len()
        + 1) as int] != '/'
}

/// `GitignoreBuilder::new`: a builder for a directory, without lines.
#[verifier::external_body]
fn new_builder(root: &str) -> (r: ignore::gitignore::GitignoreBuilder)
    ensures
        builder_root(r) == root@,
        builder_lines(r) == Seq::<Seq<char>>::empty(),
{
    ignore::gitignore::GitignoreBuilder::new(root)
}

/// `GitignoreBuilder::add_line`: the line comes behind the others. One that cannot
/// be parsed counts as one without a pattern.
#[verifier::external_body]
fn add_line(builder: &mut ignore::gitignore::GitignoreBuilder, line: &str)
    ensures
        builder_root(*final(builder)) == builder_root(*old(builder)),
        builder_lines(*final(builder)) == builder_lines(*old(builder)).push(line@),
{
    let _ = builder.add_line(None, line);
}

/// `GitignoreBuilder::build`: the set is compiled from the lines, for the
/// directory. Where the lines cannot be compiled, it is `Gitignore::empty`, which
/// hides nothing.
#[verifier::external_body]
fn build(builder: &ignore::gitignore::GitignoreBuilder) -> (r: ignore::gitignore::Gitignore)
    ensures
        patterns(r) == builder_lines(*builder),
        matcher_root(r) == builder_root(*builder),
{
    builder.build().unwrap_or_else(|_| ignore::gitignore::Gitignore::empty())
}

/// `Gitignore::matched_path_or_any_parents`, asked whether the match ignores:
/// a function of the directory, the lines, the path and whether it is a
/// directory, under the name `hides`. Without a pattern nothing is hidden, and
/// without a line there is no pattern; with one, the path has to lie under the
/// directory.
#[verifier::external_body]
fn matched(matcher: &ignore::gitignore::Gitignore, path: &str, is_dir: bool) -> (r: bool)
    requires
        patterns(*matcher).len() == 0 || no_pattern(patterns(*matcher)) || lies_under(
            matcher_root(*matcher),
            path@,
        ),
    ensures
        r == hides(matcher_root(*matcher), patterns(*matcher), path@, is_dir),
        no_pattern(patterns(*matcher)) ==> !r,
        patterns(*matcher).len() == 0 ==> !r,
{
    matcher.matched_path_or_any_parents(path, is_dir).is_ignore()
}

/// `Gitignore::is_empty`: a function of the lines, under the name `no_pattern`. Where
/// there are no lines, there is no pattern.
#[verifier::external_body]
fn is_blank(matcher: &ignore::gitignore::Gitignore) -> (r: bool)
    ensures
        r == no_pattern(patterns(*matcher)),
        patterns(*matcher).len() == 0 ==> r,
{
    matcher.is_empty()
}

/// The patterns of the ignore file of one directory.
pub struct FsIgnore {
    root: String,
    matcher: ignore::gitignore::Gitignore,
}

/// What the patterns are: the directory and the lines.
pub struct IgnoreView {
    pub root: Seq<char>,
    pub lines: Seq<Seq<char>>,
}

impl View for FsIgnore {
    type V = IgnoreView;

    closed spec fn view(&self) -> IgnoreView {
        IgnoreView { root: self.root@, lines: patterns(self.matcher) }
    }
}

/// A line without the byte order marks it starts with.
pub open spec fn without_mark(line: Seq<char>) -> Seq<char>
    decreases line.len(),
{
    if line.len() > 0 && line[0] as u32 == 0xfeff {
        without_mark(line.drop_first())
    } else {
        line
    }
}

/// The lines of an ignore file: byte order marks at the very start do not
/// belong to the first one.
pub open spec fn pattern_lines(lines: Seq<Seq<char>>) -> Seq<Seq<char>> {
    if lines.len() == 0 {
        lines
    } else {
        lines.update(0, without_mark(lines[0]))
    }
}

/// Whether `path` is that of the ignore file of the directory `root`.
pub open spec fn is_own_file(root: Seq<char>, path: Seq<char>) -> bool {
    paths::without_dots(paths::parts(path)) == paths::without_dots(paths::parts(root)).push(
        FSIGNORE_FILE@,
    )
}

/// The verdict on a path, given whether the patterns hide it: the ignore file
/// itself is never hidden.
pub open spec fn verdict(root: Seq<char>, path: Seq<char>, hidden: bool) -> bool {
    hidden && !is_own_file(root, path)
}

/// Whether `path` lies under the directory `root`.
fn is_under(root: &str, path: &str) -> (r: bool)
    ensures
        r == lies_under(root@, path@),
{
    let a = text::chars_of(root);
    let b = text::chars_of(path);
    if a.len() == 0 || a[0] != '/' || !text::starts_with(path, root) {
        return false;
    }
    let n: usize = a.len();
    b.len() - n < 2 || b[n] != '/' || b[n + 1] != '/'
}

fn strip_mark(line: &str) -> (r: String)
    ensures
        r@ == without_mark(line@),
{
    let chars = text::chars_of(line);
    let mut i: usize = 0;
    assert(chars@.skip(0) =~= chars@);
    while i < chars.len() && chars[i] as u32 == 0xfeff
        invariant
            i <= chars@.len(),
            without_mark(chars@) == without_mark(chars@.skip(i as int)),
        decreases chars@.len() - i,
    {
        assert(chars@.skip(i as int).drop_first() =~= chars@.skip(i + 1));
        i = i + 1;
    }
    let n: usize = chars.len();
    assert(chars@.subrange(i as int, n as int) =~= chars@.skip(i as int));
    text::string_of(&chars, i, n)
}

/// Whether `path` is that of the ignore file of the directory `root`.
pub fn own_file(root: &str, path: &str) -> (r: bool)
    ensures
        r == is_own_file(root@, path@),
{
    let a = paths::drop_dots(&paths::split_parts(root));
    let b = paths::drop_dots(&paths::split_parts(path));
    let ghost av = text::views(a@);
    let ghost bv = text::views(b@);
    let ghost want = av.push(FSIGNORE_FILE@);
    assert(bv.len() == b@.len() && want.len() == a@.len() + 1);
    if b.len() == 0 || b.len() - 1 != a.len() {
        return false;
    }
    let n: usize = a.len();
    assert(bv[n as int] == b@[n as int]@);
    assert(want[n as int] == FSIGNORE_FILE@);
    if !text::same(b[n].as_str(), FSIGNORE_FILE) {
        return false;
    }
    let mut i: usize = 0;
    while i < n
        invariant
            i <= n == a@.len(),
            b@.len() == n + 1,
            av == text::views(a@),
            bv == text::views(b@),
            want == av.push(FSIGNORE_FILE@),
            forall|j: int| 0 <= j < i ==> av[j] == bv[j],
            is_own_file(root@, path@) == (bv == want),
        decreases n - i,
    {
        assert(av[i as int] == a@[i as int]@);
        assert(bv[i as int] == b@[i as int]@);
        assert(want[i as int] == av[i as int]);
        if !text::same(a[i].as_str(), b[i].as_str()) {
            return false;
        }
        i = i + 1;
    }
    assert(bv =~= want);
    true
}

/// The verdict on a path, given whether the patterns hide it.
pub fn judge(root: &str, path: &str, hidden: bool) -> (r: bool)
    ensures
        r == verdict(root@, path@, hidden),
{
    hidden && !own_file(root, path)
}

impl FsIgnore {
    #[verifier::type_invariant]
    spec fn same_root(self) -> bool {
        matcher_root(self.matcher) == self.root@
    }

    /// The patterns in the lines of the ignore file of `root`; without such a
    /// file there are no lines.
    pub fn load(root: &str, lines: Vec<String>) -> (r: Self)
        ensures
            r@ == (IgnoreView { root: root@, lines: pattern_lines(text::views(lines@)) }),
    {
        let mut all = lines;
        let ghost given = text::views(all@);
        if all.len() > 0 {
            let first = strip_mark(all[0].as_str());
            assert(given[0] == all@[0]@);
            all.set(0, first);
            assert(text::views(all@) =~= pattern_lines(given));
        }
        let ghost kept = text::views(all@);
        let mut builder = new_builder(root);
        let mut i: usize = 0;
        assert(kept.take(0) =~= Seq::<Seq<char>>::empty());
        while i < all.len()
            invariant
                i <= all@.len(),
                kept == text::views(all@),
                builder_root(builder) == root@,
                builder_lines(builder) == kept.take(i as int),
            decreases all@.len() - i,
        {
            add_line(&mut builder, all[i].as_str());
            assert(kept.take(i + 1) =~= kept.take(i as int).push(all@[i as int]@));
            i = i + 1;
        }
        assert(kept.take(i as int) =~= kept);
        FsIgnore { root: root.to_owned(), matcher: build(&builder) }
    }

    /// Whether the file or directory at the absolute path `path` is hidden. Where
    /// there is a pattern, the path has to lie under the directory of the patterns;
    /// where there is none, as without an ignore file, nothing is hidden.
    pub fn is_ignored(&self, path: &str, is_dir: bool) -> (r: bool)
        requires
            self@.lines.len() == 0 || no_pattern(self@.lines) || lies_under(self@.root, path@),
        ensures
            r == verdict(self@.root, path@, hides(self@.root, self@.lines, path@, is_dir)),
            no_pattern(self@.lines) ==> !r,
            self@.lines.len() == 0 ==> !r,
    {
        proof {
            use_type_invariant(self);
        }
        judge(self.root.as_str(), path, matched(&self.matcher, path, is_dir))
    }

    /// Whether the file or directory at `path` is hidden; nothing where there is a
    /// pattern and the path does not lie under the directory of the patterns.
    pub fn try_is_ignored(&self, path: &str, is_dir: bool) -> (r: Option<bool>)
        ensures
            self@.lines.len() == 0 ==> r == Some(false),
            r == if no_pattern(self@.lines) {
                Some(false)
            } else if lies_under(self@.root, path@) {
                Some(verdict(self@.root, path@, hides(self@.root, self@.lines, path@, is_dir)))
            } else {
                None
            },
    {
        if self.is_empty() || is_under(self.root.as_str(), path) {
            Some(self.is_ignored(path, is_dir))
        } else {
            None
        }
    }

    /// Whether there are no patterns, as without an ignore file.
    pub fn is_empty(&self) -> (r: bool)
        ensures
            r == no_pattern(self@.lines),
            self@.lines.len() == 0 ==> r,
    {
        is_blank(&self.matcher)
    }
}

/// The ignore file itself is never hidden, whatever the patterns say.
pub proof fn law_ignore_file_is_shown(root: Seq<char>, path: Seq<char>, hidden: bool)
    requires
        is_own_file(root, path),
    ensures
        !verdict(root, path, hidden),
{
}

} // verus!
