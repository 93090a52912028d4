//! File paths as sequences of components.
//!
//! A path is held in the parsed form that `std::path::Path::components` yields: an
//! optional prefix and root, then plain names. Two paths are the same when their
//! components are, whatever the case of their drive letter and whatever separators
//! stand between them. A path is still written out as it was given: each component
//! comes with the text in front of it.

use vstd::prelude::*;
use crate::order::chars_at_most;
use crate::text::{chars_of, same_chars, same_text, upper_char};

verus! {

/// One component of a path.
#[derive(Debug)]
pub enum Part {
    /// A drive or share, such as `C:`.
    Prefix(String),
    /// The root of the prefix, or of the file system.
    RootDir,
    /// The current folder, `.`.
    CurDir,
    /// The parent folder, `..`.
    ParentDir,
    /// A file or folder name.
    Normal(String),
}

/// The mathematical counterpart of [`Part`].
pub enum PartView {
    Prefix(Seq<char>),
    RootDir,
    CurDir,
    ParentDir,
    Normal(Seq<char>),
}

impl View for Part {
    type V = PartView;

    open spec fn view(&self) -> PartView {
        match self {
            Part::Prefix(s) => PartView::Prefix(s@),
            Part::RootDir => PartView::RootDir,
            Part::CurDir => PartView::CurDir,
            Part::ParentDir => PartView::ParentDir,
            Part::Normal(s) => PartView::Normal(s@),
        }
    }
}

/// A component with the text between it and the component before: separators mostly.
/// A root is written by that text alone.
#[derive(Debug)]
pub struct Piece {
    pub before: String,
    pub part: Part,
}

/// The mathematical counterpart of [`Piece`].
pub struct PieceView {
    pub before: Seq<char>,
    pub part: PartView,
}

impl View for Piece {
    type V = PieceView;

    open spec fn view(&self) -> PieceView {
        PieceView { before: self.before@, part: self.part@ }
    }
}

/// A path: its components as they were given, and the text behind the last one.
#[verifier::ext_equal]
pub struct PathView {
    pub pieces: Seq<PieceView>,
    pub tail: Seq<char>,
}

/// The text of components with what stands in front of each.
pub open spec fn text_of(pieces: Seq<PieceView>) -> Seq<char>
    decreases pieces.len(),
{
    if pieces.len() == 0 {
        Seq::empty()
    } else {
        text_of(pieces.drop_last()) + pieces.last().before + pieces.last().part.shown()
    }
}

/// A character that separates components.
pub open spec fn is_separator(c: char) -> bool {
    c == '\\' || c == '/'
}

/// A drive such as `C:`.
pub open spec fn is_drive(s: Seq<char>) -> bool {
    s.len() == 2 && s[1] == ':'
}

/// How far into a text another one occurs first; beyond its end where it does not.
pub open spec fn offset_of(part: Seq<char>, s: Seq<char>) -> int
    decreases s.len(),
{
    if part.is_prefix_of(s) {
        0
    } else if s.len() == 0 {
        1
    } else {
        1 + offset_of(part, s.drop_first())
    }
}

/// How much of a text stands in front of a component; more than there is where the
/// component does not occur in it. A root takes one separator, where there is one.
pub open spec fn gap_before(part: PartView, s: Seq<char>) -> int {
    if part is RootDir {
        if s.len() > 0 && is_separator(s[0]) {
            1
        } else {
            0
        }
    } else {
        offset_of(part.shown(), s)
    }
}

impl PathView {
    /// The path with no components.
    pub open spec fn empty() -> PathView {
        PathView { pieces: Seq::empty(), tail: Seq::empty() }
    }

    /// The path `.`.
    pub open spec fn current_dir() -> PathView {
        PathView {
            pieces: seq![PieceView { before: Seq::empty(), part: PartView::CurDir }],
            tail: Seq::empty(),
        }
    }

    /// The root folder of a drive.
    pub open spec fn drive_root(prefix: Seq<char>) -> PathView {
        PathView {
            pieces: seq![
                PieceView { before: Seq::empty(), part: PartView::Prefix(prefix) },
                PieceView { before: "\\"@, part: PartView::RootDir },
            ],
            tail: Seq::empty(),
        }
    }

    /// What the path is compared by: its components, drive letters in upper case.
    pub open spec fn parts(self) -> Seq<PartView> {
        Seq::new(self.pieces.len(), |i: int| self.pieces[i].part.folded())
    }

    /// The path written out as it was given.
    pub open spec fn text(self) -> Seq<char> {
        text_of(self.pieces) + self.tail
    }

    /// The path names the same file.
    pub open spec fn same(self, other: PathView) -> bool {
        self.parts() == other.parts()
    }

    /// A name can be written right behind the path.
    pub open spec fn takes_name(self) -> bool {
        ||| self.text().len() == 0
        ||| is_separator(self.text().last())
        ||| self.is_bare_drive()
    }

    /// The path is a drive without its root.
    pub open spec fn is_bare_drive(self) -> bool {
        &&& self.pieces.len() == 1
        &&& self.tail.len() == 0
        &&& match self.pieces[0].part {
            PartView::Prefix(s) => is_drive(s),
            _ => false,
        }
    }

    /// The path with one more name, behind a backslash where a separator is missing.
    pub open spec fn joined(self, name: Seq<char>) -> PathView {
        PathView {
            pieces: self.pieces.push(
                PieceView {
                    before: if self.takes_name() {
                        self.tail
                    } else {
                        self.tail + "\\"@
                    },
                    part: PartView::Normal(name),
                },
            ),
            tail: Seq::empty(),
        }
    }

    /// The path without its last component and the text around that.
    pub open spec fn up(self) -> PathView {
        PathView { pieces: self.pieces.drop_last(), tail: Seq::empty() }
    }

    /// A component is found in the text behind the last one.
    pub open spec fn finds(self, part: PartView) -> bool {
        gap_before(part, self.tail) + part.shown().len() <= self.tail.len()
    }

    /// The path with one more component. Where its text occurs behind the last one, it
    /// is that text, with what stands in front of it.
    pub open spec fn extended(self, part: PartView) -> PathView {
        let gap = gap_before(part, self.tail);
        if self.finds(part) {
            PathView {
                pieces: self.pieces.push(PieceView { before: self.tail.take(gap), part }),
                tail: self.tail.skip(gap + part.shown().len()),
            }
        } else {
            PathView {
                pieces: self.pieces.push(PieceView { before: Seq::empty(), part }),
                tail: self.tail,
            }
        }
    }

    /// The path of a text and the components that it was parsed into.
    pub open spec fn given(text: Seq<char>, parts: Seq<PartView>) -> PathView
        decreases parts.len(),
    {
        if parts.len() == 0 {
            PathView { pieces: Seq::empty(), tail: text }
        } else {
            PathView::given(text, parts.drop_last()).extended(parts.last())
        }
    }
}

/// All components are found in a text, one behind the other.
pub open spec fn all_found(text: Seq<char>, parts: Seq<PartView>) -> bool
    decreases parts.len(),
{
    parts.len() == 0 || (all_found(text, parts.drop_last()) && PathView::given(
        text,
        parts.drop_last(),
    ).finds(parts.last()))
}

/// A path has the components that it was given, and the text, where its components are
/// found there.
pub proof fn given_is_kept(text: Seq<char>, parts: Seq<PartView>)
    ensures
        PathView::given(text, parts).parts() == Seq::new(
            parts.len(),
            |i: int| parts[i].folded(),
        ),
        all_found(text, parts) ==> PathView::given(text, parts).text() == text,
    decreases parts.len(),
{
    if parts.len() > 0 {
        let front = PathView::given(text, parts.drop_last());
        let part = parts.last();
        let whole = front.extended(part);
        given_is_kept(text, parts.drop_last());
        assert(front.parts().len() == parts.len() - 1);
        assert(front.pieces.len() == parts.len() - 1);
        assert(whole.pieces.drop_last() =~= front.pieces);
        assert(whole.parts() =~= Seq::new(parts.len(), |i: int| parts[i].folded())) by {
            assert forall|i: int| 0 <= i < parts.len() implies whole.parts()[i]
                == parts[i].folded() by {
                if i < parts.len() - 1 {
                    assert(whole.pieces[i] == front.pieces[i]);
                    assert(front.parts()[i] == parts.drop_last()[i].folded());
                }
            }
        }
        if all_found(text, parts) {
            let gap = gap_before(part, front.tail);
            offset_is_found(part.shown(), front.tail);
            let own = front.tail.subrange(gap, gap + part.shown().len());
            assert(own =~= part.shown());
            assert(front.tail =~= front.tail.take(gap) + own + front.tail.skip(
                gap + part.shown().len(),
            ));
            assert(whole.text() =~= front.text());
        }
    } else {
        assert(PathView::given(text, parts).parts() =~= Seq::new(
            parts.len(),
            |i: int| parts[i].folded(),
        ));
        assert(text_of(Seq::empty()) + text =~= text);
    }
}

proof fn offset_is_found(part: Seq<char>, s: Seq<char>)
    ensures
        0 <= offset_of(part, s),
        offset_of(part, s) + part.len() <= s.len() ==> s.subrange(
            offset_of(part, s),
            offset_of(part, s) + part.len(),
        ) == part,
    decreases s.len(),
{
    if part.is_prefix_of(s) {
        assert(s.subrange(0, part.len() as int) =~= part);
    } else if s.len() > 0 {
        let t = s.drop_first();
        offset_is_found(part, t);
        let at = offset_of(part, t);
        if at + part.len() <= t.len() {
            assert(s.subrange(at + 1, at + 1 + part.len()) =~= t.subrange(at, at + part.len()));
        }
    }
}

/// A joined name is the last component, and is written behind the path.
pub proof fn joined_law(p: PathView, name: Seq<char>)
    ensures
        p.joined(name).parts() == p.parts().push(PartView::Normal(name)),
        p.joined(name).text() == if p.takes_name() {
            p.text() + name
        } else {
            p.text() + "\\"@ + name
        },
        p.joined(name).up().parts() == p.parts(),
        p.joined(name).up().text() + p.tail == p.text(),
{
    let j = p.joined(name);
    assert(j.pieces.drop_last() =~= p.pieces);
    assert(j.parts() =~= p.parts().push(PartView::Normal(name)));
    assert(j.up().parts() =~= p.parts());
    assert(j.text() =~= if p.takes_name() {
        p.text() + name
    } else {
        p.text() + "\\"@ + name
    });
    assert(j.up().text() =~= text_of(p.pieces));
}

/// What is left of a path above it is the beginning of its components and of its text.
pub proof fn up_law(p: PathView)
    requires
        p.pieces.len() > 0,
    ensures
        p.up().parts() == p.parts().drop_last(),
        p.up().text().is_prefix_of(p.text()),
{
    assert(p.up().parts() =~= p.parts().drop_last());
    let n = p.up().text().len() as int;
    assert(p.up().text() =~= text_of(p.pieces.drop_last()));
    assert(p.text().subrange(0, n) =~= p.up().text());
}

/// A prefix with its drive letter, where it is a drive such as `c:` or `\\?\c:`, in
/// upper case.
pub open spec fn drive_folded(s: Seq<char>) -> Seq<char> {
    if s.len() == 2 && s[1] == ':' {
        s.update(0, crate::text::upper(s[0]))
    } else if s.len() == 6 && s.take(4) == seq!['\\', '\\', '?', '\\'] && s[5] == ':' {
        s.update(4, crate::text::upper(s[4]))
    } else {
        s
    }
}

/// Folding a prefix twice folds it no further, so a drive is the same under either
/// case of its letter.
pub proof fn drive_case_is_no_matter(s: Seq<char>)
    ensures
        drive_folded(drive_folded(s)) == drive_folded(s),
{
    let t = drive_folded(s);
    if s.len() == 2 && s[1] == ':' {
        assert(drive_folded(t) =~= t);
    } else if s.len() == 6 && s.take(4) == seq!['\\', '\\', '?', '\\'] && s[5] == ':' {
        assert(t.take(4) =~= s.take(4));
        assert(drive_folded(t) =~= t);
    }
}

fn folded_chars(s: &str) -> (r: Vec<char>)
    ensures
        r@ == drive_folded(s@),
{
    let mut x: Vec<char> = chars_of(s);
    if x.len() == 2 {
        if x[1] == ':' {
            let letter = upper_char(x[0]);
            x.set(0, letter);
        }
    } else if x.len() == 6 {
        let verbatim: bool = x[0] == '\\' && x[1] == '\\' && x[2] == '?' && x[3] == '\\';
        assert(verbatim == (s@.take(4) =~= seq!['\\', '\\', '?', '\\'])) by {
            let t = s@.take(4);
            assert(t[0] == x@[0] && t[1] == x@[1] && t[2] == x@[2] && t[3] == x@[3]);
        }
        if verbatim && x[5] == ':' {
            let letter = upper_char(x[4]);
            x.set(4, letter);
        }
    }
    x
}

impl PartView {
    /// Where the kind of component stands in the order of paths.
    pub open spec fn rank(self) -> int {
        match self {
            PartView::Prefix(_) => 0,
            PartView::RootDir => 1,
            PartView::CurDir => 2,
            PartView::ParentDir => 3,
            PartView::Normal(_) => 4,
        }
    }

    /// The component with its drive letter, if it is a drive, in upper case.
    pub open spec fn folded(self) -> PartView {
        match self {
            PartView::Prefix(s) => PartView::Prefix(drive_folded(s)),
            _ => self,
        }
    }

    /// The text that a component itself is written with.
    pub open spec fn shown(self) -> Seq<char> {
        match self {
            PartView::Prefix(s) => s,
            PartView::RootDir => Seq::empty(),
            PartView::CurDir => "."@,
            PartView::ParentDir => ".."@,
            PartView::Normal(s) => s,
        }
    }

    /// The order of components: by kind, then by text.
    pub open spec fn le(self, other: PartView) -> bool {
        if self.rank() == other.rank() {
            crate::order::chars_le(self.shown(), other.shown())
        } else {
            self.rank() < other.rank()
        }
    }
}

/// The order of paths: component by component from the left.
pub open spec fn path_le(a: Seq<PartView>, b: Seq<PartView>) -> bool
    decreases a.len(),
{
    if a.len() == 0 {
        true
    } else if b.len() == 0 {
        false
    } else if a[0] == b[0] {
        path_le(a.drop_first(), b.drop_first())
    } else {
        a[0].le(b[0])
    }
}

/// The position of the last full stop of a name, or -1.
pub open spec fn last_dot(name: Seq<char>) -> int
    decreases name.len(),
{
    if name.len() == 0 {
        -1
    } else if name.last() == '.' {
        name.len() - 1
    } else {
        last_dot(name.drop_last())
    }
}

/// The last component of a path, where it is a name.
pub open spec fn name_of(p: Seq<PartView>) -> Option<Seq<char>> {
    if p.len() == 0 {
        None
    } else {
        match p.last() {
            PartView::Normal(s) => Some(s),
            _ => None,
        }
    }
}

/// The name without its extension. A leading full stop starts no extension.
pub open spec fn stem_of(p: Seq<PartView>) -> Option<Seq<char>> {
    match name_of(p) {
        Some(n) => Some(if last_dot(n) <= 0 { n } else { n.take(last_dot(n)) }),
        None => None,
    }
}

/// What follows the last full stop of the name. A leading full stop starts no extension.
pub open spec fn extension_of(p: Seq<PartView>) -> Option<Seq<char>> {
    match name_of(p) {
        Some(n) => if last_dot(n) <= 0 { None } else { Some(n.skip(last_dot(n) + 1)) },
        None => None,
    }
}

/// A path ends in a component that can be taken away.
pub open spec fn has_parent(p: Seq<PartView>) -> bool {
    p.len() > 0 && p.last() !is Prefix && p.last() !is RootDir
}

/// The path without its last component; none where it ends in a root or prefix, or is empty.
pub open spec fn parent_of(p: PathView) -> Option<PathView> {
    if has_parent(p.parts()) {
        Some(p.up())
    } else {
        None
    }
}

proof fn part_le_laws(a: PartView, b: PartView, c: PartView)
    ensures
        a.le(a),
        a.le(b) || b.le(a),
        a.le(b) && b.le(a) ==> a == b,
        a.le(b) && b.le(c) ==> a.le(c),
{
    crate::order::chars_le_reflexive(a.shown());
    crate::order::chars_le_total(a.shown(), b.shown());
    if crate::order::chars_le(a.shown(), b.shown()) && crate::order::chars_le(b.shown(), a.shown()) {
        crate::order::chars_le_antisymmetric(a.shown(), b.shown());
    }
    if crate::order::chars_le(a.shown(), b.shown()) && crate::order::chars_le(b.shown(), c.shown()) {
        crate::order::chars_le_transitive(a.shown(), b.shown(), c.shown());
    }
}

/// The order of paths is reflexive.
pub proof fn path_le_reflexive(a: Seq<PartView>)
    ensures
        path_le(a, a),
    decreases a.len(),
{
    if a.len() > 0 {
        path_le_reflexive(a.drop_first());
    }
}

/// Of two paths, one comes before the other or equals it.
pub proof fn path_le_total(a: Seq<PartView>, b: Seq<PartView>)
    ensures
        path_le(a, b) || path_le(b, a),
    decreases a.len(),
{
    if a.len() > 0 && b.len() > 0 {
        if a[0] == b[0] {
            path_le_total(a.drop_first(), b.drop_first());
        } else {
            part_le_laws(a[0], b[0], a[0]);
        }
    }
}

/// Paths that come before each other are equal.
pub proof fn path_le_antisymmetric(a: Seq<PartView>, b: Seq<PartView>)
    requires
        path_le(a, b),
        path_le(b, a),
    ensures
        a == b,
    decreases a.len(),
{
    if a.len() > 0 && b.len() > 0 {
        if a[0] == b[0] {
            path_le_antisymmetric(a.drop_first(), b.drop_first());
            assert(a =~= seq![a[0]] + a.drop_first());
            assert(b =~= seq![b[0]] + b.drop_first());
        } else {
            part_le_laws(a[0], b[0], a[0]);
        }
    } else {
        assert(a =~= b);
    }
}

/// The order of paths is transitive.
pub proof fn path_le_transitive(a: Seq<PartView>, b: Seq<PartView>, c: Seq<PartView>)
    requires
        path_le(a, b),
        path_le(b, c),
    ensures
        path_le(a, c),
    decreases a.len(),
{
    if a.len() > 0 && b.len() > 0 && c.len() > 0 {
        if a[0] == b[0] && b[0] == c[0] {
            path_le_transitive(a.drop_first(), b.drop_first(), c.drop_first());
        } else {
            part_le_laws(a[0], b[0], c[0]);
            part_le_laws(b[0], c[0], a[0]);
            part_le_laws(c[0], a[0], b[0]);
        }
    }
}

impl Clone for Part {
    fn clone(&self) -> (r: Self)
        ensures
            r@ == self@,
    {
        match self {
            Part::Prefix(s) => Part::Prefix(s.clone()),
            Part::RootDir => Part::RootDir,
            Part::CurDir => Part::CurDir,
            Part::ParentDir => Part::ParentDir,
            Part::Normal(s) => Part::Normal(s.clone()),
        }
    }
}

impl Part {
    /// Compares two components.
    pub fn same(&self, other: &Part) -> (r: bool)
        ensures
            r == (self@.folded() == other@.folded()),
    {
        match (self, other) {
            (Part::Prefix(a), Part::Prefix(b)) => same_chars(
                &folded_chars(a.as_str()),
                &folded_chars(b.as_str()),
            ),
            (Part::RootDir, Part::RootDir) => true,
            (Part::CurDir, Part::CurDir) => true,
            (Part::ParentDir, Part::ParentDir) => true,
            (Part::Normal(a), Part::Normal(b)) => same_text(a.as_str(), b.as_str()),
            _ => false,
        }
    }

    fn rank_number(&self) -> (r: u8)
        ensures
            r as int == self@.rank(),
    {
        match self {
            Part::Prefix(_) => 0,
            Part::RootDir => 1,
            Part::CurDir => 2,
            Part::ParentDir => 3,
            Part::Normal(_) => 4,
        }
    }

    fn shown_text(&self) -> (r: &str)
        ensures
            r@ == self@.shown(),
    {
        proof {
            reveal_strlit("");
        }
        match self {
            Part::Prefix(s) => s.as_str(),
            Part::RootDir => {
                assert(""@ =~= Seq::<char>::empty());
                ""
            },
            Part::CurDir => ".",
            Part::ParentDir => "..",
            Part::Normal(s) => s.as_str(),
        }
    }

    fn order_chars(&self) -> (r: Vec<char>)
        ensures
            r@ == self@.folded().shown(),
    {
        match self {
            Part::Prefix(s) => folded_chars(s.as_str()),
            _ => chars_of(self.shown_text()),
        }
    }

    fn at_most(&self, other: &Part) -> (r: bool)
        ensures
            r == self@.folded().le(other@.folded()),
    {
        if self.rank_number() == other.rank_number() {
            chars_at_most(&self.order_chars(), &other.order_chars())
        } else {
            self.rank_number() < other.rank_number()
        }
    }
}

impl Clone for Piece {
    fn clone(&self) -> (r: Self)
        ensures
            r@ == self@,
    {
        Piece { before: self.before.clone(), part: self.part.clone() }
    }
}

/// A path, as the list of its components and the text behind them.
#[derive(Debug)]
pub struct FilePath {
    pub pieces: Vec<Piece>,
    pub tail: String,
}

impl View for FilePath {
    type V = PathView;

    open spec fn view(&self) -> PathView {
        PathView {
            pieces: Seq::new(self.pieces@.len(), |i: int| self.pieces@[i]@),
            tail: self.tail@,
        }
    }
}

impl Clone for FilePath {
    fn clone(&self) -> (r: Self)
        ensures
            r@ == self@,
    {
        let mut pieces: Vec<Piece> = Vec::new();
        let mut i: usize = 0;
        while i < self.pieces.len()
            invariant
                i <= self.pieces.len(),
                pieces.len() == i,
                forall|j: int| 0 <= j < i ==> (#[trigger] pieces@[j])@ == self.pieces@[j]@,
            decreases self.pieces.len() - i,
        {
            pieces.push(self.pieces[i].clone());
            i += 1;
        }
        let r = FilePath { pieces, tail: self.tail.clone() };
        assert(r@ =~= self@);
        r
    }
}

impl PartialEq for FilePath {
    fn eq(&self, other: &FilePath) -> (r: bool) {
        self.same(other)
    }
}

impl vstd::std_specs::cmp::PartialEqSpecImpl for FilePath {
    open spec fn obeys_eq_spec() -> bool {
        true
    }

    open spec fn eq_spec(&self, other: &FilePath) -> bool {
        self@.same(other@)
    }
}

fn is_separator_char(c: char) -> (r: bool)
    ensures
        r == is_separator(c),
{
    c == '\\' || c == '/'
}

fn find_offset(part: &Vec<char>, s: &Vec<char>, from: usize) -> (r: Option<usize>)
    requires
        from <= s.len(),
    ensures
        r matches Some(at) ==> {
            &&& at == offset_of(part@, s@.skip(from as int))
            &&& from + at + part.len() <= s.len()
        },
        r is None ==> offset_of(part@, s@.skip(from as int)) + part.len() > s.len() - from,
{
    let ghost whole = s@.skip(from as int);
    proof {
        offset_is_found(part@, whole);
    }
    if part.len() > s.len() - from {
        return None;
    }
    let room: usize = s.len() - from - part.len();
    let mut at: usize = 0;
    assert(s@.skip(from + 0) =~= whole);
    loop
        invariant
            from <= s.len(),
            part.len() + room == s.len() - from,
            whole == s@.skip(from as int),
            at <= room,
            offset_of(part@, whole) == at + offset_of(part@, s@.skip(from + at)),
        decreases room - at,
    {
        let ghost rest = s@.skip(from + at);
        let mut k: usize = 0;
        while k < part.len() && s[from + at + k] == part[k]
            invariant
                from + at + part.len() <= s.len(),
                rest == s@.skip(from + at),
                k <= part.len(),
                forall|j: int| 0 <= j < k ==> rest[j] == #[trigger] part@[j],
            decreases part.len() - k,
        {
            k += 1;
        }
        if k == part.len() {
            assert(rest.subrange(0, part@.len() as int) =~= part@);
            return Some(at);
        }
        assert(!part@.is_prefix_of(rest)) by {
            assert(rest[k as int] != part@[k as int]);
            assert(part@.is_prefix_of(rest) ==> rest.subrange(0, part@.len() as int)[k as int]
                == part@[k as int]);
        }
        assert(rest.len() > 0);
        assert(rest.drop_first() =~= s@.skip(from + at + 1));
        if at == room {
            proof {
                offset_is_found(part@, rest.drop_first());
            }
            return None;
        }
        at += 1;
    }
}

impl FilePath {
    /// The path with no components.
    pub fn empty() -> (r: FilePath)
        ensures
            r@ == PathView::empty(),
    {
        let r = FilePath { pieces: Vec::new(), tail: String::new() };
        assert(r@ =~= PathView::empty());
        r
    }

    /// The path `.`.
    pub fn current_dir() -> (r: FilePath)
        ensures
            r@ == PathView::current_dir(),
    {
        let mut pieces: Vec<Piece> = Vec::new();
        pieces.push(Piece { before: String::new(), part: Part::CurDir });
        let r = FilePath { pieces, tail: String::new() };
        assert(r@.pieces[0].before =~= Seq::empty());
        assert(r@ =~= PathView::current_dir());
        r
    }

    /// The root folder of a drive, such as `C:\`.
    pub fn drive_root(prefix: String) -> (r: FilePath)
        ensures
            r@ == PathView::drive_root(prefix@),
    {
        let ghost text = prefix@;
        let mut pieces: Vec<Piece> = Vec::new();
        pieces.push(Piece { before: String::new(), part: Part::Prefix(prefix) });
        pieces.push(Piece { before: "\\".to_owned(), part: Part::RootDir });
        let r = FilePath { pieces, tail: String::new() };
        assert(r@.pieces[0].before =~= Seq::empty());
        assert(r@ =~= PathView::drive_root(text));
        r
    }

    /// The path of a text and the components that it was parsed into.
    pub fn given(text: &str, parts: Vec<Part>) -> (r: FilePath)
        ensures
            r@ == PathView::given(text@, crate::sort::views(parts@)),
    {
        let ghost all = crate::sort::views(parts@);
        let x: Vec<char> = chars_of(text);
        let mut pieces: Vec<Piece> = Vec::new();
        let mut at: usize = 0;
        let ghost mut done: PathView = PathView { pieces: Seq::empty(), tail: text@ };
        assert(all.take(0) =~= Seq::empty());
        assert(text@.skip(0) =~= text@);
        assert(Seq::new(pieces@.len(), |i: int| pieces@[i]@) =~= done.pieces);
        for part in it: parts
            invariant
                all == crate::sort::views(it.seq()),
                x@ == text@,
                at <= x.len(),
                done == PathView::given(text@, all.take(it.index())),
                done.tail == text@.skip(at as int),
                done.pieces == Seq::new(pieces@.len(), |i: int| pieces@[i]@),
        {
            let ghost i = it.index();
            let ghost pv = part@;
            let ghost kept = pieces@;
            assert(all[i] == pv);
            assert(all.take(i + 1).drop_last() =~= all.take(i));
            assert(all.take(i + 1).last() == pv);
            let own: Vec<char> = chars_of(part.shown_text());
            let gap: Option<usize> = match &part {
                Part::RootDir => if at < x.len() && is_separator_char(x[at]) {
                    Some(1)
                } else {
                    Some(0)
                },
                _ => find_offset(&own, &x, at),
            };
            proof {
                offset_is_found(own@, done.tail);
            }
            match gap {
                Some(g) => {
                    let before: String = text.substring_char(at, at + g).to_owned();
                    assert(before@ =~= done.tail.take(g as int));
                    assert(done.tail.skip(g + own@.len()) =~= text@.skip(at + g + own@.len()));
                    at = at + g + own.len();
                    pieces.push(Piece { before, part });
                },
                None => {
                    let before: String = String::new();
                    assert(before@ =~= Seq::empty());
                    pieces.push(Piece { before, part });
                },
            }
            proof {
                let next = done.extended(pv);
                assert(next.pieces =~= Seq::new(pieces@.len(), |i: int| pieces@[i]@));
                done = next;
            }
        }
        assert(all.take(all.len() as int) =~= all);
        let tail: String = text.substring_char(at, x.len()).to_owned();
        assert(tail@ =~= text@.skip(at as int));
        FilePath { pieces, tail }
    }

    /// Whether the path has no components.
    pub fn is_empty(&self) -> (r: bool)
        ensures
            r == (self@.parts().len() == 0),
    {
        self.pieces.len() == 0
    }

    fn takes_name(&self) -> (r: bool)
        ensures
            r == self@.takes_name(),
    {
        if self.pieces.len() == 1 && self.tail.as_str().unicode_len() == 0 {
            assert(self@.pieces[0] == self.pieces@[0]@);
            match &self.pieces[0].part {
                Part::Prefix(s) => {
                    let x: Vec<char> = chars_of(s.as_str());
                    if x.len() == 2 && x[1] == ':' {
                        return true;
                    }
                },
                _ => {},
            }
        }
        let x: Vec<char> = chars_of(self.display().as_str());
        x.len() == 0 || is_separator_char(x[x.len() - 1])
    }

    /// The path with one more name behind it.
    pub fn join(&self, name: &str) -> (r: FilePath)
        ensures
            r@ == self@.joined(name@),
    {
        let FilePath { pieces, tail } = self.clone();
        let mut pieces: Vec<Piece> = pieces;
        let mut before: String = tail;
        let ghost kept = pieces@;
        if !self.takes_name() {
            before.append("\\");
        }
        pieces.push(Piece { before, part: Part::Normal(name.to_owned()) });
        let r = FilePath { pieces, tail: String::new() };
        assert(r@ =~= self@.joined(name@));
        r
    }

    /// Compares two paths by their components.
    pub fn same(&self, other: &FilePath) -> (r: bool)
        ensures
            r == self@.same(other@),
    {
        let ghost p = self@.parts();
        let ghost q = other@.parts();
        if self.pieces.len() != other.pieces.len() {
            assert(p.len() != q.len());
            return false;
        }
        let mut i: usize = 0;
        while i < self.pieces.len()
            invariant
                p == self@.parts(),
                q == other@.parts(),
                self.pieces.len() == other.pieces.len(),
                i <= self.pieces.len(),
                forall|j: int| 0 <= j < i ==> (#[trigger] p[j]) == q[j],
            decreases self.pieces.len() - i,
        {
            if !self.pieces[i].part.same(&other.pieces[i].part) {
                assert(p[i as int] != q[i as int]);
                return false;
            }
            i += 1;
        }
        assert(p =~= q);
        true
    }

    /// Whether the path starts with the components of `base`.
    pub fn starts_with(&self, base: &FilePath) -> (r: bool)
        ensures
            r == base@.parts().is_prefix_of(self@.parts()),
    {
        let ghost p = self@.parts();
        let ghost b = base@.parts();
        if base.pieces.len() > self.pieces.len() {
            return false;
        }
        let mut i: usize = 0;
        while i < base.pieces.len()
            invariant
                p == self@.parts(),
                b == base@.parts(),
                base.pieces.len() <= self.pieces.len(),
                i <= base.pieces.len(),
                forall|j: int| 0 <= j < i ==> (#[trigger] p[j]) == b[j],
            decreases base.pieces.len() - i,
        {
            if !self.pieces[i].part.same(&base.pieces[i].part) {
                assert(p.subrange(0, b.len() as int)[i as int] == p[i as int]);
                return false;
            }
            i += 1;
        }
        assert(b =~= p.subrange(0, b.len() as int));
        true
    }

    /// Whether the path comes before `other`, or equals it.
    pub fn at_most(&self, other: &FilePath) -> (r: bool)
        ensures
            r == path_le(self@.parts(), other@.parts()),
    {
        let ghost a = self@.parts();
        let ghost b = other@.parts();
        let mut i: usize = 0;
        assert(a.skip(0) =~= a && b.skip(0) =~= b);
        while i < self.pieces.len() && i < other.pieces.len()
            invariant
                a == self@.parts(),
                b == other@.parts(),
                i <= self.pieces.len(),
                i <= other.pieces.len(),
                path_le(a, b) == path_le(a.skip(i as int), b.skip(i as int)),
            decreases self.pieces.len() - i,
        {
            let ghost p = a.skip(i as int);
            let ghost q = b.skip(i as int);
            assert(p[0] == self.pieces@[i as int].part@.folded());
            assert(q[0] == other.pieces@[i as int].part@.folded());
            if !self.pieces[i].part.same(&other.pieces[i].part) {
                return self.pieces[i].part.at_most(&other.pieces[i].part);
            }
            assert(p.drop_first() =~= a.skip(i + 1));
            assert(q.drop_first() =~= b.skip(i + 1));
            i += 1;
        }
        i == self.pieces.len()
    }

    /// The final name of the path, where it ends in one.
    pub fn file_name(&self) -> (r: Option<&str>)
        ensures
            r.is_some() == name_of(self@.parts()).is_some(),
            r matches Some(s) ==> name_of(self@.parts()) == Some(s@),
    {
        if self.pieces.len() == 0 {
            return None;
        }
        let last = self.pieces.len() - 1;
        assert(self@.parts().last() == self.pieces@[last as int].part@.folded());
        match &self.pieces[last].part {
            Part::Normal(s) => Some(s.as_str()),
            _ => None,
        }
    }

    /// The final name without its extension.
    pub fn file_stem(&self) -> (r: Option<String>)
        ensures
            r.is_some() == stem_of(self@.parts()).is_some(),
            r matches Some(s) ==> stem_of(self@.parts()) == Some(s@),
    {
        match self.file_name() {
            None => None,
            Some(n) => match find_last_dot(n) {
                Some(d) => if d == 0 {
                    Some(n.to_owned())
                } else {
                    Some(n.substring_char(0, d).to_owned())
                },
                None => Some(n.to_owned()),
            },
        }
    }

    /// The extension of the final name.
    pub fn extension(&self) -> (r: Option<String>)
        ensures
            r.is_some() == extension_of(self@.parts()).is_some(),
            r matches Some(s) ==> extension_of(self@.parts()) == Some(s@),
    {
        match self.file_name() {
            None => None,
            Some(n) => match find_last_dot(n) {
                Some(d) => if d == 0 {
                    None
                } else {
                    let len = n.unicode_len();
                    assert(n@.subrange(d + 1, len as int) =~= n@.skip(d + 1));
                    Some(n.substring_char(d + 1, len).to_owned())
                },
                None => None,
            },
        }
    }

    /// The path without its last component.
    pub fn parent(&self) -> (r: Option<FilePath>)
        ensures
            r.is_some() == parent_of(self@).is_some(),
            r matches Some(p) ==> Some(p@) == parent_of(self@),
    {
        if self.pieces.len() == 0 {
            return None;
        }
        let last = self.pieces.len() - 1;
        assert(self@.parts().last() == self.pieces@[last as int].part@.folded());
        match &self.pieces[last].part {
            Part::Prefix(_) => None,
            Part::RootDir => None,
            _ => {
                let FilePath { pieces, tail: _ } = self.clone();
                let mut pieces: Vec<Piece> = pieces;
                let dropped = pieces.pop();
                let r = FilePath { pieces, tail: String::new() };
                assert(r@ =~= self@.up());
                Some(r)
            },
        }
    }

    /// The path written out as it was given.
    pub fn display(&self) -> (r: String)
        ensures
            r@ == self@.text(),
    {
        let mut out: String = self.text_from(0);
        assert(self@.pieces.skip(0) =~= self@.pieces);
        out.append(self.tail.as_str());
        out
    }

    /// The text of the components from a position on, with what stands in front of each.
    pub(crate) fn text_from(&self, start: usize) -> (r: String)
        requires
            start <= self.pieces.len(),
        ensures
            r@ == text_of(self@.pieces.skip(start as int)),
    {
        let ghost all = self@.pieces.skip(start as int);
        let mut out: String = String::new();
        let mut i: usize = start;
        assert(all.take(0) =~= Seq::empty());
        assert(out@ =~= text_of(all.take(0)));
        while i < self.pieces.len()
            invariant
                start <= i <= self.pieces.len(),
                all == self@.pieces.skip(start as int),
                out@ == text_of(all.take(i - start)),
            decreases self.pieces.len() - i,
        {
            let ghost longer = all.take(i - start + 1);
            assert(longer.drop_last() =~= all.take(i - start));
            assert(longer.last() == self.pieces@[i as int]@);
            out.append(self.pieces[i].before.as_str());
            out.append(self.pieces[i].part.shown_text());
            i += 1;
        }
        assert(all.take(all.len() as int) =~= all);
        out
    }
}

fn find_last_dot(name: &str) -> (r: Option<usize>)
    ensures
        r matches Some(d) ==> d < name@.len() && last_dot(name@) == d,
        r is None ==> last_dot(name@) == -1,
{
    let x: Vec<char> = chars_of(name);
    let mut i: usize = x.len();
    assert(name@.take(name@.len() as int) =~= name@);
    while i > 0
        invariant
            x@ == name@,
            i <= x.len(),
            last_dot(name@) == last_dot(name@.take(i as int)),
        decreases i,
    {
        let ghost t = name@.take(i as int);
        assert(t.last() == x@[i - 1]);
        assert(t.drop_last() =~= name@.take(i - 1));
        if x[i - 1] == '.' {
            return Some(i - 1);
        }
        i -= 1;
    }
    None
}

/// The first component in which two paths differ decides their order; a path comes before
/// those below it.
pub proof fn first_component_decides(a: Seq<PartView>, b: Seq<PartView>, k: int)
    requires
        0 <= k <= a.len(),
        k <= b.len(),
        a.take(k) == b.take(k),
    ensures
        k < a.len() && k < b.len() && a[k] != b[k] ==> (path_le(a, b) <==> a[k].le(b[k])),
        k == a.len() ==> path_le(a, b),
        k == a.len() && k < b.len() ==> !path_le(b, a),
    decreases k,
{
    if k > 0 {
        assert(a[0] == a.take(k)[0] && b[0] == b.take(k)[0]);
        assert(a.drop_first().take(k - 1) =~= a.take(k).drop_first());
        assert(b.drop_first().take(k - 1) =~= b.take(k).drop_first());
        first_component_decides(a.drop_first(), b.drop_first(), k - 1);
    }
}

/// Drives come before roots, these before the current folder, that before the parent
/// folder, and that before names. Names, and drives, are in the order of their text.
pub proof fn components_are_in_order(s: Seq<char>, t: Seq<char>)
    ensures
        PartView::Prefix(s).le(PartView::RootDir) && !PartView::RootDir.le(PartView::Prefix(s)),
        PartView::RootDir.le(PartView::CurDir) && !PartView::CurDir.le(PartView::RootDir),
        PartView::CurDir.le(PartView::ParentDir) && !PartView::ParentDir.le(PartView::CurDir),
        PartView::ParentDir.le(PartView::Normal(s)) && !PartView::Normal(s).le(
            PartView::ParentDir,
        ),
        PartView::Prefix(s).le(PartView::Normal(t)) && !PartView::Normal(t).le(
            PartView::Prefix(s),
        ),
        PartView::Normal(s).le(PartView::Normal(t)) <==> crate::order::chars_le(s, t),
        PartView::Prefix(s).le(PartView::Prefix(t)) <==> crate::order::chars_le(s, t),
{
}

proof fn last_dot_is_last(n: Seq<char>)
    ensures
        -1 <= last_dot(n) < n.len(),
        last_dot(n) >= 0 ==> n[last_dot(n)] == '.',
        forall|i: int| last_dot(n) < i < n.len() ==> n[i] != '.',
    decreases n.len(),
{
    if n.len() > 0 && n.last() != '.' {
        last_dot_is_last(n.drop_last());
        assert forall|i: int| last_dot(n) < i < n.len() implies n[i] != '.' by {
            if i < n.len() - 1 {
                assert(n.drop_last()[i] == n[i]);
            }
        }
    }
}

/// A name is its stem, a full stop and its extension, which has no full stop in it; a
/// name without an extension is its own stem, and has no full stop but at its start. The
/// stem is never empty where the name is not.
pub proof fn names_are_stem_and_extension(p: Seq<PartView>)
    ensures
        name_of(p) matches Some(n) ==> {
            &&& stem_of(p) is Some
            &&& extension_of(p) matches Some(e) ==> n == stem_of(p)->0 + seq!['.'] + e
                && !e.contains('.') && stem_of(p)->0.len() > 0
            &&& extension_of(p) is None ==> stem_of(p)->0 == n && forall|i: int|
                0 < i < n.len() ==> n[i] != '.'
            &&& (exists|i: int| 0 < i < n.len() && n[i] == '.') ==> extension_of(p) is Some
        },
        name_of(p) is None ==> stem_of(p) is None && extension_of(p) is None,
        p.len() > 0 && p.last() is Normal ==> name_of(p) == Some(p.last()->Normal_0),
        p.len() == 0 || p.last() !is Normal ==> name_of(p) is None,
{
    if let Some(n) = name_of(p) {
        last_dot_is_last(n);
        let d = last_dot(n);
        if d > 0 {
            assert(n.take(d) + seq!['.'] + n.skip(d + 1) =~= n);
            let e = n.skip(d + 1);
            if e.contains('.') {
                let i = choose|i: int| 0 <= i < e.len() && e[i] == '.';
                assert(n[d + 1 + i] == '.');
            }
        }
    }
}

/// The letter of a drive is taken in upper case, and nothing else is changed: not a
/// share, and not what stands around the letter.
pub proof fn drive_letters_are_folded(s: Seq<char>, c: char)
    ensures
        drive_folded(seq![c, ':']) == seq![crate::text::upper(c), ':'],
        drive_folded(seq!['\\', '\\', '?', '\\', c, ':']) == seq![
            '\\',
            '\\',
            '?',
            '\\',
            crate::text::upper(c),
            ':',
        ],
        drive_folded(s).len() == s.len(),
        forall|i: int|
            0 <= i < s.len() ==> drive_folded(s)[i] == s[i] || (drive_folded(s)[i]
                == crate::text::upper(s[i]) && i == s.len() - 2 && s[i + 1] == ':'),
        s.len() != 2 && s.len() != 6 ==> drive_folded(s) == s,
{
    assert(drive_folded(seq![c, ':']) =~= seq![crate::text::upper(c), ':']);
    let v = seq!['\\', '\\', '?', '\\', c, ':'];
    assert(v.take(4) =~= seq!['\\', '\\', '?', '\\']);
    assert(drive_folded(v) =~= seq!['\\', '\\', '?', '\\', crate::text::upper(c), ':']);
}

/// A drive is the same under either case of its letter; names are not folded.
pub proof fn drives_are_the_same(c: char, a: Seq<char>, b: Seq<char>)
    ensures
        PathView::drive_root(seq![c, ':']).same(
            PathView::drive_root(seq![crate::text::upper(c), ':']),
        ),
        PathView::empty().joined(a).same(PathView::empty().joined(b)) <==> a == b,
{
    drive_letters_are_folded(a, c);
    drive_letters_are_folded(a, crate::text::upper(c));
    let p = PathView::drive_root(seq![c, ':']);
    let q = PathView::drive_root(seq![crate::text::upper(c), ':']);
    assert(p.pieces[0].part.folded() == PartView::Prefix(drive_folded(seq![c, ':'])));
    assert(p.parts() =~= q.parts());
    let x = PathView::empty().joined(a);
    let y = PathView::empty().joined(b);
    assert(x.parts()[0] == PartView::Normal(a));
    assert(y.parts()[0] == PartView::Normal(b));
}

/// A joined name is the file's name, and the path that it was joined to is its folder.
/// It stands behind a backslash unless there is a separator, or nothing, or only a drive
/// in front of it.
pub proof fn joined_names(p: PathView, name: Seq<char>)
    ensures
        name_of(p.joined(name).parts()) == Some(name),
        parent_of(p.joined(name)) is Some,
        parent_of(p.joined(name))->0.same(p),
        p.text().len() > 0 && (p.text().last() == '\\' || p.text().last() == '/')
            ==> p.joined(name).text() == p.text() + name,
        p.text().len() == 0 ==> p.joined(name).text() == name,
        p.text().len() > 0 && p.text().last() != '\\' && p.text().last() != '/' && !(
        p.pieces.len() == 1 && p.pieces[0].part is Prefix) ==> p.joined(name).text() == p.text()
            + "\\"@ + name,
{
    joined_law(p, name);
    let j = p.joined(name);
    assert(j.parts().last() == PartView::Normal(name));
    if p.text().len() == 0 {
        assert(p.text() + name =~= name);
    }
}

/// Nothing lies above a drive, its root, or the empty path; above everything else lies
/// the path without its last component.
pub proof fn tops_have_no_parent(p: PathView, prefix: Seq<char>)
    ensures
        parent_of(PathView::empty()) is None,
        parent_of(PathView::drive_root(prefix)) is None,
        parent_of(p) is None <==> p.pieces.len() == 0 || p.pieces.last().part is Prefix
            || p.pieces.last().part is RootDir,
        parent_of(p) matches Some(q) ==> q.parts() == p.parts().drop_last() && q.text().is_prefix_of(
            p.text(),
        ),
{
    if p.pieces.len() > 0 {
        up_law(p);
        assert(p.parts().last() == p.pieces.last().part.folded());
    }
    let d = PathView::drive_root(prefix);
    assert(d.parts().last() == PartView::RootDir);
    assert(PathView::empty().parts().len() == 0);
}

/// How the plain paths are written.
pub proof fn plain_paths(prefix: Seq<char>)
    ensures
        PathView::empty().text().len() == 0,
        PathView::current_dir().text() == "."@,
        PathView::drive_root(prefix).text() == prefix + "\\"@,
        PathView::drive_root(prefix).parts() == seq![
            PartView::Prefix(drive_folded(prefix)),
            PartView::RootDir,
        ],
{
    reveal_with_fuel(text_of, 3);
    let c = PathView::current_dir();
    assert(c.pieces.drop_last() =~= Seq::empty());
    assert(c.text() =~= "."@);
    let d = PathView::drive_root(prefix);
    assert(d.pieces.drop_last().drop_last() =~= Seq::empty());
    assert(d.pieces.drop_last().last() == d.pieces[0]);
    assert(d.text() =~= prefix + "\\"@);
    assert(d.parts() =~= seq![PartView::Prefix(drive_folded(prefix)), PartView::RootDir]);
}

/// The text of components is that of the first ones, then that of the others.
pub proof fn text_of_both(a: Seq<PieceView>, b: Seq<PieceView>)
    ensures
        text_of(a + b) == text_of(a) + text_of(b),
    decreases b.len(),
{
    if b.len() == 0 {
        assert(a + b =~= a);
        assert(text_of(a) + text_of(b) =~= text_of(a));
    } else {
        text_of_both(a, b.drop_last());
        assert((a + b).drop_last() =~= a + b.drop_last());
        assert((a + b).last() == b.last());
        assert(text_of(a + b) =~= text_of(a) + text_of(b));
    }
}

/// Behind a drive without its root a name stands right away, and behind a share it stands
/// after a backslash.
pub proof fn names_behind_a_prefix(prefix: Seq<char>, name: Seq<char>)
    ensures
        ({
            let p = PathView {
                pieces: seq![PieceView { before: Seq::empty(), part: PartView::Prefix(prefix) }],
                tail: Seq::empty(),
            };
            let drive = prefix.len() == 2 && prefix[1] == ':';
            &&& p.text() == prefix
            &&& drive ==> p.joined(name).text() == prefix + name
            &&& !drive && prefix.len() > 0 && prefix.last() != '\\' && prefix.last() != '/'
                ==> p.joined(name).text() == prefix + "\\"@ + name
        }),
{
    let p = PathView {
        pieces: seq![PieceView { before: Seq::empty(), part: PartView::Prefix(prefix) }],
        tail: Seq::empty(),
    };
    reveal_with_fuel(text_of, 2);
    assert(p.pieces.drop_last() =~= Seq::empty());
    assert(p.text() =~= prefix);
    joined_law(p, name);
}

/// In front of a root stands one separator, where the text begins with one, and otherwise
/// nothing; in front of any other component stands what comes before its first occurrence.
pub proof fn gaps_before_components(part: PartView, s: Seq<char>, rest: Seq<char>)
    ensures
        gap_before(PartView::RootDir, seq!['\\'] + s) == 1,
        gap_before(PartView::RootDir, seq!['/'] + s) == 1,
        gap_before(PartView::RootDir, Seq::empty()) == 0,
        s.len() > 0 && s[0] != '\\' && s[0] != '/' ==> gap_before(PartView::RootDir, s) == 0,
        part !is RootDir ==> gap_before(part, part.shown() + rest) == 0,
        part !is RootDir && gap_before(part, s) + part.shown().len() <= s.len() ==> s.subrange(
            gap_before(part, s),
            gap_before(part, s) + part.shown().len(),
        ) == part.shown(),
{
    let t = part.shown() + rest;
    assert(t.subrange(0, part.shown().len() as int) =~= part.shown());
    offset_is_found(part.shown(), s);
}

} // verus!
